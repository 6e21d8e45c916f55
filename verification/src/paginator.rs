//! The paginator: one ordered collection out of a listing served in pages.
//!
//! A listing call takes the continuation token of the page before and returns
//! a page with the token of the next. The caller makes the calls; the
//! paginator decides after each answer whether the listing is complete, has
//! failed, or goes on, and with which token. Items keep the provider's order.

use crate::classifier::Operation;
use crate::classifier::ProviderFailure;
use crate::common::AWSError;
use vstd::prelude::*;

verus! {

/// One page of a listing.
#[derive(Debug, Clone, PartialEq, Eq)]
pub struct Page<T> {
    pub items: Vec<T>,
    /// The token that fetches the next page; absent or empty on the last page.
    pub next_token: Option<String>,
}

/// A listing in progress: the listing call, the items gathered so far, and
/// the token that the next request carries (none on the first request).
#[derive(Debug, Clone, PartialEq, Eq)]
pub struct Paginator<T> {
    pub operation: Operation,
    pub items: Vec<T>,
    pub token: Option<String>,
}

/// Where a listing stands after an answer.
#[derive(Debug, Clone, PartialEq, Eq)]
pub enum Progress<T> {
    /// More pages are to be fetched.
    More(Paginator<T>),
    /// The listing is complete.
    Complete(Vec<T>),
    /// A page failed; what was gathered is discarded.
    Failed(AWSError),
}

/// Where a replayed listing stands, and how many answers it took.
#[derive(Debug, Clone, PartialEq, Eq)]
pub struct Replay<T> {
    pub progress: Progress<T>,
    pub calls: usize,
}

/// An answer to one page request.
pub type Answer<T> = Result<Page<T>, ProviderFailure>;

/// A page is the last when it names no next page.
pub open spec fn is_last<T>(page: Page<T>) -> bool {
    page.next_token matches Some(token) ==> token@.len() == 0
}

/// An answer halts the listing when it is a failure or the last page.
pub open spec fn halts<T>(answer: Answer<T>) -> bool {
    answer matches Ok(page) ==> is_last(page)
}

/// The items of an answer; a failure has none.
pub open spec fn items_of<T>(answer: Answer<T>) -> Seq<T> {
    match answer {
        Ok(page) => page.items@,
        Err(_) => Seq::empty(),
    }
}

/// The items of all `answers`, page after page.
pub open spec fn gathered<T>(answers: Seq<Answer<T>>) -> Seq<T> {
    answers.map_values(|answer: Answer<T>| items_of(answer)).flatten()
}

/// What one answer makes of a listing in progress.
pub open spec fn advanced<T>(state: Paginator<T>, answer: Answer<T>, next: Progress<T>) -> bool {
    match answer {
        Err(failure) => next matches Progress::Failed(error) && error.reports(
            failure.message,
            Some(state.operation),
            None,
        ),
        Ok(page) => if is_last(page) {
            next matches Progress::Complete(items) && items@ == state.items@ + page.items@
        } else {
            next matches Progress::More(after) && after.operation == state.operation
                && after.items@ == state.items@ + page.items@ && after.token == page.next_token
        },
    }
}

/// How many answers a listing takes of `answers` given in order, from its
/// first request: all up to the first that halts it, and no further.
pub open spec fn taken<P>(answers: Seq<Answer<P>>, calls: int) -> bool {
    &&& 0 <= calls <= answers.len()
    &&& forall|i: int| 0 <= i < calls - 1 ==> !halts(#[trigger] answers[i])
    &&& calls < answers.len() ==> calls > 0 && halts(answers[calls - 1])
}

/// Where a listing of `operation` stands after `answers`: it has taken the
/// answers up to the first that halts it, it holds `items`, and the last
/// answer taken decides whether it goes on, is complete or has failed.
pub open spec fn stands<P, T>(
    operation: Operation,
    answers: Seq<Answer<P>>,
    items: Seq<T>,
    replay: Replay<T>,
) -> bool {
    let calls = replay.calls as int;
    &&& taken(answers, calls)
    &&& if calls == 0 {
        replay.progress matches Progress::More(state) && state.operation == operation
            && state.items@ == items && state.token is None
    } else {
        match answers[calls - 1] {
            Err(failure) => replay.progress matches Progress::Failed(error) && error.reports(
                failure.message,
                Some(operation),
                None,
            ),
            Ok(page) => if is_last(page) {
                replay.progress matches Progress::Complete(listed) && listed@ == items
            } else {
                replay.progress matches Progress::More(state) && state.operation == operation
                    && state.items@ == items && state.token == page.next_token
            },
        }
    }
}

/// What a listing of `operation` makes of `answers` given in order, from its
/// first request: it stands where the answers it took put it, with the items
/// of all pages it took, page after page.
pub open spec fn replayed<T>(
    operation: Operation,
    answers: Seq<Answer<T>>,
    replay: Replay<T>,
) -> bool {
    stands(operation, answers, gathered(answers.take(replay.calls as int)), replay)
}

/// Gathering one more answer appends its items.
pub proof fn lemma_gathered_push<T>(answers: Seq<Answer<T>>, answer: Answer<T>)
    ensures
        gathered(answers.push(answer)) == gathered(answers) + items_of(answer),
{
    let pages = answers.map_values(|answer: Answer<T>| items_of(answer));
    let more = answers.push(answer).map_values(|answer: Answer<T>| items_of(answer));
    assert(more =~= pages.push(items_of(answer)));
    more.lemma_flatten_and_flatten_alt_are_equivalent();
    pages.lemma_flatten_and_flatten_alt_are_equivalent();
    assert(more.drop_last() =~= pages);
}

impl<T> Paginator<T> {
    /// A listing of `operation` before its first request.
    pub fn new(operation: Operation) -> (state: Self)
        ensures
            state.operation == operation,
            state.items@ == Seq::<T>::empty(),
            state.token is None,
    {
        Paginator { operation, items: Vec::new(), token: None }
    }

    /// The token that the next request carries.
    pub fn token(&self) -> (token: Option<&String>)
        ensures
            token is Some == self.token is Some,
            token matches Some(text) ==> *text == self.token->Some_0,
    {
        self.token.as_ref()
    }

    /// Takes the answer to the pending request. A failure aborts the listing
    /// with the provider's message, as a failure of the listing call; the last
    /// page completes it; any other page is appended, and its token is the one
    /// to ask with next.
    pub fn advance(self, answer: Answer<T>) -> (next: Progress<T>)
        ensures
            advanced(self, answer, next),
    {
        match answer {
            Err(failure) => Progress::Failed(
                AWSError::from_message(failure.message).during(self.operation),
            ),
            Ok(page) => {
                let Page { items: mut fresh, next_token } = page;
                let mut items = self.items;
                items.append(&mut fresh);
                let last = match &next_token {
                    Some(token) => token.as_str().is_empty(),
                    None => true,
                };
                if last {
                    Progress::Complete(items)
                } else {
                    Progress::More(Paginator { operation: self.operation, items, token: next_token })
                }
            },
        }
    }
}

/// Runs a listing of `operation` over `answers`, the provider's answers in the
/// order in which it gave them, and reports where the listing stands and how
/// many answers it took: one per request made.
pub fn replay<T>(operation: Operation, answers: Vec<Answer<T>>) -> (run: Replay<T>)
    ensures
        replayed(operation, answers@, run),
{
    let ghost all = answers@;
    let total = answers.len();
    let mut state: Paginator<T> = Paginator::new(operation);
    let mut calls: usize = 0;
    assert(gathered(all.take(0)) =~= Seq::<T>::empty()) by {
        assert(all.take(0).map_values(|answer: Answer<T>| items_of(answer)) =~= Seq::<
            Seq<T>,
        >::empty());
    }
    for answer in it: answers
        invariant
            it.seq() == all,
            all.len() == total,
            calls == it.index(),
            state.operation == operation,
            forall|i: int| 0 <= i < calls ==> !halts(#[trigger] all[i]),
            state.items@ == gathered(all.take(calls as int)),
            state.token == if calls == 0 {
                None
            } else {
                all[calls - 1]->Ok_0.next_token
            },
    {
        proof {
            lemma_gathered_push(all.take(calls as int), answer);
            assert(all.take(calls as int).push(answer) =~= all.take(calls + 1));
        }
        calls = calls + 1;
        match state.advance(answer) {
            Progress::More(after) => {
                state = after;
            },
            Progress::Complete(items) => {
                return Replay { progress: Progress::Complete(items), calls };
            },
            Progress::Failed(error) => {
                return Replay { progress: Progress::Failed(error), calls };
            },
        }
    }
    Replay { progress: Progress::More(state), calls }
}

/// Pagination is complete: when every answer is a page and only the last page
/// is the last, the listing is complete after one request for each page, and
/// holds the items of all of them.
pub proof fn lemma_pagination_is_complete<P, T>(
    operation: Operation,
    answers: Seq<Answer<P>>,
    items: Seq<T>,
    run: Replay<T>,
)
    requires
        answers.len() > 0,
        forall|i: int| 0 <= i < answers.len() ==> (#[trigger] answers[i]) is Ok,
        forall|i: int| 0 <= i < answers.len() - 1 ==> !is_last((#[trigger] answers[i])->Ok_0),
        is_last(answers.last()->Ok_0),
        stands(operation, answers, items, run),
    ensures
        run.calls == answers.len(),
        run.progress matches Progress::Complete(listed) && listed@ == items,
{
    let calls = run.calls as int;
    if 0 < calls < answers.len() {
        assert(!halts(answers[calls - 1]));
    }
}

/// The items of a complete listing are those of all its pages in order, and
/// the number of requests is the number of pages.
pub proof fn lemma_complete_listing_holds_all_pages<T>(
    operation: Operation,
    answers: Seq<Answer<T>>,
    run: Replay<T>,
)
    requires
        answers.len() > 0,
        forall|i: int| 0 <= i < answers.len() ==> (#[trigger] answers[i]) is Ok,
        forall|i: int| 0 <= i < answers.len() - 1 ==> !is_last((#[trigger] answers[i])->Ok_0),
        is_last(answers.last()->Ok_0),
        replayed(operation, answers, run),
    ensures
        run.calls == answers.len(),
        run.progress matches Progress::Complete(listed) && listed@ == gathered(answers),
{
    lemma_pagination_is_complete(
        operation,
        answers,
        gathered(answers.take(run.calls as int)),
        run,
    );
    assert(answers.take(answers.len() as int) =~= answers);
}

/// A failure on any page fails the whole listing with that page's message:
/// nothing of the pages before it is returned, and no page after it is asked
/// for.
pub proof fn lemma_pagination_fails_fast<P, T>(
    operation: Operation,
    answers: Seq<Answer<P>>,
    items: Seq<T>,
    run: Replay<T>,
    at: int,
)
    requires
        0 <= at < answers.len(),
        answers[at] is Err,
        forall|i: int| 0 <= i < at ==> !halts(#[trigger] answers[i]),
        stands(operation, answers, items, run),
    ensures
        run.calls == at + 1,
        run.progress matches Progress::Failed(error) && error.reports(
            answers[at]->Err_0.message,
            Some(operation),
            None,
        ),
{
    let calls = run.calls as int;
    assert(halts(answers[at]));
    if calls - 1 > at {
        assert(!halts(answers[at]));
    }
    if 0 < calls && calls - 1 < at {
        assert(!halts(answers[calls - 1]));
    }
}

} // verus!
