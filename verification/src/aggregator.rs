//! The sequential detail fan-out: one detail per item, item after item.
//!
//! For a listed collection and one kind of detail call, the caller asks the
//! provider once per item and hands each answer over. The aggregator resolves
//! it and attaches the detail to the item's name. The report keeps the order
//! of the listing, and the first answer that aborts voids it as a whole.

use crate::classifier::aborts;
use crate::classifier::detail_of;
use crate::classifier::resolve;
use crate::classifier::Detail;
use crate::classifier::Operation;
use crate::classifier::ProviderFailure;
use crate::common::AWSError;
use vstd::prelude::*;

verus! {

/// The provider's answer to the detail call for one item.
#[derive(Debug, PartialEq, Eq)]
pub struct Answered<T> {
    pub name: String,
    pub outcome: Result<T, ProviderFailure>,
}

/// An item's name with the detail found for it.
#[derive(Debug, Clone, PartialEq, Eq)]
pub struct Attached<T> {
    pub name: String,
    pub detail: Detail<T>,
}

/// The entry that an answer adds to the report, for an answer that does not
/// abort it.
pub open spec fn attached_of<T>(op: Operation, answer: Answered<T>) -> Attached<T> {
    Attached { name: answer.name, detail: detail_of(op, answer.outcome)->Some_0 }
}

/// The answer at `at` is the first to abort the report.
pub open spec fn first_abort<T>(op: Operation, answers: Seq<Answered<T>>, at: int) -> bool {
    &&& 0 <= at < answers.len()
    &&& aborts(op, answers[at].outcome)
    &&& forall|i: int| 0 <= i < at ==> !aborts(op, (#[trigger] answers[i]).outcome)
}

/// What the answers for a whole collection make: one entry per answer, in
/// order, unless an answer aborts; then the error of the first that does.
pub open spec fn swept<T>(
    op: Operation,
    answers: Seq<Answered<T>>,
    r: Result<Vec<Attached<T>>, AWSError>,
) -> bool {
    match r {
        Ok(report) => {
            &&& forall|i: int| 0 <= i < answers.len() ==> !aborts(op, (#[trigger] answers[i]).outcome)
            &&& report@ == answers.map_values(|answer: Answered<T>| attached_of(op, answer))
        },
        Err(error) => exists|at: int|
            {
                &&& #[trigger] first_abort(op, answers, at)
                &&& error.reports(
                    answers[at].outcome->Err_0.message,
                    Some(op),
                    Some(answers[at].name),
                )
            },
    }
}

/// The detail that a report holds for `name`: that of the last entry under the
/// name, as in a map filled in the report's order.
pub open spec fn detail_under<T>(report: Seq<Attached<T>>, name: Seq<char>) -> Option<Detail<T>>
    decreases report.len(),
{
    if report.len() == 0 {
        None
    } else if report.last().name@ == name {
        Some(report.last().detail)
    } else {
        detail_under(report.drop_last(), name)
    }
}

/// Takes the answer for one item: attaches its detail at the end of `report`,
/// or returns the error that aborts the report and leaves `report` as it was.
/// The error names the call and the item.
pub fn attach<T>(report: &mut Vec<Attached<T>>, op: Operation, answer: Answered<T>) -> (r: Result<
    (),
    AWSError,
>)
    ensures
        r is Ok <==> !aborts(op, answer.outcome),
        r is Ok ==> final(report)@ == old(report)@.push(attached_of(op, answer)),
        r matches Err(error) ==> final(report)@ == old(report)@ && error.reports(
            answer.outcome->Err_0.message,
            Some(op),
            Some(answer.name),
        ),
{
    let Answered { name, outcome } = answer;
    match resolve(op, outcome) {
        Ok(detail) => {
            report.push(Attached { name, detail });
            Ok(())
        },
        Err(error) => Err(error.about(name)),
    }
}

/// Builds the report for a whole collection from the answers for its items,
/// given in the order of the listing.
pub fn collect_details<T>(op: Operation, answers: Vec<Answered<T>>) -> (r: Result<
    Vec<Attached<T>>,
    AWSError,
>)
    ensures
        swept(op, answers@, r),
{
    let ghost all = answers@;
    let ghost entry = |answer: Answered<T>| attached_of(op, answer);
    let mut report: Vec<Attached<T>> = Vec::new();
    for answer in it: answers
        invariant
            it.seq() == all,
            entry == |answer: Answered<T>| attached_of(op, answer),
            forall|i: int| 0 <= i < it.index() ==> !aborts(op, (#[trigger] all[i]).outcome),
            report@ == all.take(it.index() as int).map_values(entry),
    {
        proof {
            assert(all.take(it.index() + 1).map_values(entry) =~= all.take(
                it.index() as int,
            ).map_values(entry).push(entry(answer)));
        }
        match attach(&mut report, op, answer) {
            Ok(()) => {},
            Err(error) => {
                assert(first_abort(op, all, it.index() as int));
                return Err(error);
            },
        }
    }
    assert(all.take(all.len() as int) =~= all);
    Ok(report)
}

/// Looks a name up in a report.
pub fn detail_for<'a, T>(report: &'a Vec<Attached<T>>, name: &String) -> (found: Option<
    &'a Detail<T>,
>)
    ensures
        found is Some == detail_under(report@, name@) is Some,
        found matches Some(detail) ==> Some(*detail) == detail_under(report@, name@),
{
    let mut i: usize = report.len();
    assert(report@.take(report.len() as int) =~= report@);
    while i > 0
        invariant
            i <= report.len(),
            detail_under(report@, name@) == detail_under(report@.take(i as int), name@),
        decreases i,
    {
        i = i - 1;
        proof {
            let upto = report@.take(i + 1);
            assert(upto.drop_last() =~= report@.take(i as int));
            assert(upto.last() == report@[i as int]);
        }
        if report[i].name == *name {
            return Some(&report[i].detail);
        }
    }
    None
}

/// A report names the items of the listing, one entry each, in its order.
pub proof fn lemma_report_follows_the_listing<T>(
    op: Operation,
    answers: Seq<Answered<T>>,
    r: Result<Vec<Attached<T>>, AWSError>,
)
    requires
        swept(op, answers, r),
        r is Ok,
    ensures
        r->Ok_0@.len() == answers.len(),
        forall|i: int|
            0 <= i < answers.len() ==> (#[trigger] r->Ok_0@[i]).name == answers[i].name && Some(
                r->Ok_0@[i].detail,
            ) == detail_of(op, answers[i].outcome),
{
}

/// No partial report: a report is returned if and only if no answer aborts.
pub proof fn lemma_any_abort_voids_the_report<T>(
    op: Operation,
    answers: Seq<Answered<T>>,
    r: Result<Vec<Attached<T>>, AWSError>,
    at: int,
)
    requires
        swept(op, answers, r),
        0 <= at < answers.len(),
        aborts(op, answers[at].outcome),
    ensures
        r is Err,
{
}

/// The error of a voided report is that of the first aborting answer, with
/// the call and the item it was made for: no later answer changes it.
pub proof fn lemma_first_abort_decides<T>(
    op: Operation,
    answers: Seq<Answered<T>>,
    r: Result<Vec<Attached<T>>, AWSError>,
    at: int,
)
    requires
        swept(op, answers, r),
        first_abort(op, answers, at),
    ensures
        r matches Err(error) && error.reports(
            answers[at].outcome->Err_0.message,
            Some(op),
            Some(answers[at].name),
        ),
{
    if r is Err {
        let found = choose|found: int|
            {
                &&& #[trigger] first_abort(op, answers, found)
                &&& r->Err_0.reports(
                    answers[found].outcome->Err_0.message,
                    Some(op),
                    Some(answers[found].name),
                )
            };
        if found < at {
            assert(!aborts(op, answers[found].outcome));
        }
        if at < found {
            assert(!aborts(op, answers[at].outcome));
        }
    }
}

} // verus!
