//! The call memoizer: each distinct call is made once per cache.
//!
//! A `CallCache` remembers the result of every call it has seen, under the
//! call's key. The first caller for a key is told to make the call; until the
//! call settles its key is in flight, and other callers for it wait. A settled
//! result is never evicted or replaced, and a failure is remembered like a
//! success.
//!
//! A key names the call: the operation, and the item where the call is made
//! for one. The keys live as text in an unbounded store of the `cached` crate,
//! which maps each text to the slot that holds the result; the slots
//! themselves are kept here, in the order in which the calls began. No two
//! keys have the same text, so no call is answered with the result of
//! another.

use crate::classifier::Operation;
use crate::common::AWSError;
use cached::Cached;
use cached::CachedPeek;
use cached::UnboundCache;
use vstd::prelude::*;
use vstd::string::*;

verus! {

#[verifier::external_type_specification]
#[verifier::external_body]
#[verifier::reject_recursive_types(K)]
#[verifier::reject_recursive_types(V)]
#[verifier::reject_recursive_types(S)]
pub struct ExUnboundCache<K, V, S>(UnboundCache<K, V, S>);

/// The slot that the store holds for each key.
pub uninterp spec fn slots(index: UnboundCache<String, usize>) -> Map<Seq<char>, usize>;

/// `UnboundCache::new`: a store without entries.
#[verifier::external_body]
fn index_new() -> (store: UnboundCache<String, usize>)
    ensures
        slots(store) == (Map::<Seq<char>, usize>::empty()),
{
    UnboundCache::new()
}

/// `CachedPeek::cache_peek` on the store: the slot kept under `key`, if the
/// store has the key. The store is left as it was.
#[verifier::external_body]
fn index_peek(index: &UnboundCache<String, usize>, key: &str) -> (slot: Option<usize>)
    ensures
        slot == if slots(*index).contains_key(key@) {
            Some(slots(*index)[key@])
        } else {
            None
        },
{
    index.cache_peek(key).copied()
}

/// `Cached::cache_set` on the store: afterwards `key` leads to `slot`, and every
/// other key to what it led to before.
#[verifier::external_body]
fn index_set(index: &mut UnboundCache<String, usize>, key: String, slot: usize)
    ensures
        slots(*final(index)) == slots(*old(index)).insert(key@, slot),
{
    index.cache_set(key, slot);
}

/// What a cache holds after a call under `key` settles with `outcome`: the
/// first result under a key stays, so a later one changes nothing.
pub open spec fn settle<K, R>(entries: Map<K, R>, key: K, outcome: R) -> Map<K, R> {
    if entries.contains_key(key) {
        entries
    } else {
        entries.insert(key, outcome)
    }
}

/// What the caller of a call under `key` observes when the call would settle
/// with `outcome`: the remembered result where there is one, else `outcome`.
pub open spec fn observe<K, R>(entries: Map<K, R>, key: K, outcome: R) -> R {
    if entries.contains_key(key) {
        entries[key]
    } else {
        outcome
    }
}

/// The name of a call: the operation, and the item for a call that is made
/// for one item. A call for a whole collection has no item.
#[derive(Debug, Clone, PartialEq, Eq)]
pub struct CallKey {
    pub operation: Operation,
    pub item: Option<String>,
}

/// A key as plain values.
pub type KeyView = (Operation, Option<Seq<char>>);

impl View for CallKey {
    type V = KeyView;

    open spec fn view(&self) -> KeyView {
        (
            self.operation,
            match self.item {
                Some(identity) => Some(identity@),
                None => None,
            },
        )
    }
}

/// The key of the call of `operation` for a whole collection.
pub open spec fn collection_key(operation: Operation) -> KeyView {
    (operation, None)
}

/// The key of the call of `operation` for the item `identity`.
pub open spec fn item_key(operation: Operation, identity: Seq<char>) -> KeyView {
    (operation, Some(identity))
}

/// The separator between an operation's tag and an item's identity.
pub open spec fn separator() -> char {
    '/'
}

/// The tag of each operation: the text of the key of its call for a whole
/// collection.
pub open spec fn tag_of(operation: Operation) -> Seq<char> {
    match operation {
        Operation::ListBuckets => "s3_buckets"@,
        Operation::GetBucketVersioning => "s3_bucket_versioning"@,
        Operation::GetBucketAcl => "s3_bucket_acl"@,
        Operation::GetBucketPolicy => "s3_bucket_policy"@,
        Operation::GetBucketLogging => "s3_bucket_logging"@,
        Operation::GetBucketLifecycleConfiguration => "s3_bucket_lifecycle"@,
        Operation::ListUsers => "iam_users"@,
        Operation::GetUserPolicy => "iam_user_policy"@,
        Operation::DescribeInstances => "ec2_instances"@,
        Operation::DescribeImages => "ec2_images"@,
        Operation::GetCallerIdentity => "sts_identity"@,
    }
}

/// The text of a key: the operation's tag alone for a whole collection; for
/// one item the tag, the separator, and the item's identity.
pub open spec fn text_of(key: KeyView) -> Seq<char> {
    match key.1 {
        None => tag_of(key.0),
        Some(identity) => tag_of(key.0).push(separator()) + identity,
    }
}

/// The tag of `operation`.
pub fn tag(operation: Operation) -> (text: &'static str)
    ensures
        text@ == tag_of(operation),
{
    match operation {
        Operation::ListBuckets => "s3_buckets",
        Operation::GetBucketVersioning => "s3_bucket_versioning",
        Operation::GetBucketAcl => "s3_bucket_acl",
        Operation::GetBucketPolicy => "s3_bucket_policy",
        Operation::GetBucketLogging => "s3_bucket_logging",
        Operation::GetBucketLifecycleConfiguration => "s3_bucket_lifecycle",
        Operation::ListUsers => "iam_users",
        Operation::GetUserPolicy => "iam_user_policy",
        Operation::DescribeInstances => "ec2_instances",
        Operation::DescribeImages => "ec2_images",
        Operation::GetCallerIdentity => "sts_identity",
    }
}

impl CallKey {
    /// The key of the call of `operation` for a whole collection.
    pub fn collection(operation: Operation) -> (key: CallKey)
        ensures
            key@ == collection_key(operation),
    {
        CallKey { operation, item: None }
    }

    /// The key of the call of `operation` for the item `identity`. A call that
    /// depends on an item carries the item in its key.
    pub fn item(operation: Operation, identity: String) -> (key: CallKey)
        ensures
            key@ == item_key(operation, identity@),
    {
        CallKey { operation, item: Some(identity) }
    }

    /// The key as text.
    pub fn render(&self) -> (text: String)
        ensures
            text@ == text_of(self@),
    {
        let text = tag(self.operation).to_owned();
        match &self.item {
            None => text,
            Some(identity) => {
                let text = text.concat("/");
                proof {
                    reveal_strlit("/");
                    assert("/"@ =~= seq![separator()]);
                    assert(tag_of(self.operation) + seq![separator()] =~= tag_of(
                        self.operation,
                    ).push(separator()));
                }
                text.concat(identity.as_str())
            },
        }
    }
}

/// No tag holds the separator, and no two operations have the same tag.
pub proof fn lemma_tags_are_plain_and_distinct(operation: Operation, other: Operation)
    ensures
        !tag_of(operation).contains(separator()),
        tag_of(operation) == tag_of(other) ==> operation == other,
{
    reveal_strlit("s3_buckets");
    reveal_strlit("s3_bucket_versioning");
    reveal_strlit("s3_bucket_acl");
    reveal_strlit("s3_bucket_policy");
    reveal_strlit("s3_bucket_logging");
    reveal_strlit("s3_bucket_lifecycle");
    reveal_strlit("iam_users");
    reveal_strlit("iam_user_policy");
    reveal_strlit("ec2_instances");
    reveal_strlit("ec2_images");
    reveal_strlit("sts_identity");
    let text = tag_of(operation);
    assert forall|i: int| 0 <= i < text.len() implies text[i] != separator() by {}
    if tag_of(operation) == tag_of(other) && operation != other {
        let theirs = tag_of(other);
        assert(text.len() == theirs.len());
        assert(text[0] == theirs[0]);
        assert(text[3] == theirs[3]);
        assert(text[4] == theirs[4]);
        assert(text[10] == theirs[10]);
    }
}

/// Keys tell calls apart: two keys have the same text only if they name the
/// same operation and the same item. An item's identity may hold any
/// character, the separator too.
pub proof fn lemma_keys_have_distinct_text(key: KeyView, other: KeyView)
    requires
        text_of(key) == text_of(other),
    ensures
        key == other,
{
    lemma_tags_are_plain_and_distinct(key.0, other.0);
    lemma_tags_are_plain_and_distinct(other.0, key.0);
    let mine = tag_of(key.0);
    let theirs = tag_of(other.0);
    let n = mine.len() as int;
    let m = theirs.len() as int;
    let text = text_of(key);
    match (key.1, other.1) {
        (None, None) => {},
        (Some(identity), None) => {
            assert(text[n] == separator());
            assert(theirs.contains(theirs[n]));
        },
        (None, Some(identity)) => {
            assert(text[m] == separator());
            assert(mine.contains(mine[m]));
        },
        (Some(identity), Some(other_identity)) => {
            let theirs_text = text_of(other);
            assert(text[n] == separator());
            assert(theirs_text[m] == separator());
            if n < m {
                assert(theirs_text[n] == theirs[n]);
                assert(theirs.contains(theirs[n]));
            }
            if m < n {
                assert(text[m] == mine[m]);
                assert(mine.contains(mine[m]));
            }
            assert(mine =~= theirs) by {
                assert forall|i: int| 0 <= i < n implies mine[i] == theirs[i] by {
                    assert(text[i] == mine[i]);
                    assert(theirs_text[i] == theirs[i]);
                }
            }
            assert(identity =~= other_identity) by {
                assert(identity.len() == text.len() - n - 1);
                assert(other_identity.len() == theirs_text.len() - m - 1);
                assert forall|i: int| 0 <= i < identity.len() implies identity[i]
                    == other_identity[i] by {
                    assert(text[n + 1 + i] == identity[i]);
                    assert(theirs_text[m + 1 + i] == other_identity[i]);
                }
            }
        },
    }
}

/// What a caller is told who asks to make the call under a key.
#[derive(Debug)]
pub enum Admission<'a, V> {
    /// The call has settled: this is its result.
    Settled(&'a Result<V, AWSError>),
    /// Nobody has begun the call: the caller makes it, and records the result.
    Execute,
    /// Somebody else is making the call: the caller waits for it to settle.
    Wait,
}

/// A cache of call results, one per key. A key is unknown, in flight (its
/// call was begun and has not settled), or settled.
pub struct CallCache<V> {
    index: UnboundCache<String, usize>,
    /// One slot per key that was begun; an empty slot is a call in flight.
    held: Vec<Option<Result<V, AWSError>>>,
    /// The key of each slot.
    log: Ghost<Seq<KeyView>>,
}

impl<V> CallCache<V> {
    /// The cache's invariant: the texts of the store and the slots correspond
    /// one to one, and each text is that of its slot's key.
    pub closed spec fn wf(&self) -> bool {
        &&& self.log@.len() == self.held.len()
        &&& forall|text: Seq<char>| #[trigger]
            slots(self.index).contains_key(text) ==> slots(self.index)[text] < self.held.len()
                && text_of(self.log@[slots(self.index)[text] as int]) == text
        &&& forall|i: int|
            0 <= i < self.log@.len() ==> slots(self.index).contains_key(
                text_of(#[trigger] self.log@[i]),
            ) && slots(self.index)[text_of(self.log@[i])] == i
    }

    /// The slot of a key, where the key has one.
    closed spec fn slot_of(&self, key: KeyView) -> Option<Option<Result<V, AWSError>>> {
        if slots(self.index).contains_key(text_of(key)) {
            Some(self.held[slots(self.index)[text_of(key)] as int])
        } else {
            None
        }
    }

    /// The settled result of each settled key.
    pub closed spec fn entries(&self) -> Map<KeyView, Result<V, AWSError>> {
        Map::new(
            |key: KeyView| self.slot_of(key) matches Some(Some(_)),
            |key: KeyView| self.slot_of(key)->Some_0->Some_0,
        )
    }

    /// The keys whose call is in flight.
    pub closed spec fn in_flight(&self) -> Set<KeyView> {
        Set::new(|key: KeyView| self.slot_of(key) matches Some(None))
    }

    /// The keys whose call was begun, in the order in which they were begun:
    /// the log of the calls that were executed rather than answered from the
    /// cache.
    pub closed spec fn begun(&self) -> Seq<KeyView> {
        self.log@
    }

    /// How many calls were executed.
    pub open spec fn executions(&self) -> nat {
        self.begun().len()
    }

    /// The key is neither settled nor in flight.
    pub open spec fn unknown(&self, key: KeyView) -> bool {
        !self.entries().contains_key(key) && !self.in_flight().contains(key)
    }

    /// What asking to make the call under `key` makes of a cache: a settled
    /// key is answered, a key in flight is to be waited for, and the first
    /// caller for an unknown key is told to execute, which puts the key in
    /// flight and on the log. Nothing else changes.
    pub open spec fn asked(before: Self, key: KeyView, admission: Admission<V>, after: Self) -> bool {
        &&& after.entries() == before.entries()
        &&& if before.entries().contains_key(key) {
            &&& admission == Admission::Settled(&before.entries()[key])
            &&& after.in_flight() == before.in_flight()
            &&& after.begun() == before.begun()
        } else if before.in_flight().contains(key) {
            &&& admission is Wait
            &&& after.in_flight() == before.in_flight()
            &&& after.begun() == before.begun()
        } else {
            &&& admission is Execute
            &&& after.in_flight() == before.in_flight().insert(key)
            &&& after.begun() == before.begun().push(key)
        }
    }

    /// What recording `outcome` under `key` makes of a cache: the first
    /// result under a key stays. A key in flight settles; a key that nobody
    /// had begun settles too, and goes on the log.
    pub open spec fn recorded(
        before: Self,
        key: KeyView,
        outcome: Result<V, AWSError>,
        observed: Result<V, AWSError>,
        after: Self,
    ) -> bool {
        &&& after.entries() == settle(before.entries(), key, outcome)
        &&& observed == observe(before.entries(), key, outcome)
        &&& after.in_flight() == before.in_flight().remove(key)
        &&& after.begun() == if before.unknown(key) {
            before.begun().push(key)
        } else {
            before.begun()
        }
    }

    /// What a call under `key` makes of a cache: a settled key is answered
    /// from the cache, which stays as it was; any other key is answered by
    /// `compute`, whose result settles under the key as one more execution.
    pub open spec fn answered<F: FnOnce() -> Result<V, AWSError>>(
        before: Self,
        key: KeyView,
        compute: F,
        observed: Result<V, AWSError>,
        after: Self,
    ) -> bool {
        &&& after.in_flight() == before.in_flight()
        &&& if before.entries().contains_key(key) {
            &&& observed == before.entries()[key]
            &&& after.entries() == before.entries()
            &&& after.begun() == before.begun()
        } else {
            &&& compute.ensures((), observed)
            &&& after.entries() == before.entries().insert(key, observed)
            &&& after.begun() == before.begun().push(key)
        }
    }

    /// Other keys keep their slots when the text of `key` is given a slot.
    proof fn lemma_other_slots_stay(before: Self, after: Self, key: KeyView, slot: usize)
        requires
            slots(after.index) == slots(before.index).insert(text_of(key), slot),
            forall|i: int| 0 <= i < before.held.len() ==> after.held[i] == before.held[i],
            before.wf(),
        ensures
            forall|other: KeyView|
                other != key ==> #[trigger] after.slot_of(other) == before.slot_of(other),
    {
        assert forall|other: KeyView| other != key implies #[trigger] after.slot_of(other)
            == before.slot_of(other) by {
            if text_of(other) == text_of(key) {
                lemma_keys_have_distinct_text(other, key);
            }
        }
    }

    /// An empty cache.
    pub fn new() -> (cache: Self)
        ensures
            cache.wf(),
            cache.entries() == Map::<KeyView, Result<V, AWSError>>::empty(),
            cache.in_flight() == Set::<KeyView>::empty(),
            cache.begun() == Seq::<KeyView>::empty(),
    {
        let cache = CallCache { index: index_new(), held: Vec::new(), log: Ghost(Seq::empty()) };
        assert(cache.entries() =~= Map::<KeyView, Result<V, AWSError>>::empty());
        assert(cache.in_flight() =~= Set::<KeyView>::empty());
        cache
    }

    /// The settled result under `key`, if the call has settled.
    pub fn lookup(&self, key: &CallKey) -> (found: Option<&Result<V, AWSError>>)
        requires
            self.wf(),
        ensures
            found is Some == self.entries().contains_key(key@),
            found matches Some(result) ==> *result == self.entries()[key@],
    {
        let text = key.render();
        match index_peek(&self.index, text.as_str()) {
            Some(slot) => self.held[slot].as_ref(),
            None => None,
        }
    }

    /// The number of calls that were executed.
    pub fn executed(&self) -> (n: usize)
        requires
            self.wf(),
        ensures
            n == self.executions(),
    {
        self.held.len()
    }

    /// Asks to make the call under `key`. Of all callers for one key, the
    /// first alone is told to execute; the others wait or get the result.
    pub fn begin<'a>(&'a mut self, key: &CallKey) -> (admission: Admission<'a, V>)
        requires
            old(self).wf(),
        ensures
            final(self).wf(),
            Self::asked(*old(self), key@, admission, *final(self)),
    {
        let text = key.render();
        match index_peek(&self.index, text.as_str()) {
            Some(slot) => match &self.held[slot] {
                Some(result) => Admission::Settled(result),
                None => Admission::Wait,
            },
            None => {
                let slot = self.held.len();
                self.held.push(None);
                index_set(&mut self.index, text, slot);
                proof {
                    self.log@ = self.log@.push(key@);
                    Self::lemma_other_slots_stay(*old(self), *self, key@, slot);
                    assert(self.entries() =~= old(self).entries());
                    assert(self.in_flight() =~= old(self).in_flight().insert(key@));
                }
                Admission::Execute
            },
        }
    }

    /// Settles the call under `key` with `outcome` unless it has settled
    /// before, and returns what every caller for `key` observes.
    pub fn record(&mut self, key: &CallKey, outcome: Result<V, AWSError>) -> (observed: &Result<
        V,
        AWSError,
    >)
        requires
            old(self).wf(),
        ensures
            final(self).wf(),
            Self::recorded(*old(self), key@, outcome, *observed, *final(self)),
    {
        let text = key.render();
        let slot = match index_peek(&self.index, text.as_str()) {
            Some(slot) => {
                if self.held[slot].is_none() {
                    self.held.set(slot, Some(outcome));
                }
                proof {
                    assert forall|other: KeyView| other != key@ implies #[trigger] self.slot_of(
                        other,
                    ) == old(self).slot_of(other) by {
                        if text_of(other) == text_of(key@) {
                            lemma_keys_have_distinct_text(other, key@);
                        }
                    }
                }
                slot
            },
            None => {
                let slot = self.held.len();
                self.held.push(Some(outcome));
                index_set(&mut self.index, text, slot);
                proof {
                    self.log@ = self.log@.push(key@);
                    Self::lemma_other_slots_stay(*old(self), *self, key@, slot);
                }
                slot
            },
        };
        proof {
            assert(self.entries() =~= settle(old(self).entries(), key@, outcome));
            assert(self.in_flight() =~= old(self).in_flight().remove(key@));
        }
        self.held[slot].as_ref().unwrap()
    }

    /// Answers the call under `key` from the cache, or runs `compute` and
    /// remembers what it returns. `compute` runs only when the key has not
    /// settled: for a settled key it need not even be callable. The cache's
    /// owner makes the call itself, so no call under the key may be in flight;
    /// callers that overlap go through `begin` and `record`.
    pub fn call<F: FnOnce() -> Result<V, AWSError>>(&mut self, key: &CallKey, compute: F) -> (observed:
        &Result<V, AWSError>)
        requires
            old(self).wf(),
            !old(self).in_flight().contains(key@),
            !old(self).entries().contains_key(key@) ==> compute.requires(()),
        ensures
            final(self).wf(),
            Self::answered(*old(self), key@, compute, *observed, *final(self)),
    {
        if self.lookup(key).is_some() {
            self.lookup(key).unwrap()
        } else {
            let outcome = compute();
            proof {
                assert(old(self).in_flight().remove(key@) =~= old(self).in_flight());
            }
            self.record(key, outcome)
        }
    }
}

/// Each key begins once: the log of executed calls holds no key twice, and it
/// holds exactly the keys that are settled or in flight, which no key is at
/// the same time.
pub proof fn lemma_each_key_begins_once<V>(cache: CallCache<V>)
    requires
        cache.wf(),
    ensures
        cache.begun().no_duplicates(),
        forall|key: KeyView|
            cache.begun().contains(key) <==> cache.entries().contains_key(key)
                || cache.in_flight().contains(key),
        forall|key: KeyView|
            !(cache.entries().contains_key(key) && cache.in_flight().contains(key)),
{
    assert forall|key: KeyView|
        cache.begun().contains(key) <==> cache.entries().contains_key(key)
            || cache.in_flight().contains(key) by {
        if cache.entries().contains_key(key) || cache.in_flight().contains(key) {
            let at = slots(cache.index)[text_of(key)] as int;
            lemma_keys_have_distinct_text(cache.begun()[at], key);
        }
        if cache.begun().contains(key) {
            let i = choose|i: int| 0 <= i < cache.begun().len() && cache.begun()[i] == key;
            assert(slots(cache.index).contains_key(text_of(cache.begun()[i])));
        }
    }
    assert forall|i: int, j: int|
        0 <= i < cache.begun().len() && 0 <= j < cache.begun().len() && i != j implies cache.begun()[i]
        != cache.begun()[j] by {
        assert(slots(cache.index)[text_of(cache.begun()[i])] == i);
        assert(slots(cache.index)[text_of(cache.begun()[j])] == j);
    }
}

/// Single flight: when callers ask one after another to make the call under
/// one key, the first is told to execute if and only if the key was unknown,
/// and no later caller is told to execute, however many ask. `caches` holds
/// the cache before each caller asks, and after the last.
pub proof fn lemma_single_flight<V>(
    caches: Seq<CallCache<V>>,
    key: KeyView,
    admissions: Seq<Admission<V>>,
)
    requires
        admissions.len() > 0,
        caches.len() == admissions.len() + 1,
        forall|i: int|
            0 <= i < admissions.len() ==> CallCache::asked(
                caches[i],
                key,
                #[trigger] admissions[i],
                caches[i + 1],
            ),
    ensures
        admissions[0] is Execute <==> caches[0].unknown(key),
        forall|i: int| 1 <= i < admissions.len() ==> !((#[trigger] admissions[i]) is Execute),
        forall|i: int| 1 <= i <= admissions.len() ==> !(#[trigger] caches[i]).unknown(key),
    decreases admissions.len(),
{
    assert(CallCache::asked(caches[0], key, admissions[0], caches[1]));
    if admissions.len() > 1 {
        let earlier = admissions.drop_last();
        let before = caches.drop_last();
        assert forall|i: int| 0 <= i < earlier.len() implies CallCache::asked(
            before[i],
            key,
            #[trigger] earlier[i],
            before[i + 1],
        ) by {
            assert(CallCache::asked(caches[i], key, admissions[i], caches[i + 1]));
        }
        lemma_single_flight(before, key, earlier);
        let last = admissions.len() - 1;
        assert(CallCache::asked(caches[last], key, admissions[last], caches[last + 1]));
        assert(!before[last].unknown(key));
        assert forall|i: int| 1 <= i < admissions.len() implies !((#[trigger] admissions[i])
            is Execute) by {
            if i < last {
                assert(!(earlier[i] is Execute));
            }
        }
        assert forall|i: int| 1 <= i <= admissions.len() implies !(#[trigger] caches[i]).unknown(
            key,
        ) by {
            if i <= last {
                assert(!before[i].unknown(key));
            }
        }
    }
}

/// A settled result stays: whoever asks, records or calls afterwards, under
/// whatever key, a settled key keeps its result. So all callers for one key
/// observe the same result.
pub proof fn lemma_settled_results_stay<V, F: FnOnce() -> Result<V, AWSError>>(
    before: CallCache<V>,
    after: CallCache<V>,
    settled: KeyView,
    key: KeyView,
    admission: Admission<V>,
    compute: F,
    outcome: Result<V, AWSError>,
    observed: Result<V, AWSError>,
)
    requires
        before.entries().contains_key(settled),
        CallCache::asked(before, key, admission, after) || CallCache::recorded(
            before,
            key,
            outcome,
            observed,
            after,
        ) || CallCache::answered(before, key, compute, observed, after),
    ensures
        after.entries().contains_key(settled),
        after.entries()[settled] == before.entries()[settled],
{
}

/// What a cache holds after the calls under one `key` settle with `outcomes`,
/// in that order.
pub open spec fn settle_all<K, R>(entries: Map<K, R>, key: K, outcomes: Seq<R>) -> Map<K, R>
    decreases outcomes.len(),
{
    if outcomes.len() == 0 {
        entries
    } else {
        settle(settle_all(entries, key, outcomes.drop_last()), key, outcomes.last())
    }
}

/// Memoization is idempotent: however many calls settle under one key, the
/// cache holds what it held after the first, and every caller observes the
/// same result, that of the first call to settle.
pub proof fn lemma_memoization_is_idempotent<K, R>(entries: Map<K, R>, key: K, outcomes: Seq<R>)
    requires
        outcomes.len() > 0,
    ensures
        settle_all(entries, key, outcomes) == settle(entries, key, outcomes[0]),
        forall|i: int|
            0 <= i < outcomes.len() ==> #[trigger] observe(
                settle_all(entries, key, outcomes.take(i)),
                key,
                outcomes[i],
            ) == observe(entries, key, outcomes[0]),
    decreases outcomes.len(),
{
    if outcomes.len() == 1 {
        assert(settle_all(entries, key, outcomes.drop_last()) == entries);
        assert(outcomes.take(0) =~= outcomes.drop_last());
    } else {
        let earlier = outcomes.drop_last();
        assert(earlier.len() == outcomes.len() - 1);
        lemma_memoization_is_idempotent(entries, key, earlier);
        assert(earlier[0] == outcomes[0]);
        assert(settle_all(entries, key, outcomes) == settle(
            settle_all(entries, key, earlier),
            key,
            outcomes.last(),
        ));
        assert forall|i: int| 0 <= i < outcomes.len() implies #[trigger] observe(
            settle_all(entries, key, outcomes.take(i)),
            key,
            outcomes[i],
        ) == observe(entries, key, outcomes[0]) by {
            if i < earlier.len() {
                assert(outcomes.take(i) =~= earlier.take(i));
                assert(outcomes[i] == earlier[i]);
            } else {
                assert(outcomes.take(i) =~= earlier);
            }
        }
    }
}

/// Calls under different keys do not disturb each other: settling one key
/// leaves what every other key holds, and whether it holds anything.
pub proof fn lemma_keys_are_independent<K, R>(entries: Map<K, R>, key: K, other: K, outcome: R)
    requires
        key != other,
    ensures
        settle(entries, key, outcome).contains_key(other) == entries.contains_key(other),
        entries.contains_key(other) ==> settle(entries, key, outcome)[other] == entries[other],
{
}

} // verus!
