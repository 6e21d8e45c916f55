//! The set-difference reporter: what is held but not referenced.
//!
//! Given a baseline collection and a collection of references, both fully
//! listed, the unused items are the baseline items whose key no reference
//! carries. Keys are compared as whole strings. Nothing is presumed used:
//! without references every baseline item is unused.

use vstd::prelude::*;

verus! {

/// Something that is found again by a key.
pub trait Keyed {
    /// The key, as text.
    spec fn key_view(&self) -> Seq<char>;

    /// The key.
    fn key(&self) -> (k: &String)
        ensures
            k@ == self.key_view(),
    ;
}

impl Keyed for String {
    open spec fn key_view(&self) -> Seq<char> {
        self@
    }

    fn key(&self) -> (k: &String) {
        self
    }
}

/// Whether some item of `referenced` carries `key`.
pub open spec fn is_referenced<B: Keyed>(referenced: Seq<B>, key: Seq<char>) -> bool {
    exists|j: int| 0 <= j < referenced.len() && (#[trigger] referenced[j]).key_view() == key
}

/// The items of `baseline` whose key no item of `referenced` carries, in the
/// order of `baseline`.
pub open spec fn unused_of<A: Keyed, B: Keyed>(baseline: Seq<A>, referenced: Seq<B>) -> Seq<A> {
    baseline.filter(|item: A| !is_referenced(referenced, item.key_view()))
}

/// Whether some item of `referenced` carries `key`.
pub fn references<B: Keyed>(referenced: &Vec<B>, key: &String) -> (found: bool)
    ensures
        found == is_referenced(referenced@, key@),
{
    let mut j: usize = 0;
    while j < referenced.len()
        invariant
            j <= referenced.len(),
            forall|i: int| 0 <= i < j ==> (#[trigger] referenced@[i]).key_view() != key@,
        decreases referenced.len() - j,
    {
        if *referenced[j].key() == *key {
            return true;
        }
        j = j + 1;
    }
    false
}

/// The unused items: every item of `baseline` whose key is absent from the
/// keys of `referenced`, and no other, in the order of `baseline`.
pub fn unused<A: Keyed, B: Keyed>(baseline: Vec<A>, referenced: &Vec<B>) -> (spare: Vec<A>)
    ensures
        spare@ == unused_of(baseline@, referenced@),
{
    let ghost all = baseline@;
    let ghost free = |item: A| !is_referenced(referenced@, item.key_view());
    let mut spare: Vec<A> = Vec::new();
    proof {
        reveal(Seq::filter);
        assert(all.take(0).filter(free) =~= Seq::<A>::empty());
    }
    for item in it: baseline
        invariant
            it.seq() == all,
            free == |item: A| !is_referenced(referenced@, item.key_view()),
            spare@ == all.take(it.index() as int).filter(free),
    {
        proof {
            reveal(Seq::filter);
            let next = all.take(it.index() + 1);
            assert(next.drop_last() =~= all.take(it.index() as int));
            assert(next.last() == item);
        }
        if !references(referenced, item.key()) {
            spare.push(item);
        }
    }
    assert(all.take(all.len() as int) =~= all);
    spare
}

/// Without references, everything is unused.
pub proof fn lemma_nothing_referenced_all_unused<A: Keyed, B: Keyed>(
    baseline: Seq<A>,
    referenced: Seq<B>,
)
    requires
        referenced.len() == 0,
    ensures
        unused_of(baseline, referenced) == baseline,
    decreases baseline.len(),
{
    reveal(Seq::filter);
    if baseline.len() > 0 {
        lemma_nothing_referenced_all_unused(baseline.drop_last(), referenced);
        assert(baseline.drop_last().push(baseline.last()) =~= baseline);
    }
}

/// Of an empty baseline, nothing is unused.
pub proof fn lemma_empty_baseline_nothing_unused<A: Keyed, B: Keyed>(
    baseline: Seq<A>,
    referenced: Seq<B>,
)
    requires
        baseline.len() == 0,
    ensures
        unused_of(baseline, referenced).len() == 0,
{
    reveal(Seq::filter);
}

/// The unused items are exactly the unreferenced baseline items: an item is
/// reported if and only if it is in the baseline and no reference carries its
/// key.
pub proof fn lemma_unused_is_the_difference<A: Keyed, B: Keyed>(
    baseline: Seq<A>,
    referenced: Seq<B>,
    item: A,
)
    ensures
        unused_of(baseline, referenced).contains(item) <==> baseline.contains(item)
            && !is_referenced(referenced, item.key_view()),
{
    let free = |item: A| !is_referenced(referenced, item.key_view());
    let spare = baseline.filter(free);
    if baseline.contains(item) && free(item) {
        let i = choose|i: int| 0 <= i < baseline.len() && baseline[i] == item;
        baseline.lemma_filter_contains(free, i);
    }
    if spare.contains(item) {
        let i = choose|i: int| 0 <= i < spare.len() && spare[i] == item;
        baseline.lemma_filter_pred(free, i);
        baseline.lemma_filter_contains_rev(free, item);
    }
}

} // verus!
