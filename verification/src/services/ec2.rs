//! Compute instances and images: the instance listing, and the images that no
//! instance was launched from.

use crate::classifier::Operation;
use crate::common::AWSError;
use crate::memoizer::collection_key;
use crate::memoizer::CallCache;
use crate::memoizer::CallKey;
use crate::paginator::gathered;
use crate::paginator::halts;
use crate::paginator::items_of;
use crate::paginator::replay;
use crate::paginator::stands;
use crate::paginator::Answer;
use crate::paginator::Page;
use crate::paginator::Replay;
use crate::reporter::is_referenced;
use crate::reporter::references;
use crate::reporter::unused;
use crate::reporter::Keyed;
use vstd::prelude::*;

verus! {

/// A compute instance: the image it was launched from, where the provider
/// names one, and the provider's record of it.
#[derive(Debug, Clone, PartialEq, Eq)]
pub struct Instance<T> {
    pub image_id: Option<String>,
    pub record: T,
}

/// A group of instances launched together, as the provider lists them.
#[derive(Debug, Clone, PartialEq, Eq)]
pub struct Reservation<T> {
    pub instances: Vec<Instance<T>>,
}

/// A machine image, with the provider's record of it.
#[derive(Debug, Clone, PartialEq, Eq)]
pub struct Image<T> {
    pub image_id: String,
    pub record: T,
}

impl<T> Keyed for Image<T> {
    /// An image is found again by its id.
    open spec fn key_view(&self) -> Seq<char> {
        self.image_id@
    }

    fn key(&self) -> (k: &String) {
        &self.image_id
    }
}

/// The instances of some reservations, reservation after reservation.
pub open spec fn instances_of<T>(reservations: Seq<Reservation<T>>) -> Seq<Instance<T>> {
    reservations.map_values(|reservation: Reservation<T>| reservation.instances@).flatten()
}

/// The instances of an answer: those of its reservations, reservation after
/// reservation; a failure has none.
pub open spec fn instances_in<T>(answer: Answer<Reservation<T>>) -> Seq<Instance<T>> {
    match answer {
        Ok(page) => instances_of(page.items@),
        Err(_) => Seq::empty(),
    }
}

/// The instances of all `answers`, page after page.
pub open spec fn all_instances<T>(answers: Seq<Answer<Reservation<T>>>) -> Seq<Instance<T>> {
    answers.map_values(|answer: Answer<Reservation<T>>| instances_in(answer)).flatten()
}

/// A page of reservations as a page of their instances; a failure stays as it
/// is.
pub open spec fn unpacked<T>(answer: Answer<Reservation<T>>, flat: Answer<Instance<T>>) -> bool {
    match answer {
        Ok(page) => flat matches Ok(instances) && instances.items@ == instances_of(page.items@)
            && instances.next_token == page.next_token,
        Err(failure) => flat == Err::<Page<Instance<T>>, _>(failure),
    }
}

/// The instance names `id` as the image it was launched from.
pub open spec fn names_image<T>(instance: Instance<T>, id: Seq<char>) -> bool {
    instance.image_id matches Some(image) && image@ == id
}

/// Some instance of `instances` was launched from the image `id`.
pub open spec fn launched_from<T>(instances: Seq<Instance<T>>, id: Seq<char>) -> bool {
    exists|i: int| 0 <= i < instances.len() && names_image(#[trigger] instances[i], id)
}

/// The images that no instance was launched from, in the order of `images`.
pub open spec fn unused_amis_of<T, U>(instances: Seq<Instance<T>>, images: Seq<Image<U>>) -> Seq<
    Image<U>,
> {
    images.filter(|image: Image<U>| !launched_from(instances, image.image_id@))
}

/// Unpacks a page of reservations into a page of instances, in the
/// provider's order.
pub fn unpack<T>(answer: Answer<Reservation<T>>) -> (flat: Answer<Instance<T>>)
    ensures
        unpacked(answer, flat),
{
    match answer {
        Err(failure) => Err(failure),
        Ok(page) => {
            let Page { items: reservations, next_token } = page;
            let ghost all = reservations@;
            let ghost inner = |reservation: Reservation<T>| reservation.instances@;
            let mut instances: Vec<Instance<T>> = Vec::new();
            assert(all.take(0).map_values(inner) =~= Seq::<Seq<Instance<T>>>::empty());
            for reservation in it: reservations
                invariant
                    it.seq() == all,
                    inner == |reservation: Reservation<T>| reservation.instances@,
                    instances@ == all.take(it.index() as int).map_values(inner).flatten(),
            {
                proof {
                    let before = all.take(it.index() as int).map_values(inner);
                    before.lemma_flatten_push(inner(reservation));
                    assert(all.take(it.index() + 1).map_values(inner) =~= before.push(
                        inner(reservation),
                    ));
                }
                let Reservation { instances: mut launched } = reservation;
                instances.append(&mut launched);
            }
            assert(all.take(all.len() as int) =~= all);
            Ok(Page { items: instances, next_token })
        },
    }
}

/// Runs the instance listing over the provider's answers, given in the order
/// in which it gave them: it takes the answers up to the first that halts it,
/// one request per answer, and holds the instances of all pages it took, in
/// the provider's order.
pub fn list_instances<T>(answers: Vec<Answer<Reservation<T>>>) -> (run: Replay<Instance<T>>)
    ensures
        stands(
            Operation::DescribeInstances,
            answers@,
            all_instances(answers@.take(run.calls as int)),
            run,
        ),
{
    let ghost all = answers@;
    let ghost inner = |answer: Answer<Reservation<T>>| instances_in(answer);
    let ghost plain = |answer: Answer<Instance<T>>| items_of(answer);
    let mut flat: Vec<Answer<Instance<T>>> = Vec::new();
    for answer in it: answers
        invariant
            it.seq() == all,
            flat@.len() == it.index(),
            forall|i: int| 0 <= i < flat@.len() ==> unpacked(all[i], #[trigger] flat@[i]),
    {
        flat.push(unpack(answer));
    }
    let ghost pages = flat@;
    let run = replay(Operation::DescribeInstances, flat);
    proof {
        let calls = run.calls as int;
        assert forall|i: int| 0 <= i < all.len() implies halts(#[trigger] all[i]) == halts(
            pages[i],
        ) by {
            assert(unpacked(all[i], pages[i]));
        }
        assert(pages.take(calls).map_values(plain) =~= all.take(calls).map_values(inner)) by {
            assert forall|i: int| 0 <= i < calls implies plain(pages[i]) == inner(all[i]) by {
                assert(unpacked(all[i], pages[i]));
            }
        }
        assert(gathered(pages.take(calls)) == all_instances(all.take(calls)));
        if calls > 0 {
            assert(unpacked(all[calls - 1], pages[calls - 1]));
        }
    }
    run
}

/// The image listing, remembered under one fixed key: `fetch` runs only if
/// the listing has not settled in `cache`.
pub fn list_amis<U, F: FnOnce() -> Result<Vec<Image<U>>, AWSError>>(
    cache: &mut CallCache<Vec<Image<U>>>,
    fetch: F,
) -> (listing: &Result<Vec<Image<U>>, AWSError>)
    requires
        old(cache).wf(),
        !old(cache).in_flight().contains(collection_key(Operation::DescribeImages)),
        !old(cache).entries().contains_key(collection_key(Operation::DescribeImages)) ==> fetch.requires(()),
    ensures
        final(cache).wf(),
        CallCache::answered(
            *old(cache),
            collection_key(Operation::DescribeImages),
            fetch,
            *listing,
            *final(cache),
        ),
{
    cache.call(&CallKey::collection(Operation::DescribeImages), fetch)
}

/// The ids of the images that the instances were launched from: each id
/// once, and no other id. An instance without an image id adds none.
pub fn get_ami_ids_from_instances<T>(instances: &Vec<Instance<T>>) -> (ids: Vec<String>)
    ensures
        forall|id: Seq<char>|
            #![trigger is_referenced(ids@, id)]
            #![trigger launched_from(instances@, id)]
            is_referenced(ids@, id) <==> launched_from(instances@, id),
        forall|i: int, j: int|
            0 <= i < j < ids@.len() ==> (#[trigger] ids@[i])@ != (#[trigger] ids@[j])@,
{
    let mut ids: Vec<String> = Vec::new();
    let mut at: usize = 0;
    while at < instances.len()
        invariant
            at <= instances.len(),
            forall|id: Seq<char>|
                #![trigger is_referenced(ids@, id)]
                #![trigger launched_from(instances@.take(at as int), id)]
                is_referenced(ids@, id) <==> launched_from(instances@.take(at as int), id),
            forall|i: int, j: int|
                0 <= i < j < ids@.len() ==> (#[trigger] ids@[i])@ != (#[trigger] ids@[j])@,
        decreases instances.len() - at,
    {
        let ghost before = ids@;
        let ghost seen = instances@.take(at as int);
        let ghost next = instances@.take(at + 1);
        let mut fresh = false;
        match &instances[at].image_id {
            Some(image) => {
                if !references(&ids, image) {
                    ids.push(image.clone());
                    fresh = true;
                }
            },
            None => {},
        }
        proof {
            assert(next.drop_last() =~= seen);
            assert(next.last() == instances@[at as int]);
            assert forall|id: Seq<char>|
                #![trigger is_referenced(ids@, id)]
                #![trigger launched_from(next, id)]
                is_referenced(ids@, id) <==> launched_from(next, id) by {
                assert(is_referenced(before, id) <==> launched_from(seen, id));
                if launched_from(next, id) {
                    let i = choose|i: int|
                        0 <= i < next.len() && names_image(#[trigger] next[i], id);
                    if i < at {
                        assert(seen[i] == next[i]);
                        assert(launched_from(seen, id));
                        let j = choose|j: int|
                            0 <= j < before.len() && (#[trigger] before[j]).key_view() == id;
                        assert(ids@[j] == before[j]);
                    } else if fresh {
                        assert(ids@[ids@.len() - 1].key_view() == id);
                    }
                }
                if is_referenced(ids@, id) {
                    let j = choose|j: int|
                        0 <= j < ids@.len() && (#[trigger] ids@[j]).key_view() == id;
                    if j < before.len() {
                        assert(before[j] == ids@[j]);
                        assert(is_referenced(before, id));
                        let i = choose|i: int|
                            0 <= i < seen.len() && names_image(#[trigger] seen[i], id);
                        assert(next[i] == seen[i]);
                    } else {
                        assert(names_image(next[at as int], id));
                    }
                }
            }
        }
        at = at + 1;
    }
    assert(instances@.take(instances.len() as int) =~= instances@);
    ids
}

/// The images that no instance was launched from: every image of `images`
/// whose id no instance of `instances` names, and no other, in the order of
/// `images`. Without instances, every image is unused.
pub fn get_unused_amis<T, U>(instances: &Vec<Instance<T>>, images: Vec<Image<U>>) -> (spare: Vec<
    Image<U>,
>)
    ensures
        spare@ == unused_amis_of(instances@, images@),
{
    let used = get_ami_ids_from_instances(instances);
    let ghost by_ids = |image: Image<U>| !is_referenced(used@, image.key_view());
    let ghost by_instances = |image: Image<U>| !launched_from(instances@, image.image_id@);
    assert(by_ids =~= by_instances);
    unused(images, &used)
}

/// An image is reported as unused if and only if it is listed and no
/// instance names it; so without instances every image is unused.
pub proof fn lemma_unused_amis_are_the_unlaunched<T, U>(
    instances: Seq<Instance<T>>,
    images: Seq<Image<U>>,
    image: Image<U>,
)
    ensures
        unused_amis_of(instances, images).contains(image) <==> images.contains(image)
            && !launched_from(instances, image.image_id@),
        instances.len() == 0 ==> unused_amis_of(instances, images) == images,
{
    let spare_of = |image: Image<U>| !launched_from(instances, image.image_id@);
    let spare = images.filter(spare_of);
    if images.contains(image) && spare_of(image) {
        let i = choose|i: int| 0 <= i < images.len() && images[i] == image;
        images.lemma_filter_contains(spare_of, i);
    }
    if spare.contains(image) {
        let i = choose|i: int| 0 <= i < spare.len() && spare[i] == image;
        images.lemma_filter_pred(spare_of, i);
        images.lemma_filter_contains_rev(spare_of, image);
    }
    if instances.len() == 0 {
        lemma_all_kept(images, spare_of);
    }
}

/// A filter that keeps every item keeps the sequence.
proof fn lemma_all_kept<A>(items: Seq<A>, keep: spec_fn(A) -> bool)
    requires
        forall|i: int| 0 <= i < items.len() ==> keep(#[trigger] items[i]),
    ensures
        items.filter(keep) == items,
    decreases items.len(),
{
    reveal(Seq::filter);
    if items.len() > 0 {
        lemma_all_kept(items.drop_last(), keep);
        assert(items.drop_last().push(items.last()) =~= items);
    }
}

} // verus!
