//! Storage buckets: one detail per bucket across all buckets, and the full
//! profile of each bucket.

use crate::aggregator::collect_details;
use crate::aggregator::swept;
use crate::aggregator::Answered;
use crate::aggregator::Attached;
use crate::classifier::aborts;
use crate::classifier::detail_of;
use crate::classifier::resolve;
use crate::classifier::resolved;
use crate::classifier::Detail;
use crate::classifier::Operation;
use crate::classifier::ProviderFailure;
use crate::common::AWSError;
use crate::memoizer::collection_key;
use crate::memoizer::CallCache;
use crate::memoizer::CallKey;
use vstd::prelude::*;

verus! {

/// The full profile of one bucket.
#[derive(Debug, Clone, PartialEq, Eq)]
pub struct Bucket<V, L, A, P, C> {
    pub name: String,
    pub versioning: Detail<V>,
    pub logging: Detail<L>,
    pub acl: Detail<A>,
    pub policy: Detail<P>,
    pub lifecycle: Detail<C>,
}

/// The provider's answers to the five detail calls for one bucket.
#[derive(Debug, PartialEq, Eq)]
pub struct BucketAnswers<V, L, A, P, C> {
    pub name: String,
    pub acl: Result<A, ProviderFailure>,
    pub policy: Result<P, ProviderFailure>,
    pub logging: Result<L, ProviderFailure>,
    pub versioning: Result<V, ProviderFailure>,
    pub lifecycle: Result<C, ProviderFailure>,
}

/// The failure that voids a bucket's profile: the call and the message of the
/// first aborting answer in the order acl, policy, logging, versioning,
/// lifecycle. None when no answer aborts.
pub open spec fn profile_failure<V, L, A, P, C>(answers: BucketAnswers<V, L, A, P, C>) -> Option<
    (Operation, String),
> {
    if aborts(Operation::GetBucketAcl, answers.acl) {
        Some((Operation::GetBucketAcl, answers.acl->Err_0.message))
    } else if aborts(Operation::GetBucketPolicy, answers.policy) {
        Some((Operation::GetBucketPolicy, answers.policy->Err_0.message))
    } else if aborts(Operation::GetBucketLogging, answers.logging) {
        Some((Operation::GetBucketLogging, answers.logging->Err_0.message))
    } else if aborts(Operation::GetBucketVersioning, answers.versioning) {
        Some((Operation::GetBucketVersioning, answers.versioning->Err_0.message))
    } else if aborts(Operation::GetBucketLifecycleConfiguration, answers.lifecycle) {
        Some((Operation::GetBucketLifecycleConfiguration, answers.lifecycle->Err_0.message))
    } else {
        None
    }
}

/// The error is that of the failure that voids the bucket's profile: it
/// carries the failure's message and names the call and the bucket.
pub open spec fn voided_by<V, L, A, P, C>(
    answers: BucketAnswers<V, L, A, P, C>,
    error: AWSError,
) -> bool {
    profile_failure(answers) matches Some(failure) && error.reports(
        failure.1,
        Some(failure.0),
        Some(answers.name),
    )
}

/// The profile that five answers make when none of them aborts.
pub open spec fn profile_of<V, L, A, P, C>(answers: BucketAnswers<V, L, A, P, C>) -> Bucket<
    V,
    L,
    A,
    P,
    C,
> {
    Bucket {
        name: answers.name,
        versioning: detail_of(Operation::GetBucketVersioning, answers.versioning)->Some_0,
        logging: detail_of(Operation::GetBucketLogging, answers.logging)->Some_0,
        acl: detail_of(Operation::GetBucketAcl, answers.acl)->Some_0,
        policy: detail_of(Operation::GetBucketPolicy, answers.policy)->Some_0,
        lifecycle: detail_of(Operation::GetBucketLifecycleConfiguration, answers.lifecycle)->Some_0,
    }
}

/// What five answers make of one bucket: its whole profile, or the error of
/// the first answer that aborts. There is no profile with a part missing.
pub open spec fn profiled<V, L, A, P, C>(
    answers: BucketAnswers<V, L, A, P, C>,
    r: Result<Bucket<V, L, A, P, C>, AWSError>,
) -> bool {
    match profile_failure(answers) {
        Some(_) => r matches Err(error) && voided_by(answers, error),
        None => r == Ok::<Bucket<V, L, A, P, C>, AWSError>(profile_of(answers)),
    }
}

/// The bucket at `at` is the first whose profile is voided.
pub open spec fn first_voided<V, L, A, P, C>(
    answers: Seq<BucketAnswers<V, L, A, P, C>>,
    at: int,
) -> bool {
    &&& 0 <= at < answers.len()
    &&& profile_failure(answers[at]) is Some
    &&& forall|i: int| 0 <= i < at ==> profile_failure(#[trigger] answers[i]) is None
}

/// What the answers for all buckets make: every bucket's profile, in the
/// order of the listing, or the error of the first bucket whose profile is
/// voided.
pub open spec fn all_profiled<V, L, A, P, C>(
    answers: Seq<BucketAnswers<V, L, A, P, C>>,
    r: Result<Vec<Bucket<V, L, A, P, C>>, AWSError>,
) -> bool {
    match r {
        Ok(buckets) => {
            &&& forall|i: int|
                0 <= i < answers.len() ==> profile_failure(#[trigger] answers[i]) is None
            &&& buckets@ == answers.map_values(
                |one: BucketAnswers<V, L, A, P, C>| profile_of(one),
            )
        },
        Err(error) => exists|at: int|
            {
                &&& #[trigger] first_voided(answers, at)
                &&& voided_by(answers[at], error)
            },
    }
}

/// The detail calls that make up one bucket's profile, in the order in which
/// their answers are joined. All of them are issued for every bucket.
pub fn profile_operations() -> (operations: Vec<Operation>)
    ensures
        operations@ == seq![
            Operation::GetBucketAcl,
            Operation::GetBucketPolicy,
            Operation::GetBucketLogging,
            Operation::GetBucketVersioning,
            Operation::GetBucketLifecycleConfiguration,
        ],
{
    let mut operations: Vec<Operation> = Vec::new();
    operations.push(Operation::GetBucketAcl);
    operations.push(Operation::GetBucketPolicy);
    operations.push(Operation::GetBucketLogging);
    operations.push(Operation::GetBucketVersioning);
    operations.push(Operation::GetBucketLifecycleConfiguration);
    assert(operations@ =~= seq![
        Operation::GetBucketAcl,
        Operation::GetBucketPolicy,
        Operation::GetBucketLogging,
        Operation::GetBucketVersioning,
        Operation::GetBucketLifecycleConfiguration,
    ]);
    operations
}

/// The bucket listing, remembered under one fixed key: `fetch` runs only if
/// the listing has not settled in `cache`.
pub fn list_buckets<F: FnOnce() -> Result<Vec<String>, AWSError>>(
    cache: &mut CallCache<Vec<String>>,
    fetch: F,
) -> (listing: &Result<Vec<String>, AWSError>)
    requires
        old(cache).wf(),
        !old(cache).in_flight().contains(collection_key(Operation::ListBuckets)),
        !old(cache).entries().contains_key(collection_key(Operation::ListBuckets)) ==> fetch.requires(()),
    ensures
        final(cache).wf(),
        CallCache::answered(
            *old(cache),
            collection_key(Operation::ListBuckets),
            fetch,
            *listing,
            *final(cache),
        ),
{
    cache.call(&CallKey::collection(Operation::ListBuckets), fetch)
}

/// The versioning state of one bucket. No failure of this call is benign.
pub fn get_bucket_versioning<V>(outcome: Result<V, ProviderFailure>) -> (r: Result<
    Detail<V>,
    AWSError,
>)
    ensures
        resolved(Operation::GetBucketVersioning, outcome, r),
{
    resolve(Operation::GetBucketVersioning, outcome)
}

/// The access control list of one bucket. No failure of this call is benign.
pub fn get_bucket_acl<A>(outcome: Result<A, ProviderFailure>) -> (r: Result<Detail<A>, AWSError>)
    ensures
        resolved(Operation::GetBucketAcl, outcome, r),
{
    resolve(Operation::GetBucketAcl, outcome)
}

/// The policy of one bucket; absent where the bucket has none.
pub fn get_bucket_policy<P>(outcome: Result<P, ProviderFailure>) -> (r: Result<Detail<P>, AWSError>)
    ensures
        resolved(Operation::GetBucketPolicy, outcome, r),
{
    resolve(Operation::GetBucketPolicy, outcome)
}

/// The logging configuration of one bucket. No failure of this call is
/// benign.
pub fn get_bucket_logging<L>(outcome: Result<L, ProviderFailure>) -> (r: Result<
    Detail<L>,
    AWSError,
>)
    ensures
        resolved(Operation::GetBucketLogging, outcome, r),
{
    resolve(Operation::GetBucketLogging, outcome)
}

/// The lifecycle rules of one bucket; absent where the bucket has none.
pub fn get_bucket_lifecycle_configuration<C>(outcome: Result<C, ProviderFailure>) -> (r: Result<
    Detail<C>,
    AWSError,
>)
    ensures
        resolved(Operation::GetBucketLifecycleConfiguration, outcome, r),
{
    resolve(Operation::GetBucketLifecycleConfiguration, outcome)
}

/// The versioning state of every bucket, in the order of the listing.
pub fn list_buckets_versioning<V>(answers: Vec<Answered<V>>) -> (r: Result<
    Vec<Attached<V>>,
    AWSError,
>)
    ensures
        swept(Operation::GetBucketVersioning, answers@, r),
{
    collect_details(Operation::GetBucketVersioning, answers)
}

/// The access control list of every bucket, in the order of the listing.
pub fn list_bucket_acls<A>(answers: Vec<Answered<A>>) -> (r: Result<Vec<Attached<A>>, AWSError>)
    ensures
        swept(Operation::GetBucketAcl, answers@, r),
{
    collect_details(Operation::GetBucketAcl, answers)
}

/// The policy of every bucket, in the order of the listing; absent for a
/// bucket without one.
pub fn list_bucket_polices<P>(answers: Vec<Answered<P>>) -> (r: Result<Vec<Attached<P>>, AWSError>)
    ensures
        swept(Operation::GetBucketPolicy, answers@, r),
{
    collect_details(Operation::GetBucketPolicy, answers)
}

/// The logging configuration of every bucket, in the order of the listing.
pub fn list_buckets_logging<L>(answers: Vec<Answered<L>>) -> (r: Result<Vec<Attached<L>>, AWSError>)
    ensures
        swept(Operation::GetBucketLogging, answers@, r),
{
    collect_details(Operation::GetBucketLogging, answers)
}

/// The lifecycle rules of every bucket, in the order of the listing; absent
/// for a bucket without any.
pub fn list_buckets_lifecycle_configuration<C>(answers: Vec<Answered<C>>) -> (r: Result<
    Vec<Attached<C>>,
    AWSError,
>)
    ensures
        swept(Operation::GetBucketLifecycleConfiguration, answers@, r),
{
    collect_details(Operation::GetBucketLifecycleConfiguration, answers)
}

/// Joins the answers to the five detail calls for one bucket into its
/// profile. All five answers are taken; if any aborts, no profile is built.
pub fn get_bucket_info<V, L, A, P, C>(answers: BucketAnswers<V, L, A, P, C>) -> (r: Result<
    Bucket<V, L, A, P, C>,
    AWSError,
>)
    ensures
        profiled(answers, r),
{
    let BucketAnswers { name, acl, policy, logging, versioning, lifecycle } = answers;
    let acl = get_bucket_acl(acl);
    let policy = get_bucket_policy(policy);
    let logging = get_bucket_logging(logging);
    let versioning = get_bucket_versioning(versioning);
    let lifecycle = get_bucket_lifecycle_configuration(lifecycle);
    let acl = match acl {
        Ok(detail) => detail,
        Err(error) => {
            return Err(error.about(name));
        },
    };
    let policy = match policy {
        Ok(detail) => detail,
        Err(error) => {
            return Err(error.about(name));
        },
    };
    let logging = match logging {
        Ok(detail) => detail,
        Err(error) => {
            return Err(error.about(name));
        },
    };
    let versioning = match versioning {
        Ok(detail) => detail,
        Err(error) => {
            return Err(error.about(name));
        },
    };
    let lifecycle = match lifecycle {
        Ok(detail) => detail,
        Err(error) => {
            return Err(error.about(name));
        },
    };
    Ok(Bucket { name, versioning, logging, acl, policy, lifecycle })
}

/// The profile of every bucket, in the order of the listing.
pub fn list_buckets_info<V, L, A, P, C>(answers: Vec<BucketAnswers<V, L, A, P, C>>) -> (r: Result<
    Vec<Bucket<V, L, A, P, C>>,
    AWSError,
>)
    ensures
        all_profiled(answers@, r),
{
    let ghost all = answers@;
    let ghost profile = |one: BucketAnswers<V, L, A, P, C>| profile_of(one);
    let mut buckets: Vec<Bucket<V, L, A, P, C>> = Vec::new();
    for one in it: answers
        invariant
            it.seq() == all,
            profile == |one: BucketAnswers<V, L, A, P, C>| profile_of(one),
            forall|i: int| 0 <= i < it.index() ==> profile_failure(#[trigger] all[i]) is None,
            buckets@ == all.take(it.index() as int).map_values(profile),
    {
        proof {
            assert(all.take(it.index() + 1).map_values(profile) =~= all.take(
                it.index() as int,
            ).map_values(profile).push(profile(one)));
        }
        match get_bucket_info(one) {
            Ok(bucket) => {
                buckets.push(bucket);
            },
            Err(error) => {
                assert(first_voided(all, it.index() as int));
                return Err(error);
            },
        }
    }
    assert(all.take(all.len() as int) =~= all);
    Ok(buckets)
}

/// The error of a voided report is that of the first bucket whose profile is
/// voided: no later bucket changes it.
pub proof fn lemma_first_voided_decides<V, L, A, P, C>(
    answers: Seq<BucketAnswers<V, L, A, P, C>>,
    r: Result<Vec<Bucket<V, L, A, P, C>>, AWSError>,
    at: int,
)
    requires
        all_profiled(answers, r),
        first_voided(answers, at),
    ensures
        r matches Err(error) && voided_by(answers[at], error),
{
    if r is Err {
        let found = choose|found: int|
            {
                &&& #[trigger] first_voided(answers, found)
                &&& voided_by(answers[found], r->Err_0)
            };
        if found < at {
            assert(profile_failure(answers[found]) is None);
        }
        if at < found {
            assert(profile_failure(answers[at]) is None);
        }
    }
}

/// One failing detail call voids a bucket's profile, whatever the other four
/// answer.
pub proof fn lemma_one_failure_voids_the_profile<V, L, A, P, C>(
    answers: BucketAnswers<V, L, A, P, C>,
    r: Result<Bucket<V, L, A, P, C>, AWSError>,
)
    requires
        profiled(answers, r),
        aborts(Operation::GetBucketAcl, answers.acl) || aborts(
            Operation::GetBucketPolicy,
            answers.policy,
        ) || aborts(Operation::GetBucketLogging, answers.logging) || aborts(
            Operation::GetBucketVersioning,
            answers.versioning,
        ) || aborts(Operation::GetBucketLifecycleConfiguration, answers.lifecycle),
    ensures
        r is Err,
{
}

/// A bucket without policy or lifecycle rules still has a whole profile:
/// the two are absent in it, and what the provider returned is present.
pub proof fn lemma_unconfigured_is_no_failure<V, L, A, P, C>(
    answers: BucketAnswers<V, L, A, P, C>,
    r: Result<Bucket<V, L, A, P, C>, AWSError>,
)
    requires
        profiled(answers, r),
        answers.acl is Ok,
        answers.logging is Ok,
        answers.versioning is Ok,
        answers.policy is Ok || crate::classifier::is_benign(
            Operation::GetBucketPolicy,
            answers.policy->Err_0,
        ),
        answers.lifecycle is Ok || crate::classifier::is_benign(
            Operation::GetBucketLifecycleConfiguration,
            answers.lifecycle->Err_0,
        ),
    ensures
        r matches Ok(bucket) && {
            &&& bucket.name == answers.name
            &&& bucket.acl == Detail::Present(answers.acl->Ok_0)
            &&& bucket.logging == Detail::Present(answers.logging->Ok_0)
            &&& bucket.versioning == Detail::Present(answers.versioning->Ok_0)
            &&& bucket.policy is Absent <==> answers.policy is Err
            &&& bucket.lifecycle is Absent <==> answers.lifecycle is Err
        },
{
}

} // verus!
