//! Identity principals: the inline policy of every user.

use crate::aggregator::collect_details;
use crate::aggregator::swept;
use crate::aggregator::Answered;
use crate::aggregator::Attached;
use crate::classifier::resolve;
use crate::classifier::resolved;
use crate::classifier::Detail;
use crate::classifier::Operation;
use crate::classifier::ProviderFailure;
use crate::common::AWSError;
use crate::memoizer::collection_key;
use crate::memoizer::CallCache;
use crate::memoizer::CallKey;
use vstd::prelude::*;

verus! {

/// The user listing, remembered under one fixed key: `fetch` runs only if the
/// listing has not settled in `cache`.
pub fn list_users<F: FnOnce() -> Result<Vec<String>, AWSError>>(
    cache: &mut CallCache<Vec<String>>,
    fetch: F,
) -> (listing: &Result<Vec<String>, AWSError>)
    requires
        old(cache).wf(),
        !old(cache).in_flight().contains(collection_key(Operation::ListUsers)),
        !old(cache).entries().contains_key(collection_key(Operation::ListUsers)) ==> fetch.requires(()),
    ensures
        final(cache).wf(),
        CallCache::answered(
            *old(cache),
            collection_key(Operation::ListUsers),
            fetch,
            *listing,
            *final(cache),
        ),
{
    cache.call(&CallKey::collection(Operation::ListUsers), fetch)
}

/// The inline policy of one user; absent where the user has none.
pub fn get_user_policy<P>(outcome: Result<P, ProviderFailure>) -> (r: Result<Detail<P>, AWSError>)
    ensures
        resolved(Operation::GetUserPolicy, outcome, r),
{
    resolve(Operation::GetUserPolicy, outcome)
}

/// The inline policy of every user, in the order of the listing; absent for a
/// user without one.
pub fn list_user_policies<P>(answers: Vec<Answered<P>>) -> (r: Result<Vec<Attached<P>>, AWSError>)
    ensures
        swept(Operation::GetUserPolicy, answers@, r),
{
    collect_details(Operation::GetUserPolicy, answers)
}

} // verus!
