//! The caller's identity.

use crate::classifier::Operation;
use crate::common::AWSError;
use crate::memoizer::collection_key;
use crate::memoizer::CallCache;
use crate::memoizer::CallKey;
use vstd::prelude::*;

verus! {

/// The caller's identity, remembered under one fixed key: `fetch` runs only
/// if the identity has not settled in `cache`.
pub fn get_identity<I, F: FnOnce() -> Result<I, AWSError>>(cache: &mut CallCache<I>, fetch: F) -> (identity:
    &Result<I, AWSError>)
    requires
        old(cache).wf(),
        !old(cache).in_flight().contains(collection_key(Operation::GetCallerIdentity)),
        !old(cache).entries().contains_key(collection_key(Operation::GetCallerIdentity)) ==> fetch.requires(()),
    ensures
        final(cache).wf(),
        CallCache::answered(
            *old(cache),
            collection_key(Operation::GetCallerIdentity),
            fetch,
            *identity,
            *final(cache),
        ),
{
    cache.call(&CallKey::collection(Operation::GetCallerIdentity), fetch)
}

} // verus!
