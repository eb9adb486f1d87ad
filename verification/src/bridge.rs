//! The settling rule of the synchronous storage bridge.
//!
//! The backend's asynchronous get/put/delete primitives run outside the
//! library; the interaction thread blocks on exactly one outstanding call at
//! a time and the bridge enforces a configurable time bound on it.  What the
//! library owns is the settling decision: a call with no answer within the
//! bound is a timeout — distinct from a missing page or a transport failure
//! — and an answered call stands exactly as answered.  No call is retried on
//! its own; a retry is a fresh user intent.

use crate::errors::StorageError;
use vstd::prelude::*;

verus! {

/// Settles one awaited call: `completion` is the call's own outcome where it
/// finished within the bridge's bound, and `None` where the bound elapsed
/// first.
pub fn settle<T>(completion: Option<Result<T, StorageError>>) -> (r: Result<T, StorageError>)
    ensures
        match completion {
            Some(outcome) => r == outcome,
            None => (r matches Err(e) && e == StorageError::Timeout),
        },
{
    match completion {
        Some(outcome) => outcome,
        None => Err(StorageError::Timeout),
    }
}

} // verus!
