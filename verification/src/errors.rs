//! Error taxonomy of the library.

use vstd::prelude::*;

verus! {

/// Which required field a rejected submission lacked.
#[derive(Clone, Copy, Debug, PartialEq, Eq, Structural)]
pub enum MissingField {
    Content,
    Title,
}

/// Failure reported by the storage backend for a single bridge call.
#[derive(Clone, Copy, Debug, PartialEq, Eq, Structural)]
pub enum StorageError {
    /// No page exists at the requested address.
    NotFound,
    /// The transport layer failed before an answer arrived.
    Transport,
    /// An answer arrived but its payload could not be decoded.
    Decode,
    /// The configured time bound elapsed before an answer arrived.
    Timeout,
}

/// Every error the library surfaces to its caller.
#[derive(Clone, Copy, Debug, PartialEq, Eq, Structural)]
pub enum WikiError {
    /// A page URL did not have the canonical scheme, depth or charset.
    MalformedAddress,
    /// No page exists at the requested address.
    NotFound,
    /// The transport layer failed before an answer arrived.
    TransportError,
    /// The configured time bound elapsed before an answer arrived.
    Timeout,
    /// A submission lacked a required field.
    ValidationError { missing: MissingField },
    /// Another mutation of the same address is still in flight.
    ConcurrentMutationBlocked,
}

/// Lifts a backend failure into the library's taxonomy.  A payload that could
/// not be decoded counts as a transport failure at this level.
pub fn storage_to_wiki(e: StorageError) -> (r: WikiError)
    ensures
        r == storage_to_wiki_spec(e),
{
    match e {
        StorageError::NotFound => WikiError::NotFound,
        StorageError::Transport => WikiError::TransportError,
        StorageError::Decode => WikiError::TransportError,
        StorageError::Timeout => WikiError::Timeout,
    }
}

pub open spec fn storage_to_wiki_spec(e: StorageError) -> WikiError {
    match e {
        StorageError::NotFound => WikiError::NotFound,
        StorageError::Transport => WikiError::TransportError,
        StorageError::Decode => WikiError::TransportError,
        StorageError::Timeout => WikiError::Timeout,
    }
}

} // verus!
