//! Keys and the bodies of the key-value routes.

pub mod key;

pub use key::Key;

use vstd::prelude::*;

verus! {

/// The body of a write: the document to store.
#[derive(Debug, Clone, PartialEq, Eq)]
pub struct PutRequest<V> {
    pub value: V,
}

/// The body of the reply to a read: the document found.
#[derive(Debug, Clone, PartialEq, Eq)]
pub struct GetResponse<V> {
    pub value: V,
}

/// The body of the reply to a write: whether the key was new.
#[derive(Debug, Clone, Copy, PartialEq, Eq, Structural)]
pub struct PutResponse {
    pub new: bool,
}

} // verus!
