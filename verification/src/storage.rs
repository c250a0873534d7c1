//! The calls that every storage takes, and the storages themselves.

pub mod client;
pub mod dir;
pub mod memory;

pub use client::ClientStorage;
pub use dir::DirStorage;
pub use memory::MemoryStorage;

use crate::actor::{ActorCall, CallInjection, CallSuperset};
use crate::error::CallError;
use crate::kv::key::Key;
use serde_json::Value;
use vstd::prelude::*;
use vstd::std_specs::convert::FromSpecImpl;

verus! {

/// A read of the entry under a key.
#[derive(Debug)]
pub struct Get {
    pub key: Key,
}

/// What a read gives: the document under the key, if there is one.
pub type GetOutput = Option<Value>;

/// A write of a document under a key.
#[derive(Debug)]
pub struct Put {
    pub key: Key,
    pub value: Value,
}

/// What a write gives: whether the key was new.
pub type PutOutput = bool;

impl Clone for Get {
    fn clone(&self) -> (copy: Get)
        ensures
            copy == *self,
    {
        Get { key: self.key.clone() }
    }
}

impl Clone for Put {
    fn clone(&self) -> (copy: Put)
        ensures
            copy == *self,
    {
        Put { key: self.key.clone(), value: self.value.clone() }
    }
}

/// Why a storage failed a call.
#[derive(Debug)]
pub enum Error {
    /// Reading or writing a file failed; the text is the cause.
    Io(String),
    /// A document could not be read from or written as JSON; the text is
    /// the cause.
    Json(String),
}

impl Error {
    /// The text of the error: its cause.
    pub open spec fn text(self) -> Seq<char> {
        match self {
            Error::Io(cause) => cause@,
            Error::Json(cause) => cause@,
        }
    }

    /// The text of the error: its cause.
    pub fn message(&self) -> (text: String)
        ensures
            text@ == self.text(),
    {
        match self {
            Error::Io(cause) => cause.clone(),
            Error::Json(cause) => cause.clone(),
        }
    }
}

/// A read, as a call.
pub type GetCall = ActorCall<Get, GetOutput>;

/// A write, as a call.
pub type PutCall = ActorCall<Put, PutOutput>;

/// The calls that a storage takes.
#[derive(Debug)]
pub enum StorageCall {
    Get(GetCall),
    Put(PutCall),
}

impl StorageCall {
    /// The call that is there was answered with `error` on its own
    /// channel, and `delivered` is what the channel made of that.
    pub open spec fn replies_error(self, error: CallError, delivered: bool) -> bool {
        match self {
            StorageCall::Get(call) => call.replies_error(error, delivered),
            StorageCall::Put(call) => call.replies_error(error, delivered),
        }
    }
}

impl CallSuperset for StorageCall {
    /// Answers whichever call is there with `error`: the reply is that
    /// call's own reply with the error.
    fn reply_error(self, error: CallError) -> (delivered: bool)
        ensures
            self.replies_error(error, delivered),
    {
        match self {
            StorageCall::Get(call) => call.reply_error(error),
            StorageCall::Put(call) => call.reply_error(error),
        }
    }
}

impl CallInjection<GetCall> for StorageCall {
    open spec fn injected(call: GetCall) -> StorageCall {
        StorageCall::Get(call)
    }

    fn inject(call: GetCall) -> (union: StorageCall) {
        StorageCall::Get(call)
    }
}

impl CallInjection<PutCall> for StorageCall {
    open spec fn injected(call: PutCall) -> StorageCall {
        StorageCall::Put(call)
    }

    fn inject(call: PutCall) -> (union: StorageCall) {
        StorageCall::Put(call)
    }
}

impl From<GetCall> for StorageCall {
    fn from(call: GetCall) -> (union: StorageCall) {
        StorageCall::Get(call)
    }
}

impl FromSpecImpl<GetCall> for StorageCall {
    open spec fn obeys_from_spec() -> bool {
        true
    }

    open spec fn from_spec(call: GetCall) -> StorageCall {
        StorageCall::Get(call)
    }
}

impl From<PutCall> for StorageCall {
    fn from(call: PutCall) -> (union: StorageCall) {
        StorageCall::Put(call)
    }
}

impl FromSpecImpl<PutCall> for StorageCall {
    open spec fn obeys_from_spec() -> bool {
        true
    }

    open spec fn from_spec(call: PutCall) -> StorageCall {
        StorageCall::Put(call)
    }
}

} // verus!
