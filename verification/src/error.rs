//! Errors as they travel: between the actors of a node, and in the body
//! of a reply.

use crate::bouncer;
use crate::coordinator;
use crate::storage;
use vstd::prelude::*;

verus! {

/// The body of a reply that reports an error: its chain of causes, the
/// outermost first.
#[derive(Debug, Clone, PartialEq)]
pub struct Error {
    pub trace: Vec<String>,
}

/// Why a call to an actor failed.
#[derive(Debug)]
pub enum CallError {
    /// The bouncer refused the call.
    Bouncer(bouncer::Error),
    /// The coordinator found no quorum.
    Coordinator(coordinator::Error),
    /// The storage failed.
    Storage(storage::Error),
    /// The mailbox of the actor was closed before the call got there.
    CalleeDisconnected,
    /// The actor dropped the call without an answer.
    CallerCancelled,
    /// Anything else, by its chain of causes, the outermost first.
    Other(Vec<String>),
}

/// The texts of a chain of causes.
pub open spec fn texts(trace: Seq<String>) -> Seq<Seq<char>> {
    Seq::new(trace.len(), |i: int| trace[i]@)
}

/// A copy of a chain of causes.
pub fn copy_trace(trace: &Vec<String>) -> (copy: Vec<String>)
    ensures
        texts(copy@) == texts(trace@),
        copy@ == trace@,
{
    let mut copy: Vec<String> = Vec::new();
    let mut i: usize = 0;
    while i < trace.len()
        invariant
            i <= trace@.len(),
            copy@ == trace@.take(i as int),
        decreases trace@.len() - i,
    {
        copy.push(trace[i].clone());
        assert(copy@ =~= trace@.take(i + 1));
        i += 1;
    }
    assert(trace@.take(trace@.len() as int) =~= trace@);
    copy
}

impl CallError {
    /// The chain of causes of the error, the outermost first.
    pub open spec fn causes(self) -> Seq<Seq<char>> {
        match self {
            CallError::Bouncer(error) => seq![error.text()],
            CallError::Coordinator(error) => seq![error.text()],
            CallError::Storage(error) => seq![error.text()],
            CallError::CalleeDisconnected => seq!["callee actor disconnected"@],
            CallError::CallerCancelled => seq!["channel closed"@],
            CallError::Other(trace) => texts(trace@),
        }
    }

    /// Whether the bouncer raised the error.
    pub fn is_bouncer(&self) -> (r: bool)
        ensures
            r == (*self is Bouncer),
    {
        match self {
            CallError::Bouncer(_) => true,
            _ => false,
        }
    }

    /// The chain of causes of the error, the outermost first.
    pub fn trace(&self) -> (trace: Vec<String>)
        ensures
            texts(trace@) == self.causes(),
    {
        let trace = match self {
            CallError::Bouncer(error) => vec![error.message()],
            CallError::Coordinator(error) => vec![error.message()],
            CallError::Storage(error) => vec![error.message()],
            CallError::CalleeDisconnected => vec!["callee actor disconnected".to_string()],
            CallError::CallerCancelled => vec!["channel closed".to_string()],
            CallError::Other(trace) => copy_trace(trace),
        };
        assert(texts(trace@) =~= self.causes());
        trace
    }
}

} // verus!
