//! The replies of the HTTP routes: which status and which body each
//! outcome of a call gets.
//!
//! The routes under `/kv` go through the bouncer to the coordinator, those
//! under `/internal-kv` through the bouncer to the local storage, and
//! those under `/sync` to the bouncer itself.

use crate::bouncer::{
    self, incoming_of, verdict, Activated, BouncerCall, BouncerView, IsActiveOutput, Verdict,
};
use crate::cluster::{ActivateResponse, IsActiveResponse, RunId, RunIdResponse};
use crate::error::{texts, CallError, Error};
use crate::hex;
use crate::kv::key::{Key, KEY_SIZE};
use crate::kv::{GetResponse, PutResponse};
use crate::storage::{GetOutput, PutOutput};
use serde_json::Value;
use vstd::prelude::*;

verus! {

/// The status of a reply that carries what was asked for.
pub const OK: u16 = 200;

/// The status of a reply to a request that was refused.
pub const BAD_REQUEST: u16 = 400;

/// The status of a reply to a read of a key that is not there.
pub const NOT_FOUND: u16 = 404;

/// The status of a reply to a request that failed in the node.
pub const INTERNAL_SERVER_ERROR: u16 = 500;

/// A reply that reports an error: its status and its body.
pub type Rejection = (u16, Error);

/// The reply that reports `error` with `status`: its body is the chain of
/// causes of the error.
pub fn make_response(status: u16, error: &CallError) -> (reply: Rejection)
    ensures
        reply.0 == status,
        texts(reply.1.trace@) == error.causes(),
{
    (status, Error { trace: error.trace() })
}

/// The reply that reports `error`: with status 400 where the bouncer
/// raised it, and with `fallback_status` otherwise.
pub fn catch_bouncer(fallback_status: u16, error: &CallError) -> (reply: Rejection)
    ensures
        reply.0 == if *error is Bouncer {
            BAD_REQUEST
        } else {
            fallback_status
        },
        texts(reply.1.trace@) == error.causes(),
{
    if error.is_bouncer() {
        make_response(BAD_REQUEST, error)
    } else {
        make_response(fallback_status, error)
    }
}

/// The key in the path of a route: 64 hexadecimal digits. Anything else
/// is refused with status 400.
pub fn key_of_path(segment: &str) -> (r: Result<Key, Rejection>)
    ensures
        r is Ok <==> hex::spells(segment@, KEY_SIZE as nat),
        r matches Ok(key) ==> key@ == hex::decoded(segment@),
        r matches Err(reply) ==> reply.0 == BAD_REQUEST && texts(reply.1.trace@)
            == seq!["string is not a valid hexadecimal key"@],
{
    match Key::from_hex(segment) {
        Ok(key) => Ok(key),
        Err(error) => {
            let trace = vec![error.message()];
            assert(texts(trace@) =~= seq!["string is not a valid hexadecimal key"@]);
            Err((BAD_REQUEST, Error { trace }))
        },
    }
}

/// The reply to a read: the document with status 200; status 404 where
/// the key is not there; status 400 where the bouncer refused; status 500
/// on any other failure.
pub fn get_by_key(outcome: Result<GetOutput, CallError>) -> (r: Result<
    GetResponse<Value>,
    Rejection,
>)
    ensures
        match outcome {
            Ok(Some(value)) => r == Ok::<GetResponse<Value>, Rejection>(GetResponse { value }),
            Ok(None) => r is Err && r->Err_0.0 == NOT_FOUND && texts(r->Err_0.1.trace@)
                == seq!["key not found"@],
            Err(error) => r is Err && r->Err_0.0 == if error is Bouncer {
                BAD_REQUEST
            } else {
                INTERNAL_SERVER_ERROR
            } && texts(r->Err_0.1.trace@) == error.causes(),
        },
{
    match outcome {
        Ok(Some(value)) => Ok(GetResponse { value }),
        Ok(None) => {
            let trace = vec!["key not found".to_string()];
            assert(texts(trace@) =~= seq!["key not found"@]);
            Err((NOT_FOUND, Error { trace }))
        },
        Err(error) => Err(catch_bouncer(INTERNAL_SERVER_ERROR, &error)),
    }
}

/// The reply to a write: whether the key was new with status 200; status
/// 400 where the bouncer refused; status 500 on any other failure.
pub fn put_by_key(outcome: Result<PutOutput, CallError>) -> (r: Result<PutResponse, Rejection>)
    ensures
        match outcome {
            Ok(new) => r == Ok::<PutResponse, Rejection>(PutResponse { new }),
            Err(error) => r is Err && r->Err_0.0 == if error is Bouncer {
                BAD_REQUEST
            } else {
                INTERNAL_SERVER_ERROR
            } && texts(r->Err_0.1.trace@) == error.causes(),
        },
{
    match outcome {
        Ok(new) => Ok(PutResponse { new }),
        Err(error) => Err(catch_bouncer(INTERNAL_SERVER_ERROR, &error)),
    }
}

/// The reply that tells the run of the node.
pub fn run_id(self_run_id: RunId) -> (reply: RunIdResponse)
    ensures
        reply.run_id == self_run_id,
{
    RunIdResponse { run_id: self_run_id }
}

/// The reply to an activation: that the node is active with status 200;
/// status 400 where the bouncer refused; status 500 on any other
/// failure.
pub fn activate(outcome: Result<Activated, CallError>) -> (r: Result<ActivateResponse, Rejection>)
    ensures
        match outcome {
            Ok(_) => r == Ok::<ActivateResponse, Rejection>(IsActiveResponse { is_active: true }),
            Err(error) => r is Err && r->Err_0.0 == if error is Bouncer {
                BAD_REQUEST
            } else {
                INTERNAL_SERVER_ERROR
            } && texts(r->Err_0.1.trace@) == error.causes(),
        },
{
    match outcome {
        Ok(_) => Ok(IsActiveResponse { is_active: true }),
        Err(error) => Err(catch_bouncer(INTERNAL_SERVER_ERROR, &error)),
    }
}

/// The reply to the question whether the node is active: the answer with
/// status 200, and status 500 on any failure.
pub fn is_active(outcome: Result<IsActiveOutput, CallError>) -> (r: Result<
    IsActiveResponse,
    Rejection,
>)
    ensures
        match outcome {
            Ok(is_active) => r == Ok::<IsActiveResponse, Rejection>(IsActiveResponse { is_active }),
            Err(error) => r is Err && r->Err_0.0 == INTERNAL_SERVER_ERROR && texts(
                r->Err_0.1.trace@,
            ) == error.causes(),
        },
{
    match outcome {
        Ok(is_active) => Ok(IsActiveResponse { is_active }),
        Err(error) => Err(make_response(INTERNAL_SERVER_ERROR, &error)),
    }
}

/// No route of the key-value store answers with success while the node
/// is not active. The call of such a route reaches the bouncer as a call
/// of the storage or of the coordinator; the bouncer refuses it as not
/// active, and the reply to an error of the bouncer has status 400.
pub proof fn lemma_no_data_before_activation(state: BouncerView, call: BouncerCall)
    requires
        !state.active,
        call is Storage || call is Coordinator,
    ensures
        verdict(state, incoming_of(call)) == Verdict::ReplyError(bouncer::Error::NotActive),
        CallError::Bouncer(bouncer::Error::NotActive) is Bouncer,
{
}

} // verus!
