use serde_json::Value;
use spalhad::bouncer::{self, Activated};
use spalhad::cluster::{IsActiveResponse, RunId};
use spalhad::coordinator;
use spalhad::error::CallError;
use spalhad::http::{
    activate, catch_bouncer, get_by_key, is_active, key_of_path, make_response,
    put_by_key, run_id, BAD_REQUEST, INTERNAL_SERVER_ERROR, NOT_FOUND, OK,
};
use spalhad::kv::key::Key;
use spalhad::kv::{GetResponse, PutRequest, PutResponse};
use spalhad::storage;
use spalhad::Error;

fn json(text: &str) -> Value {
    serde_json::from_str(text).unwrap()
}

#[test]
fn status_codes() {
    assert_eq!(OK, 200);
    assert_eq!(BAD_REQUEST, 400);
    assert_eq!(NOT_FOUND, 404);
    assert_eq!(INTERNAL_SERVER_ERROR, 500);
}

#[test]
fn call_error_traces() {
    assert_eq!(
        CallError::Bouncer(bouncer::Error::NotActive).trace(),
        vec!["bouncer is not active yet".to_string()]
    );
    assert_eq!(
        CallError::Coordinator(coordinator::Error::NoReadConsensus).trace(),
        vec!["Failed to get consensus".to_string()]
    );
    assert_eq!(
        CallError::Storage(storage::Error::Io("disk".to_string())).trace(),
        vec!["disk".to_string()]
    );
    assert_eq!(CallError::CalleeDisconnected.trace(), vec!["callee actor disconnected".to_string()]);
    assert_eq!(CallError::CallerCancelled.trace(), vec!["channel closed".to_string()]);
    assert_eq!(
        CallError::Other(vec!["outer".to_string(), "inner".to_string()]).trace(),
        vec!["outer".to_string(), "inner".to_string()]
    );
    assert!(CallError::Bouncer(bouncer::Error::BadRunId).is_bouncer());
    assert!(!CallError::CalleeDisconnected.is_bouncer());
}

#[test]
fn make_response_keeps_status_and_chain() {
    let error = CallError::Other(vec!["a".to_string(), "b".to_string()]);
    let (status, body) = make_response(418, &error);
    assert_eq!(status, 418);
    assert_eq!(body, Error { trace: vec!["a".to_string(), "b".to_string()] });
}

#[test]
fn catch_bouncer_maps_bouncer_errors_to_400() {
    for error in [
        bouncer::Error::NotActive,
        bouncer::Error::AlreadyActive,
        bouncer::Error::BadRunId,
    ] {
        let (status, body) = catch_bouncer(500, &CallError::Bouncer(error));
        assert_eq!(status, 400);
        assert_eq!(body.trace, vec![error.message()]);
    }
    let (status, _) = catch_bouncer(500, &CallError::CalleeDisconnected);
    assert_eq!(status, 500);
    let (status, _) = catch_bouncer(503, &CallError::CallerCancelled);
    assert_eq!(status, 503);
}

#[test]
fn key_of_path_accepts_64_hex_digits() {
    let key = key_of_path(&"0".repeat(64)).unwrap();
    assert_eq!(key, Key::from_bytes([0; 32]));
    let (status, body) = key_of_path("zz").unwrap_err();
    assert_eq!(status, 400);
    assert_eq!(body.trace, vec!["string is not a valid hexadecimal key".to_string()]);
}

#[test]
fn get_replies() {
    assert_eq!(
        get_by_key(Ok(Some(json(r#"{"x":1}"#)))),
        Ok(GetResponse { value: json(r#"{"x":1}"#) })
    );
    assert_eq!(get_by_key(Ok(Some(Value::Null))), Ok(GetResponse { value: Value::Null }));
    assert_eq!(
        get_by_key(Ok(None)),
        Err((404, Error { trace: vec!["key not found".to_string()] }))
    );
    assert_eq!(
        get_by_key(Err(CallError::Bouncer(bouncer::Error::NotActive))),
        Err((400, Error { trace: vec!["bouncer is not active yet".to_string()] }))
    );
    assert_eq!(
        get_by_key(Err(CallError::Coordinator(coordinator::Error::NoReadConsensus))),
        Err((500, Error { trace: vec!["Failed to get consensus".to_string()] }))
    );
}

#[test]
fn put_replies() {
    assert_eq!(put_by_key(Ok(true)), Ok(PutResponse { new: true }));
    assert_eq!(put_by_key(Ok(false)), Ok(PutResponse { new: false }));
    assert_eq!(
        put_by_key(Err(CallError::Bouncer(bouncer::Error::NotActive))),
        Err((400, Error { trace: vec!["bouncer is not active yet".to_string()] }))
    );
    assert_eq!(
        put_by_key(Err(CallError::Coordinator(coordinator::Error::NoWriteConsensus))),
        Err((500, Error { trace: vec!["Failed to get consensus".to_string()] }))
    );
}

#[test]
fn sync_replies() {
    let id = RunId::from_bytes([3; 16]);
    assert_eq!(run_id(id).run_id, id);
    assert_eq!(activate(Ok(Activated)), Ok(IsActiveResponse { is_active: true }));
    assert_eq!(
        activate(Err(CallError::Bouncer(bouncer::Error::BadRunId))).unwrap_err().0,
        400
    );
    assert_eq!(
        activate(Err(CallError::Bouncer(bouncer::Error::AlreadyActive))).unwrap_err().0,
        400
    );
    assert_eq!(activate(Err(CallError::CalleeDisconnected)).unwrap_err().0, 500);
    assert_eq!(is_active(Ok(false)), Ok(IsActiveResponse { is_active: false }));
    assert_eq!(is_active(Ok(true)), Ok(IsActiveResponse { is_active: true }));
    assert_eq!(is_active(Err(CallError::CallerCancelled)).unwrap_err().0, 500);
}

#[test]
fn wire_bodies_hold_their_fields() {
    let request = PutRequest { value: json("[1]") };
    assert_eq!(request.clone(), request);
    assert_eq!(request.value, json("[1]"));
}
