use serde_json::Value;
use spalhad::actor::{ActorCall, ActorCallback, CallInjection, CallResult, CallSuperset};
use spalhad::bouncer::{
    self, Activate, Activated, ActivateCall, Bouncer, BouncerCall, Forward, Incoming, IsActive,
    IsActiveCall,
};
use spalhad::cluster::RunId;
use spalhad::coordinator::{self, CoordinatorCall};
use spalhad::error::CallError;
use spalhad::kv::key::Key;
use spalhad::storage::{self, MemoryStorage, StorageCall};
use tokio::sync::oneshot::{self, error::TryRecvError, Receiver};

fn json(text: &str) -> Value {
    serde_json::from_str(text).unwrap()
}

fn key(byte: u8) -> Key {
    Key::from_bytes([byte; 32])
}

fn call<I, O>(input: I) -> (ActorCall<I, O>, Receiver<CallResult<O>>) {
    let (sender, receiver) = oneshot::channel();
    (ActorCall { input, back: ActorCallback::new(sender) }, receiver)
}

fn trace_of<O: std::fmt::Debug>(receiver: &mut Receiver<CallResult<O>>) -> Vec<String> {
    receiver.try_recv().unwrap().unwrap_err().trace()
}

#[test]
fn callback_replies_reach_the_caller() {
    let (get, mut receiver) = call::<storage::Get, storage::GetOutput>(storage::Get { key: key(1) });
    assert!(get.back.reply_ok(Some(json("1"))));
    assert_eq!(receiver.try_recv().unwrap().unwrap(), Some(json("1")));

    let (get, mut receiver) = call::<storage::Get, storage::GetOutput>(storage::Get { key: key(1) });
    assert!(get.back.reply(Err(CallError::CalleeDisconnected)));
    assert_eq!(trace_of(&mut receiver), vec!["callee actor disconnected".to_string()]);

    let (get, mut receiver) = call::<storage::Get, storage::GetOutput>(storage::Get { key: key(1) });
    assert!(get.reply_error(CallError::CallerCancelled));
    assert_eq!(trace_of(&mut receiver), vec!["channel closed".to_string()]);
}

#[test]
fn callback_tells_when_the_caller_is_gone() {
    let (get, receiver) = call::<storage::Get, storage::GetOutput>(storage::Get { key: key(1) });
    drop(receiver);
    assert!(!get.back.reply_ok(None));
    let (put, receiver) = call::<IsActive, bool>(IsActive);
    drop(receiver);
    assert!(!put.reply_error(CallError::CalleeDisconnected));
}

#[test]
fn dropped_call_closes_the_channel() {
    let (get, mut receiver) = call::<storage::Get, storage::GetOutput>(storage::Get { key: key(1) });
    assert!(matches!(receiver.try_recv(), Err(TryRecvError::Empty)));
    drop(get);
    assert!(matches!(receiver.try_recv(), Err(TryRecvError::Closed)));
}

#[test]
fn unions_reply_error_to_the_variant_inside() {
    let (get, mut receiver) = call::<storage::Get, storage::GetOutput>(storage::Get { key: key(1) });
    assert!(StorageCall::inject(get).reply_error(CallError::CalleeDisconnected));
    assert_eq!(trace_of(&mut receiver), vec!["callee actor disconnected".to_string()]);

    let (put, mut receiver) =
        call::<coordinator::Put, bool>(coordinator::Put { key: key(1), value: Value::Null });
    assert!(CoordinatorCall::inject(put).reply_error(CallError::CallerCancelled));
    assert_eq!(trace_of(&mut receiver), vec!["channel closed".to_string()]);

    let (put, mut receiver) =
        call::<storage::Put, bool>(storage::Put { key: key(1), value: Value::Null });
    let error = CallError::Bouncer(bouncer::Error::NotActive);
    assert!(BouncerCall::inject(put).reply_error(error));
    assert_eq!(trace_of(&mut receiver), vec!["bouncer is not active yet".to_string()]);

    let (activate, mut receiver) =
        call::<Activate, Activated>(Activate { run_id: RunId::from_bytes([1; 16]) });
    assert!(BouncerCall::inject(activate).reply_error(CallError::CalleeDisconnected));
    assert_eq!(trace_of(&mut receiver), vec!["callee actor disconnected".to_string()]);
}

#[test]
fn injections_tag_the_variant() {
    let (get, _r) = call::<storage::Get, storage::GetOutput>(storage::Get { key: key(1) });
    assert!(matches!(StorageCall::inject(get), StorageCall::Get(_)));
    let (put, _r) = call::<storage::Put, bool>(storage::Put { key: key(1), value: Value::Null });
    assert!(matches!(StorageCall::from(put), StorageCall::Put(_)));
    let (get, _r) = call::<coordinator::Get, coordinator::GetOutput>(coordinator::Get { key: key(1) });
    assert!(matches!(CoordinatorCall::inject(get), CoordinatorCall::Get(_)));
    let (put, _r) =
        call::<coordinator::Put, bool>(coordinator::Put { key: key(1), value: Value::Null });
    assert!(matches!(CoordinatorCall::from(put), CoordinatorCall::Put(_)));
    let (same, _r) = call::<IsActive, bool>(IsActive);
    let same: IsActiveCall = ActorCall::inject(same);
    assert!(matches!(BouncerCall::inject(same), BouncerCall::IsActive(_)));
}

#[test]
fn injections_flatten_into_the_bouncer() {
    let (get, _r) = call::<storage::Get, storage::GetOutput>(storage::Get { key: key(1) });
    let union = BouncerCall::inject(get);
    assert!(matches!(union.incoming(), Incoming::Storage));
    assert!(matches!(union, BouncerCall::Storage(StorageCall::Get(_))));
    let (put, _r) = call::<storage::Put, bool>(storage::Put { key: key(1), value: Value::Null });
    assert!(matches!(BouncerCall::inject(put), BouncerCall::Storage(StorageCall::Put(_))));
    let (get, _r) = call::<coordinator::Get, coordinator::GetOutput>(coordinator::Get { key: key(1) });
    let union = BouncerCall::inject(get);
    assert!(matches!(union.incoming(), Incoming::Coordinator));
    assert!(matches!(union, BouncerCall::Coordinator(CoordinatorCall::Get(_))));
    let (put, _r) =
        call::<coordinator::Put, bool>(coordinator::Put { key: key(1), value: Value::Null });
    assert!(matches!(BouncerCall::inject(put), BouncerCall::Coordinator(CoordinatorCall::Put(_))));
    let (get, _r) = call::<storage::Get, storage::GetOutput>(storage::Get { key: key(1) });
    assert!(matches!(BouncerCall::from(StorageCall::inject(get)), BouncerCall::Storage(_)));
    let (get, _r) = call::<coordinator::Get, coordinator::GetOutput>(coordinator::Get { key: key(1) });
    assert!(matches!(
        BouncerCall::from(CoordinatorCall::inject(get)),
        BouncerCall::Coordinator(_)
    ));
}

fn activate_call(run: u8) -> (ActivateCall, Receiver<CallResult<Activated>>) {
    call(Activate { run_id: RunId::from_bytes([run; 16]) })
}

#[test]
fn bouncer_answers_its_own_calls() {
    let mut bouncer = Bouncer::open(RunId::from_bytes([1; 16]));

    let (is_active, mut receiver) = call::<IsActive, bool>(IsActive);
    assert!(matches!(bouncer.on_call(BouncerCall::inject(is_active)), Forward::Nothing));
    assert_eq!(receiver.try_recv().unwrap().unwrap(), false);

    let (activate, mut receiver) = activate_call(2);
    assert!(matches!(bouncer.on_call(BouncerCall::inject(activate)), Forward::Nothing));
    assert_eq!(
        trace_of(&mut receiver),
        vec!["attempted to activate bouncer with incorrect run id".to_string()]
    );

    let (activate, mut receiver) = activate_call(1);
    assert!(matches!(bouncer.on_call(BouncerCall::inject(activate)), Forward::Nothing));
    assert_eq!(receiver.try_recv().unwrap().unwrap(), Activated);
    assert!(bouncer.is_active());

    let (activate, mut receiver) = activate_call(1);
    assert!(matches!(bouncer.on_call(BouncerCall::inject(activate)), Forward::Nothing));
    assert_eq!(trace_of(&mut receiver), vec!["bouncer is already active".to_string()]);

    let (is_active, mut receiver) = call::<IsActive, bool>(IsActive);
    bouncer.on_call(BouncerCall::inject(is_active));
    assert_eq!(receiver.try_recv().unwrap().unwrap(), true);
}

#[test]
fn bouncer_holds_back_calls_until_active() {
    let mut bouncer = Bouncer::open(RunId::from_bytes([1; 16]));

    let (get, mut receiver) = call::<storage::Get, storage::GetOutput>(storage::Get { key: key(1) });
    assert!(matches!(bouncer.on_call(BouncerCall::inject(get)), Forward::Nothing));
    assert_eq!(trace_of(&mut receiver), vec!["bouncer is not active yet".to_string()]);

    let (get, mut receiver) =
        call::<coordinator::Get, coordinator::GetOutput>(coordinator::Get { key: key(1) });
    assert!(matches!(bouncer.on_call(BouncerCall::inject(get)), Forward::Nothing));
    assert_eq!(trace_of(&mut receiver), vec!["bouncer is not active yet".to_string()]);

    let (activate, _receiver) = activate_call(1);
    bouncer.on_call(BouncerCall::inject(activate));

    let (get, mut receiver) = call::<storage::Get, storage::GetOutput>(storage::Get { key: key(1) });
    match bouncer.on_call(BouncerCall::inject(get)) {
        Forward::Storage(StorageCall::Get(call)) => assert_eq!(call.input.key, key(1)),
        other => panic!("unexpected forward {:?}", other),
    }
    assert!(matches!(receiver.try_recv(), Err(TryRecvError::Closed)));

    let (put, mut receiver) =
        call::<coordinator::Put, bool>(coordinator::Put { key: key(2), value: json("3") });
    match bouncer.on_call(BouncerCall::inject(put)) {
        Forward::Coordinator(CoordinatorCall::Put(call)) => {
            assert_eq!(call.input.value, json("3"));
            assert!(matches!(receiver.try_recv(), Err(TryRecvError::Empty)));
            call.back.reply_ok(true);
            assert_eq!(receiver.try_recv().unwrap().unwrap(), true);
        },
        other => panic!("unexpected forward {:?}", other),
    }
}

#[test]
fn memory_storage_answers_calls() {
    let mut storage = MemoryStorage::open();

    let (get, mut receiver) = call::<storage::Get, storage::GetOutput>(storage::Get { key: key(1) });
    storage.on_call(StorageCall::inject(get));
    assert_eq!(receiver.try_recv().unwrap().unwrap(), None);

    let (put, mut receiver) =
        call::<storage::Put, bool>(storage::Put { key: key(1), value: json(r#"{"x":1}"#) });
    storage.on_call(StorageCall::inject(put));
    assert_eq!(receiver.try_recv().unwrap().unwrap(), true);

    let (put, mut receiver) =
        call::<storage::Put, bool>(storage::Put { key: key(1), value: json(r#"{"x":2}"#) });
    storage.on_call(StorageCall::inject(put));
    assert_eq!(receiver.try_recv().unwrap().unwrap(), false);

    let (get, mut receiver) = call::<storage::Get, storage::GetOutput>(storage::Get { key: key(1) });
    storage.on_call(StorageCall::inject(get));
    assert_eq!(receiver.try_recv().unwrap().unwrap(), Some(json(r#"{"x":2}"#)));
}
