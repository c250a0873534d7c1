use serde_json::Value;
use spalhad::kv::key::Key;
use spalhad::storage::dir::{DirPut, Failure, FailureKind, OpenMode, PutStage, PutStep};
use spalhad::storage::{ClientStorage, DirStorage, Error, Get, MemoryStorage, Put};
use spalhad::client::Method;
use spalhad::duration::TimeSpan;
use std::path::PathBuf;

fn json(text: &str) -> Value {
    serde_json::from_str(text).unwrap()
}

fn key(byte: u8) -> Key {
    Key::from_bytes([byte; 32])
}

#[test]
fn memory_put_then_get() {
    let mut storage = MemoryStorage::open();
    assert_eq!(storage.get(&Get { key: key(1) }), None);
    assert!(storage.put(Put { key: key(1), value: json(r#"{"x":1}"#) }));
    assert_eq!(storage.get(&Get { key: key(1) }), Some(json(r#"{"x":1}"#)));
    assert_eq!(storage.get(&Get { key: key(2) }), None);
}

#[test]
fn memory_overwrite_reports_not_new() {
    let mut storage = MemoryStorage::open();
    assert!(storage.put(Put { key: key(1), value: json(r#"{"x":1}"#) }));
    assert!(!storage.put(Put { key: key(1), value: json(r#"{"x":2}"#) }));
    assert_eq!(storage.get(&Get { key: key(1) }), Some(json(r#"{"x":2}"#)));
}

#[test]
fn memory_put_is_idempotent_in_value() {
    let mut storage = MemoryStorage::open();
    storage.put(Put { key: key(1), value: json("[1,2]") });
    storage.put(Put { key: key(1), value: json("[1,2]") });
    assert_eq!(storage.get(&Get { key: key(1) }), Some(json("[1,2]")));
}

#[test]
fn memory_keeps_keys_apart() {
    let mut storage = MemoryStorage::open();
    for byte in 0..50u8 {
        assert!(storage.put(Put { key: key(byte), value: json(&byte.to_string()) }));
    }
    assert!(!storage.put(Put { key: key(7), value: Value::Null }));
    for byte in 0..50u8 {
        let expected = if byte == 7 { Value::Null } else { json(&byte.to_string()) };
        assert_eq!(storage.get(&Get { key: key(byte) }), Some(expected));
    }
    assert_eq!(storage.get(&Get { key: key(50) }), None);
}

#[test]
fn memory_stores_null() {
    let mut storage = MemoryStorage::open();
    assert!(storage.put(Put { key: key(9), value: Value::Null }));
    assert_eq!(storage.get(&Get { key: key(9) }), Some(Value::Null));
}

#[test]
fn dir_file_name_is_hex_key_and_json() {
    let name = DirStorage::file_name(&key(0xab));
    assert_eq!(name, format!("{}.json", "ab".repeat(32)));
    let storage = DirStorage::open(PathBuf::from("/tmp/entries"));
    assert_eq!(storage.dir_path, PathBuf::from("/tmp/entries"));
    assert_eq!(storage.get(&Get { key: key(0) }), format!("{}.json", "0".repeat(64)));
}

fn failure(kind: FailureKind, cause: &str) -> Failure {
    Failure { kind, cause: cause.to_string() }
}

#[test]
fn dir_read_replies() {
    let storage = DirStorage::open(PathBuf::from("d"));
    assert_eq!(
        storage.on_read(Ok(r#"{"x":1}"#.to_string())).unwrap(),
        Some(json(r#"{"x":1}"#))
    );
    assert_eq!(storage.on_read(Ok("null".to_string())).unwrap(), Some(Value::Null));
    assert_eq!(storage.on_read(Err(failure(FailureKind::NotFound, "gone"))).unwrap(), None);
    match storage.on_read(Err(failure(FailureKind::Other, "disk on fire"))) {
        Err(Error::Io(cause)) => assert_eq!(cause, "disk on fire"),
        other => panic!("unexpected reply {:?}", other),
    }
    match storage.on_read(Err(failure(FailureKind::AlreadyExists, "odd"))) {
        Err(Error::Io(cause)) => assert_eq!(cause, "odd"),
        other => panic!("unexpected reply {:?}", other),
    }
    match storage.on_read(Ok("{not json".to_string())) {
        Err(Error::Json(_)) => {},
        other => panic!("unexpected reply {:?}", other),
    }
}

fn start_put() -> DirPut {
    let storage = DirStorage::open(PathBuf::from("d"));
    storage.put(&Put { key: key(3), value: json(r#"{"a":[1,2]}"#) }).unwrap()
}

#[test]
fn dir_put_starts_by_creating() {
    let put = start_put();
    assert_eq!(put.stage, PutStage::Creating);
    assert_eq!(put.file_name, format!("{}.json", "03".repeat(32)));
    assert_eq!(put.contents, br#"{"a":[1,2]}"#.to_vec());
}

#[test]
fn dir_put_creates_first_and_empties_on_reopening() {
    let mut put = start_put();
    assert_eq!(put.open_mode(), OpenMode { create_new: true, truncate: false });
    put.on_open(Err(failure(FailureKind::AlreadyExists, "exists")));
    assert_eq!(put.open_mode(), OpenMode { create_new: false, truncate: true });
    put.on_open(Err(failure(FailureKind::NotFound, "gone")));
    assert_eq!(put.open_mode(), OpenMode { create_new: true, truncate: false });
}

#[test]
fn dir_put_encodes_every_document() {
    let storage = DirStorage::open(PathBuf::from("d"));
    for text in ["null", "true", "-0.0", "0.0", "1e300", "\"a\\u0000b\"", "[]", "{\"k\":{\"n\":[1,2.5,\"x\"]}}"] {
        let put = storage.put(&Put { key: key(1), value: json(text) }).unwrap();
        let back: Value = serde_json::from_slice(&put.contents).unwrap();
        assert_eq!(back, json(text));
    }
    let put = storage.put(&Put { key: key(1), value: json("{ \"b\" : 1 }") }).unwrap();
    assert_eq!(put.contents, br#"{"b":1}"#.to_vec());
}

#[test]
fn dir_put_of_a_new_key() {
    let mut put = start_put();
    match put.on_open(Ok(())) {
        PutStep::Continue(PutStage::Writing { new: true }) => {},
        other => panic!("unexpected step {:?}", other),
    }
    assert_eq!(put.stage, PutStage::Writing { new: true });
    assert_eq!(put.on_write(Ok(())).unwrap(), true);
}

#[test]
fn dir_put_over_an_existing_key() {
    let mut put = start_put();
    match put.on_open(Err(failure(FailureKind::AlreadyExists, "exists"))) {
        PutStep::Continue(PutStage::Reopening) => {},
        other => panic!("unexpected step {:?}", other),
    }
    match put.on_open(Ok(())) {
        PutStep::Continue(PutStage::Writing { new: false }) => {},
        other => panic!("unexpected step {:?}", other),
    }
    assert_eq!(put.on_write(Ok(())).unwrap(), false);
}

#[test]
fn dir_put_retries_when_the_file_goes_away() {
    let mut put = start_put();
    put.on_open(Err(failure(FailureKind::AlreadyExists, "exists")));
    match put.on_open(Err(failure(FailureKind::NotFound, "gone"))) {
        PutStep::Continue(PutStage::Creating) => {},
        other => panic!("unexpected step {:?}", other),
    }
    assert_eq!(put.stage, PutStage::Creating);
    put.on_open(Ok(()));
    assert_eq!(put.on_write(Ok(())).unwrap(), true);
}

#[test]
fn dir_put_fails_on_other_errors() {
    let mut put = start_put();
    match put.on_open(Err(failure(FailureKind::NotFound, "no directory"))) {
        PutStep::Reply(Err(Error::Io(cause))) => assert_eq!(cause, "no directory"),
        other => panic!("unexpected step {:?}", other),
    }
    let mut put = start_put();
    match put.on_open(Err(failure(FailureKind::Other, "denied"))) {
        PutStep::Reply(Err(Error::Io(cause))) => assert_eq!(cause, "denied"),
        other => panic!("unexpected step {:?}", other),
    }
    let mut put = start_put();
    put.on_open(Err(failure(FailureKind::AlreadyExists, "exists")));
    match put.on_open(Err(failure(FailureKind::AlreadyExists, "odd"))) {
        PutStep::Reply(Err(Error::Io(cause))) => assert_eq!(cause, "odd"),
        other => panic!("unexpected step {:?}", other),
    }
    let mut put = start_put();
    put.on_open(Ok(()));
    match put.on_write(Err(failure(FailureKind::Other, "full"))) {
        Err(Error::Io(cause)) => assert_eq!(cause, "full"),
        other => panic!("unexpected reply {:?}", other),
    }
}

#[test]
fn storage_error_messages() {
    assert_eq!(Error::Io("a".to_string()).message(), "a");
    assert_eq!(Error::Json("b".to_string()).message(), "b");
}

#[test]
fn client_storage_uses_internal_routes() {
    let storage = ClientStorage::open("http://peer:5500");
    assert_eq!(storage.client().base_url(), "http://peer:5500");
    assert_eq!(storage.client().timeout(), TimeSpan { secs: 90, subsec_nanos: 0 });
    let get = storage.get(&Get { key: key(0x11) });
    assert_eq!(get.method, Method::Get);
    assert_eq!(get.url, format!("http://peer:5500/internal-kv/{}", "11".repeat(32)));
    let put = storage.put(&Put { key: key(0x22), value: Value::Null });
    assert_eq!(put.method, Method::Post);
    assert_eq!(put.url, format!("http://peer:5500/internal-kv/{}", "22".repeat(32)));
    let timed = ClientStorage::open_with_timeout(
        "http://peer:5500",
        TimeSpan { secs: 0, subsec_nanos: 200_000_000 },
    );
    assert_eq!(timed.client().timeout(), TimeSpan { secs: 0, subsec_nanos: 200_000_000 });
}
