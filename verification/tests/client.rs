use spalhad::client::{missing_or_failed, reads, Client, Method, Reads, ResponseError};
use spalhad::cluster::RunId;
use spalhad::duration::TimeSpan;
use spalhad::kv::key::Key;
use spalhad::Error;

#[test]
fn client_defaults() {
    let client = Client::new("http://localhost:5500");
    assert_eq!(client.base_url(), "http://localhost:5500");
    assert_eq!(client.timeout(), TimeSpan { secs: 90, subsec_nanos: 0 });
    let client = Client::default();
    assert_eq!(client.base_url(), "http://localhost:3000/kv");
    assert_eq!(client.timeout(), TimeSpan { secs: 90, subsec_nanos: 0 });
    let client = Client::with_timeout("http://a", TimeSpan { secs: 1, subsec_nanos: 5 });
    assert_eq!(client.timeout(), TimeSpan { secs: 1, subsec_nanos: 5 });
}

#[test]
fn client_sync_requests() {
    let client = Client::new("http://node:5500");
    let request = client.run_id();
    assert_eq!(request.method, Method::Get);
    assert_eq!(request.url, "http://node:5500/sync/run_id");
    let id = RunId::from_bytes([9; 16]);
    let (request, body) = client.activate(id);
    assert_eq!(request.method, Method::Post);
    assert_eq!(request.url, "http://node:5500/sync/activate");
    assert_eq!(body.run_id, id);
    let request = client.is_active();
    assert_eq!(request.method, Method::Get);
    assert_eq!(request.url, "http://node:5500/sync/active");
}

#[test]
fn client_kv_requests() {
    let client = Client::new("http://node:5500");
    let key = Key::from_bytes([0xc4; 32]);
    let hex = "c4".repeat(32);
    let request = client.get_raw(&key);
    assert_eq!((request.method, request.url), (Method::Get, format!("http://node:5500/kv/{hex}")));
    let request = client.put_raw(&key);
    assert_eq!((request.method, request.url), (Method::Post, format!("http://node:5500/kv/{hex}")));
    let request = client.get_internal(&key);
    assert_eq!(
        (request.method, request.url),
        (Method::Get, format!("http://node:5500/internal-kv/{hex}"))
    );
    let request = client.put_internal(&key);
    assert_eq!(
        (request.method, request.url),
        (Method::Post, format!("http://node:5500/internal-kv/{hex}"))
    );
}

#[test]
fn client_hashes_the_datum() {
    let client = Client::new("http://node:5500");
    let digest = "3a985da74fe225b2045c172d6bd390bd855f086e3e9d525b46bfe24511431532";
    assert_eq!(client.get(b"abc").url, format!("http://node:5500/kv/{digest}"));
    assert_eq!(client.put(b"abc").url, format!("http://node:5500/kv/{digest}"));
    assert_eq!(client.get(b"abc").method, Method::Get);
    assert_eq!(client.put(b"abc").method, Method::Post);
}

#[test]
fn client_reads_body_only_on_200() {
    assert_eq!(reads(200), Reads::Body);
    assert_eq!(reads(201), Reads::Failure);
    assert_eq!(reads(404), Reads::Failure);
    assert_eq!(reads(500), Reads::Failure);
    assert_eq!(reads(0), Reads::Failure);
}

fn response_error(status_code: u16, json: bool) -> ResponseError {
    ResponseError {
        status_code,
        text_body: "body".to_string(),
        json_body: if json { Some(Error { trace: vec!["key not found".to_string()] }) } else { None },
    }
}

#[test]
fn client_tells_missing_from_failed() {
    assert!(missing_or_failed(response_error(404, true)).is_ok());
    let error = missing_or_failed(response_error(404, false)).unwrap_err();
    assert_eq!(error.status_code, 404);
    let error = missing_or_failed(response_error(500, true)).unwrap_err();
    assert_eq!(error.status_code, 500);
    let error = missing_or_failed(response_error(400, true)).unwrap_err();
    assert_eq!(error.status_code, 400);
}

#[test]
fn response_error_message() {
    assert_eq!(
        response_error(404, false).message(),
        "Request failed with status 404 and body body"
    );
    assert_eq!(response_error(0, false).message(), "Request failed with status 0 and body body");
    assert_eq!(
        response_error(65535, false).message(),
        "Request failed with status 65535 and body body"
    );
    assert_eq!(response_error(7, false).message(), "Request failed with status 7 and body body");
    assert_eq!(
        response_error(500, false).message(),
        "Request failed with status 500 and body body"
    );
}
