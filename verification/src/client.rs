//! The client of a node: which request each operation makes, and what a
//! response to it means.
//!
//! The client here sends nothing. It names the method and the address of
//! each request and reads the status of the response; the transport and
//! the bodies are the caller's.

use crate::cluster::{ActivateRequest, RunId};
use crate::duration::TimeSpan;
use crate::error::Error;
use crate::hex;
use crate::kv::key::{sha3_256, Key};
use vstd::prelude::*;
use vstd::string::StringExecFns;

verus! {

/// The seconds that a request may take unless the client is told
/// otherwise.
pub const DEFAULT_TIMEOUT_SECS: u64 = 90;

/// The decimal digits of `n`.
pub open spec fn decimal(n: nat) -> Seq<char>
    decreases n,
{
    if n < 10 {
        seq![(0x30 + n) as u8 as char]
    } else {
        decimal(n / 10).push((0x30 + n % 10) as u8 as char)
    }
}

/// Appends the decimal digits of `n` to `text`.
fn push_decimal(text: &mut String, n: u16)
    ensures
        final(text)@ == old(text)@ + decimal(n as nat),
    decreases n,
{
    if n >= 10 {
        push_decimal(text, n / 10);
    }
    let digit: u8 = 0x30 + (n % 10) as u8;
    text.push(digit as char);
    proof {
        if n >= 10 {
            assert(final(text)@ =~= old(text)@ + decimal(n as nat));
        } else {
            assert(final(text)@ =~= old(text)@ + decimal(n as nat));
        }
    }
}

/// A response that does not carry what was asked for.
#[derive(Debug, Clone)]
pub struct ResponseError {
    /// The status of the response.
    pub status_code: u16,
    /// The body of the response, as text.
    pub text_body: String,
    /// The body of the response, where it is the body of an error.
    pub json_body: Option<Error>,
}

impl ResponseError {
    /// The text of the error.
    pub open spec fn text(self) -> Seq<char> {
        "Request failed with status "@ + decimal(self.status_code as nat) + " and body "@
            + self.text_body@
    }

    /// The text of the error.
    pub fn message(&self) -> (text: String)
        ensures
            text@ == self.text(),
    {
        let mut text = "Request failed with status ".to_string();
        push_decimal(&mut text, self.status_code);
        text.append(" and body ");
        text.append(self.text_body.as_str());
        text
    }
}

/// The method of a request.
#[derive(Debug, Clone, Copy, PartialEq, Eq, Structural)]
pub enum Method {
    Get,
    Post,
}

/// A request: its method and its address.
#[derive(Debug)]
pub struct Request {
    pub method: Method,
    pub url: String,
}

/// What is read from a response.
#[derive(Debug, Clone, Copy, PartialEq, Eq, Structural)]
pub enum Reads {
    /// The body that the operation asked for.
    Body,
    /// The body as a `ResponseError`.
    Failure,
}

/// What is read from a response with `status`: the body asked for with
/// status 200, and the failure otherwise.
pub fn reads(status: u16) -> (r: Reads)
    ensures
        r == if status == 200 {
            Reads::Body
        } else {
            Reads::Failure
        },
{
    if status == 200 {
        Reads::Body
    } else {
        Reads::Failure
    }
}

/// What a read makes of a response that failed: with status 404 and the
/// body of an error the key is not there; any other failure stands.
pub fn missing_or_failed(error: ResponseError) -> (r: Result<(), ResponseError>)
    ensures
        r == if error.status_code == 404 && error.json_body is Some {
            Ok::<(), ResponseError>(())
        } else {
            Err::<(), ResponseError>(error)
        },
{
    if error.status_code == 404 && error.json_body.is_some() {
        Ok(())
    } else {
        Err(error)
    }
}

/// The client of the node at one base address.
#[derive(Debug, Clone)]
pub struct Client {
    base_url: String,
    timeout: TimeSpan,
}

/// A client, as contracts see it.
pub struct ClientView {
    pub base_url: Seq<char>,
    pub timeout: TimeSpan,
}

impl View for Client {
    type V = ClientView;

    closed spec fn view(&self) -> ClientView {
        ClientView { base_url: self.base_url@, timeout: self.timeout }
    }
}

impl Default for Client {
    fn default() -> (client: Client)
        ensures
            client@.base_url == "http://localhost:3000/kv"@,
            client@.timeout == (TimeSpan { secs: DEFAULT_TIMEOUT_SECS, subsec_nanos: 0 }),
    {
        Client::new("http://localhost:3000/kv")
    }
}

impl Client {
    /// A client of the node at `base_url`, with requests that may take 90
    /// seconds.
    pub fn new(base_url: &str) -> (client: Client)
        ensures
            client@.base_url == base_url@,
            client@.timeout == (TimeSpan { secs: DEFAULT_TIMEOUT_SECS, subsec_nanos: 0 }),
    {
        Client::with_timeout(base_url, TimeSpan { secs: DEFAULT_TIMEOUT_SECS, subsec_nanos: 0 })
    }

    /// A client of the node at `base_url`, with requests that may take
    /// `timeout`.
    pub fn with_timeout(base_url: &str, timeout: TimeSpan) -> (client: Client)
        ensures
            client@.base_url == base_url@,
            client@.timeout == timeout,
    {
        Client { base_url: base_url.to_string(), timeout }
    }

    /// The base address of the node.
    pub fn base_url(&self) -> (url: &str)
        ensures
            url@ == self@.base_url,
    {
        self.base_url.as_str()
    }

    /// The time that a request may take.
    pub fn timeout(&self) -> (timeout: TimeSpan)
        ensures
            timeout == self@.timeout,
    {
        self.timeout
    }

    /// The address of the route at `path` under the base address.
    fn url(&self, path: &str) -> (url: String)
        ensures
            url@ == self@.base_url + path@,
    {
        self.base_url.clone().concat(path)
    }

    /// The address of the route of `key` under `prefix`.
    fn key_url(&self, prefix: &str, key: &Key) -> (url: String)
        ensures
            url@ == self@.base_url + prefix@ + hex::encoded(key@),
    {
        let text = key.to_hex();
        self.base_url.clone().concat(prefix).concat(text.as_str())
    }

    /// The request that asks the node for its run.
    pub fn run_id(&self) -> (request: Request)
        ensures
            request.method == Method::Get,
            request.url@ == self@.base_url + "/sync/run_id"@,
    {
        Request { method: Method::Get, url: self.url("/sync/run_id") }
    }

    /// The request that activates the node under `run_id`, and its body.
    pub fn activate(&self, run_id: RunId) -> (call: (Request, ActivateRequest))
        ensures
            call.0.method == Method::Post,
            call.0.url@ == self@.base_url + "/sync/activate"@,
            call.1.run_id == run_id,
    {
        (Request { method: Method::Post, url: self.url("/sync/activate") }, ActivateRequest { run_id })
    }

    /// The request that asks the node whether it is active.
    pub fn is_active(&self) -> (request: Request)
        ensures
            request.method == Method::Get,
            request.url@ == self@.base_url + "/sync/active"@,
    {
        Request { method: Method::Get, url: self.url("/sync/active") }
    }

    /// The request that reads the entry of the datum `key_data`, whose key
    /// is its SHA3-256 digest.
    pub fn get(&self, key_data: &[u8]) -> (request: Request)
        ensures
            request.method == Method::Get,
            request.url@ == self@.base_url + "/kv/"@ + hex::encoded(sha3_256(key_data@)),
    {
        self.get_raw(&Key::hashing(key_data))
    }

    /// The request that writes the entry of the datum `key_data`, whose
    /// key is its SHA3-256 digest.
    pub fn put(&self, key_data: &[u8]) -> (request: Request)
        ensures
            request.method == Method::Post,
            request.url@ == self@.base_url + "/kv/"@ + hex::encoded(sha3_256(key_data@)),
    {
        self.put_raw(&Key::hashing(key_data))
    }

    /// The request that reads the entry under `key` through the
    /// coordinator of the node.
    pub fn get_raw(&self, key: &Key) -> (request: Request)
        ensures
            request.method == Method::Get,
            request.url@ == self@.base_url + "/kv/"@ + hex::encoded(key@),
    {
        Request { method: Method::Get, url: self.key_url("/kv/", key) }
    }

    /// The request that writes the entry under `key` through the
    /// coordinator of the node.
    pub fn put_raw(&self, key: &Key) -> (request: Request)
        ensures
            request.method == Method::Post,
            request.url@ == self@.base_url + "/kv/"@ + hex::encoded(key@),
    {
        Request { method: Method::Post, url: self.key_url("/kv/", key) }
    }

    /// The request that reads the entry under `key` in the storage of the
    /// node itself.
    pub fn get_internal(&self, key: &Key) -> (request: Request)
        ensures
            request.method == Method::Get,
            request.url@ == self@.base_url + "/internal-kv/"@ + hex::encoded(key@),
    {
        Request { method: Method::Get, url: self.key_url("/internal-kv/", key) }
    }

    /// The request that writes the entry under `key` in the storage of
    /// the node itself.
    pub fn put_internal(&self, key: &Key) -> (request: Request)
        ensures
            request.method == Method::Post,
            request.url@ == self@.base_url + "/internal-kv/"@ + hex::encoded(key@),
    {
        Request { method: Method::Post, url: self.key_url("/internal-kv/", key) }
    }
}

} // verus!
