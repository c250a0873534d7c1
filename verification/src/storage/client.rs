//! A storage that is another node, reached through its client.

use super::Get;
use super::Put;
use crate::client::{Client, Method, Request};
use crate::duration::TimeSpan;
use crate::hex;
use vstd::prelude::*;

verus! {

/// The storage of another node.
#[derive(Debug, Clone)]
pub struct ClientStorage {
    client: Client,
}

impl View for ClientStorage {
    type V = crate::client::ClientView;

    closed spec fn view(&self) -> crate::client::ClientView {
        self.client@
    }
}

impl ClientStorage {
    /// The storage of the node at `base_url`, with requests that may take
    /// 90 seconds.
    pub fn open(base_url: &str) -> (storage: ClientStorage)
        ensures
            storage@.base_url == base_url@,
            storage@.timeout == (TimeSpan {
                secs: crate::client::DEFAULT_TIMEOUT_SECS,
                subsec_nanos: 0,
            }),
    {
        ClientStorage { client: Client::new(base_url) }
    }

    /// The storage of the node at `base_url`, with requests that may take
    /// `timeout`.
    pub fn open_with_timeout(base_url: &str, timeout: TimeSpan) -> (storage: ClientStorage)
        ensures
            storage@.base_url == base_url@,
            storage@.timeout == timeout,
    {
        ClientStorage { client: Client::with_timeout(base_url, timeout) }
    }

    /// The client of the other node.
    pub fn client(&self) -> (client: &Client)
        ensures
            client@ == self@,
    {
        &self.client
    }

    /// The request that a read makes: to the storage of the other node
    /// itself, not to its coordinator.
    pub fn get(&self, request: &Get) -> (r: Request)
        ensures
            r.method == Method::Get,
            r.url@ == self@.base_url + "/internal-kv/"@ + hex::encoded(request.key@),
    {
        self.client.get_internal(&request.key)
    }

    /// The request that a write makes: to the storage of the other node
    /// itself, not to its coordinator.
    pub fn put(&self, request: &Put) -> (r: Request)
        ensures
            r.method == Method::Post,
            r.url@ == self@.base_url + "/internal-kv/"@ + hex::encoded(request.key@),
    {
        self.client.put_internal(&request.key)
    }
}

} // verus!
