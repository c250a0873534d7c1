//! The static cluster: its configuration and the bodies of the routes by
//! which a node checks and activates itself.

pub mod node_id;

use crate::random_id::RandomId;
use vstd::prelude::*;

verus! {

/// The identifier of one run of a node's process.
pub type RunId = RandomId<16>;

/// The cluster as every node reads it at startup.
#[derive(Debug, Clone, PartialEq, Eq, PartialOrd, Ord, Hash)]
pub struct ClusterConfig {
    /// The number of replicas of each key.
    pub replication: usize,
    /// The number of equal answers that a read needs.
    pub min_correct_reads: usize,
    /// The number of equal answers that a write needs.
    pub min_correct_writes: usize,
    /// The base address of each node; a node's index is its place here.
    pub addresses: Vec<String>,
}

/// The body of the reply that tells a node's run.
#[derive(Debug, Clone, Copy, PartialEq, Eq)]
pub struct RunIdResponse {
    pub run_id: RunId,
}

/// The body of the request that activates a node.
#[derive(Debug, Clone, Copy, PartialEq, Eq)]
pub struct ActivateRequest {
    pub run_id: RunId,
}

/// The body of the reply that tells whether a node is active.
#[derive(Debug, Clone, Copy, PartialEq, Eq, Structural)]
pub struct IsActiveResponse {
    pub is_active: bool,
}

/// The body of the reply to an activation.
pub type ActivateResponse = IsActiveResponse;

/// Why a node cannot take its place in the cluster.
#[derive(Debug, Clone, Copy, PartialEq, Eq, Structural)]
pub enum ConfigError {
    /// The node's index is not one of the cluster's.
    SelfIdOutOfRange,
}

impl ConfigError {
    /// The text of the error.
    pub fn message(&self) -> (text: String)
        ensures
            text@ == "self-id is too big"@,
    {
        "self-id is too big".to_string()
    }
}

/// What a node's table of storages holds at one index.
#[derive(Debug, PartialEq, Eq)]
pub enum Peer {
    /// The node's own storage, reached in the process.
    Local,
    /// Another node, reached at its base address.
    Remote(String),
}

impl ClusterConfig {
    /// The table of storages of the node with index `self_id`: one peer
    /// for each address, in order, with the node's own storage at its own
    /// index and every other node reached at its address. Fails where
    /// `self_id` is not an index of the cluster.
    pub fn peers(&self, self_id: usize) -> (r: Result<Vec<Peer>, ConfigError>)
        ensures
            r is Ok <==> self_id < self.addresses@.len(),
            r matches Ok(peers) ==> {
                &&& peers@.len() == self.addresses@.len()
                &&& peers@[self_id as int] == Peer::Local
                &&& forall|i: int|
                    0 <= i < peers@.len() && i != self_id ==> #[trigger] peers@[i] == Peer::Remote(
                        self.addresses@[i],
                    )
            },
            r matches Err(error) ==> error == ConfigError::SelfIdOutOfRange,
    {
        if self_id >= self.addresses.len() {
            return Err(ConfigError::SelfIdOutOfRange);
        }
        let mut peers: Vec<Peer> = Vec::new();
        let mut i: usize = 0;
        while i < self.addresses.len()
            invariant
                i <= self.addresses@.len(),
                peers@.len() == i,
                forall|k: int|
                    0 <= k < i ==> #[trigger] peers@[k] == if k == self_id {
                        Peer::Local
                    } else {
                        Peer::Remote(self.addresses@[k])
                    },
            decreases self.addresses@.len() - i,
        {
            if i == self_id {
                peers.push(Peer::Local);
            } else {
                peers.push(Peer::Remote(self.addresses[i].clone()));
            }
            i += 1;
        }
        Ok(peers)
    }

    /// The base address of the node with index `self_id`.
    pub fn self_base_url(&self, self_id: usize) -> (r: Result<String, ConfigError>)
        ensures
            r is Ok <==> self_id < self.addresses@.len(),
            r matches Ok(url) ==> url == self.addresses@[self_id as int],
            r matches Err(error) ==> error == ConfigError::SelfIdOutOfRange,
    {
        if self_id >= self.addresses.len() {
            return Err(ConfigError::SelfIdOutOfRange);
        }
        Ok(self.addresses[self_id].clone())
    }
}

} // verus!
