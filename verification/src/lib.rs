//! A replicated, partitioned JSON key-value store: the verified core.
//!
//! The modules hold the data types, the codecs and the decision procedures
//! of a node. Everything that waits on a socket, a file or a mailbox lives
//! outside this crate and drives the state machines defined here.

pub mod actor;
pub mod hex;
pub mod le;
pub mod kv;
pub mod json;
pub mod storage;
pub mod coordinator;
pub mod duration;
pub mod random_id;
pub mod replication;
pub mod cluster;
pub mod bouncer;
pub mod client;
pub mod error;
pub mod http;
pub mod sync;
pub mod task;

pub use error::Error;
