use serde_json::Value;
use spalhad::bouncer::{Activate, Bouncer, Incoming, IsActive, Verdict};
use spalhad::cluster::{IsActiveResponse, RunId};
use spalhad::coordinator::{self, Coordinator, ReadAction, WriteAction};
use spalhad::error::CallError;
use spalhad::http::{self, Rejection};
use spalhad::kv::{GetResponse, PutRequest, PutResponse};
use spalhad::storage::{self, MemoryStorage};
use spalhad::Error;

fn json(text: &str) -> Value {
    serde_json::from_str(text).unwrap()
}

/// One node of a cluster in one process: its bouncer, its storage and
/// its coordinator. A node that is down answers no call.
struct Node {
    run_id: RunId,
    bouncer: Bouncer,
    storage: MemoryStorage,
    coordinator: Coordinator,
    up: bool,
}

struct Cluster {
    nodes: Vec<Node>,
}

impl Cluster {
    fn new(n: usize, replication: usize, reads: usize, writes: usize) -> Cluster {
        let nodes = (0..n)
            .map(|i| {
                let run_id = RunId::from_bytes([i as u8 + 1; 16]);
                Node {
                    run_id,
                    bouncer: Bouncer::open(run_id),
                    storage: MemoryStorage::open(),
                    coordinator: Coordinator::new(replication, reads, writes, 4, n),
                    up: true,
                }
            })
            .collect();
        Cluster { nodes }
    }

    /// What the self-activation task of each node does at startup.
    fn activate_all(&mut self) {
        for node in &mut self.nodes {
            let call = Incoming::Activate(Activate { run_id: node.run_id });
            assert!(matches!(node.bouncer.decide(&call), Verdict::ReplyActivated(_)));
        }
    }

    /// A call to the storage of `to`, made by the coordinator of `from`:
    /// in the process for the node itself, and through the internal route
    /// of the other node, behind its bouncer, otherwise.
    fn storage_get(&mut self, from: usize, to: usize, message: storage::Get) -> Option<Option<Value>> {
        let node = &mut self.nodes[to];
        if from != to {
            if !node.up {
                return None;
            }
            match node.bouncer.decide(&Incoming::Storage) {
                Verdict::ForwardToStorage => {},
                _ => return None,
            }
        }
        Some(node.storage.get(&message))
    }

    fn storage_put(&mut self, from: usize, to: usize, message: storage::Put) -> Option<bool> {
        let node = &mut self.nodes[to];
        if from != to {
            if !node.up {
                return None;
            }
            match node.bouncer.decide(&Incoming::Storage) {
                Verdict::ForwardToStorage => {},
                _ => return None,
            }
        }
        Some(node.storage.put(message))
    }

    /// `GET /kv/<key>` on node `at`.
    fn get(&mut self, at: usize, key: &str) -> Result<GetResponse<Value>, Rejection> {
        let key = http::key_of_path(key)?;
        let outcome = match self.nodes[at].bouncer.decide(&Incoming::Coordinator) {
            Verdict::ForwardToCoordinator => {
                let mut read = self.nodes[at].coordinator.get(coordinator::Get { key });
                loop {
                    match read.next() {
                        ReadAction::Ask { node, message } => {
                            let answer = self.storage_get(at, node, message);
                            read.record(answer);
                        },
                        ReadAction::Reply(reply) => break reply.map_err(CallError::Coordinator),
                    }
                }
            },
            Verdict::ReplyError(error) => Err(CallError::Bouncer(error)),
            other => panic!("unexpected verdict {:?}", other),
        };
        http::get_by_key(outcome)
    }

    /// `POST /kv/<key>` on node `at`.
    fn put(&mut self, at: usize, key: &str, body: PutRequest<Value>) -> Result<PutResponse, Rejection> {
        let key = http::key_of_path(key)?;
        let outcome = match self.nodes[at].bouncer.decide(&Incoming::Coordinator) {
            Verdict::ForwardToCoordinator => {
                let request = coordinator::Put { key, value: body.value };
                let mut write = self.nodes[at].coordinator.put(request);
                for j in 0..write.replication() {
                    let (node, message) = write.call(j);
                    let answer = self.storage_put(at, node, message);
                    write.record(answer);
                }
                match write.next() {
                    WriteAction::Reply(reply) => reply.map_err(CallError::Coordinator),
                    WriteAction::Wait => panic!("every replica has answered"),
                }
            },
            Verdict::ReplyError(error) => Err(CallError::Bouncer(error)),
            other => panic!("unexpected verdict {:?}", other),
        };
        http::put_by_key(outcome)
    }

    /// `GET /sync/active` on node `at`.
    fn is_active(&mut self, at: usize) -> Result<IsActiveResponse, Rejection> {
        let outcome = match self.nodes[at].bouncer.decide(&Incoming::IsActive(IsActive)) {
            Verdict::ReplyIsActive(active) => Ok(active),
            other => panic!("unexpected verdict {:?}", other),
        };
        http::is_active(outcome)
    }
}

const KEY: &str = "1f2e3d4c5b6a79881f2e3d4c5b6a79881f2e3d4c5b6a79881f2e3d4c5b6a7988";

#[test]
fn memory_put_get() {
    let mut cluster = Cluster::new(2, 2, 1, 1);
    cluster.activate_all();
    let body = PutRequest { value: json(r#"{"x":1}"#) };
    assert_eq!(cluster.put(0, KEY, body), Ok(PutResponse { new: true }));
    assert_eq!(cluster.get(1, KEY), Ok(GetResponse { value: json(r#"{"x":1}"#) }));
}

#[test]
fn overwrite_reports_new_false() {
    let mut cluster = Cluster::new(2, 2, 1, 1);
    cluster.activate_all();
    cluster.put(0, KEY, PutRequest { value: json(r#"{"x":1}"#) }).unwrap();
    let body = PutRequest { value: json(r#"{"x":2}"#) };
    assert_eq!(cluster.put(0, KEY, body), Ok(PutResponse { new: false }));
    assert_eq!(cluster.get(0, KEY), Ok(GetResponse { value: json(r#"{"x":2}"#) }));
    assert_eq!(cluster.get(1, KEY), Ok(GetResponse { value: json(r#"{"x":2}"#) }));
}

#[test]
fn not_found() {
    let mut cluster = Cluster::new(2, 2, 1, 1);
    cluster.activate_all();
    let (status, body) = cluster.get(0, &"0".repeat(64)).unwrap_err();
    assert_eq!(status, 404);
    assert!(body.trace.iter().any(|cause| cause.contains("key not found")));
    assert_eq!(body, Error { trace: vec!["key not found".to_string()] });
}

#[test]
fn bouncer_rejects_pre_activation() {
    let mut cluster = Cluster::new(1, 1, 1, 1);
    let (status, body) = cluster.get(0, KEY).unwrap_err();
    assert_eq!(status, 400);
    assert!(body.trace.iter().any(|cause| cause.contains("not active")));
    let (status, _) = cluster.put(0, KEY, PutRequest { value: Value::Null }).unwrap_err();
    assert_eq!(status, 400);
    assert_eq!(cluster.is_active(0), Ok(IsActiveResponse { is_active: false }));
    cluster.activate_all();
    assert_eq!(cluster.is_active(0), Ok(IsActiveResponse { is_active: true }));
    assert_eq!(cluster.get(0, KEY).unwrap_err().0, 404);
}

fn seed(cluster: &mut Cluster, node: usize, key: &str, value: &str) {
    let key = http::key_of_path(key).unwrap();
    cluster.nodes[node].storage.put(storage::Put { key, value: json(value) });
}

#[test]
fn quorum_read_disagreement() {
    let mut cluster = Cluster::new(3, 3, 2, 2);
    cluster.activate_all();
    seed(&mut cluster, 0, KEY, r#"{"v":1}"#);
    seed(&mut cluster, 1, KEY, r#"{"v":1}"#);
    seed(&mut cluster, 2, KEY, r#"{"v":2}"#);
    for at in 0..3 {
        assert_eq!(cluster.get(at, KEY), Ok(GetResponse { value: json(r#"{"v":1}"#) }));
    }
}

#[test]
fn quorum_read_without_consensus() {
    let mut cluster = Cluster::new(3, 3, 2, 2);
    cluster.activate_all();
    seed(&mut cluster, 2, KEY, r#"{"v":2}"#);
    cluster.nodes[0].up = false;
    cluster.nodes[1].up = false;
    let (status, body) = cluster.get(2, KEY).unwrap_err();
    assert_eq!(status, 500);
    assert_eq!(body, Error { trace: vec!["Failed to get consensus".to_string()] });
}

#[test]
fn quorum_read_with_two_not_found_votes() {
    let mut cluster = Cluster::new(3, 3, 2, 2);
    cluster.activate_all();
    seed(&mut cluster, 2, KEY, r#"{"v":2}"#);
    for at in 0..3 {
        let (status, body) = cluster.get(at, KEY).unwrap_err();
        assert_eq!(status, 404);
        assert_eq!(body, Error { trace: vec!["key not found".to_string()] });
    }
}

#[test]
fn malformed_key_is_a_bad_request() {
    let mut cluster = Cluster::new(1, 1, 1, 1);
    cluster.activate_all();
    assert_eq!(cluster.get(0, "not-a-key").unwrap_err().0, 400);
    assert_eq!(cluster.put(0, "abc", PutRequest { value: Value::Null }).unwrap_err().0, 400);
}

#[test]
fn write_fails_when_peers_are_not_active() {
    let mut cluster = Cluster::new(3, 3, 2, 2);
    let call = Incoming::Activate(Activate { run_id: cluster.nodes[0].run_id });
    cluster.nodes[0].bouncer.decide(&call);
    let (status, body) = cluster.put(0, KEY, PutRequest { value: json("1") }).unwrap_err();
    assert_eq!(status, 500);
    assert_eq!(body, Error { trace: vec!["Failed to get consensus".to_string()] });
}
