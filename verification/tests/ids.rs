use spalhad::cluster::node_id::{NodeId, ParseNodeIdError};
use spalhad::cluster::{ClusterConfig, ConfigError, Peer, RunId};
use spalhad::random_id::{GenRandomIdError, ParseRandomIdError, RandomId};

#[test]
fn random_id_bytes_round_trip() {
    let id = RandomId::<4>::from_bytes([1, 2, 3, 4]);
    assert_eq!(id.as_bytes(), &[1, 2, 3, 4]);
    assert_eq!(id.as_slice(), &[1, 2, 3, 4][..]);
    assert_eq!(id.into_bytes(), [1, 2, 3, 4]);
}

#[test]
fn random_id_hex_round_trip() {
    let id = RunId::from_bytes([0xab; 16]);
    assert_eq!(id.to_hex(), "ab".repeat(16));
    assert_eq!(RunId::from_hex(&id.to_hex()).unwrap(), id);
    let parsed: RunId = "ABababABababABababABababABababAB".parse().unwrap();
    assert_eq!(parsed, id);
}

#[test]
fn random_id_rejects_bad_text() {
    assert!(RunId::from_hex("").is_err());
    assert!(RunId::from_hex(&"0".repeat(31)).is_err());
    assert!(RunId::from_hex(&"0".repeat(33)).is_err());
    assert!(RunId::from_hex(&"x".repeat(32)).is_err());
    assert_eq!(ParseRandomIdError.message(), "string is not a valid hexadecimal key");
}

#[test]
fn random_id_equality_is_over_bytes() {
    assert_eq!(RunId::from_bytes([7; 16]), RunId::from_bytes([7; 16]));
    let mut bytes = [7u8; 16];
    bytes[15] = 8;
    assert_ne!(RunId::from_bytes([7; 16]), RunId::from_bytes(bytes));
}

#[test]
fn random_id_generate_gives_fresh_ids() {
    let a = RunId::generate().unwrap();
    let b = RunId::generate().unwrap();
    let c = RunId::generate().unwrap();
    assert!(a != b || b != c);
    assert_ne!(a, RunId::from_bytes([0; 16]));
}

#[test]
fn node_id_bytes_and_hex() {
    let id = NodeId::from_bytes([0x5a; 16]);
    assert_eq!(id.as_bytes(), &[0x5a; 16]);
    assert_eq!(id.into_bytes(), [0x5a; 16]);
    assert_eq!(id.to_hex(), "5a".repeat(16));
    assert_eq!(NodeId::from_hex(&"5A".repeat(16)).unwrap(), id);
    assert!(NodeId::from_hex("5a").is_err());
    assert_eq!(ParseNodeIdError.message(), "string is not a valid hexadecimal key");
}

#[test]
fn node_id_generate_gives_fresh_ids() {
    let a = NodeId::generate().unwrap();
    let b = NodeId::generate().unwrap();
    let c = NodeId::generate().unwrap();
    assert!(a != b || b != c);
}

fn config(addresses: &[&str]) -> ClusterConfig {
    ClusterConfig {
        replication: 2,
        min_correct_reads: 1,
        min_correct_writes: 1,
        addresses: addresses.iter().map(|a| a.to_string()).collect(),
    }
}

#[test]
fn cluster_peers_put_self_in_its_place() {
    let config = config(&["http://a:1", "http://b:2", "http://c:3"]);
    assert_eq!(
        config.peers(1),
        Ok(vec![
            Peer::Remote("http://a:1".to_string()),
            Peer::Local,
            Peer::Remote("http://c:3".to_string()),
        ])
    );
    assert_eq!(config.self_base_url(2), Ok("http://c:3".to_string()));
}

#[test]
fn cluster_self_id_out_of_range() {
    let config = config(&["http://a:1", "http://b:2"]);
    assert_eq!(config.peers(2), Err(ConfigError::SelfIdOutOfRange));
    assert_eq!(config.self_base_url(2), Err(ConfigError::SelfIdOutOfRange));
    assert_eq!(config.peers(usize::MAX), Err(ConfigError::SelfIdOutOfRange));
    let empty = self::config(&[]);
    assert_eq!(empty.peers(0), Err(ConfigError::SelfIdOutOfRange));
    assert_eq!(ConfigError::SelfIdOutOfRange.message(), "self-id is too big");
}

#[test]
fn random_id_conversions() {
    let id: RandomId<3> = [1u8, 2, 3].into();
    assert_eq!(id, RandomId::from_bytes([1, 2, 3]));
    let bytes: [u8; 3] = id.into();
    assert_eq!(bytes, [1, 2, 3]);
    let array: &[u8; 3] = id.as_ref();
    assert_eq!(array, &[1, 2, 3]);
    let slice: &[u8] = id.as_ref();
    assert_eq!(slice, &[1, 2, 3][..]);
}

#[test]
fn ids_parse_with_from_str() {
    let node: NodeId = "5a".repeat(16).parse().unwrap();
    assert_eq!(node, NodeId::from_bytes([0x5a; 16]));
    assert!("5a".parse::<NodeId>().is_err());
    assert!("zz".repeat(16).parse::<NodeId>().is_err());
    let run: RunId = "0F".repeat(16).parse().unwrap();
    assert_eq!(run, RunId::from_bytes([0x0f; 16]));
    assert!("0f".repeat(15).parse::<RunId>().is_err());
}

#[test]
fn random_id_generation_error_message() {
    let error = GenRandomIdError { cause: "no entropy".to_string() };
    assert_eq!(error.message(), "failed to generate random ID");
    assert_eq!(error.cause, "no entropy");
}
