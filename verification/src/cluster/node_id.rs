//! The identifier of a node.

use crate::hex;
use vstd::prelude::*;
use vstd::std_specs::cmp::PartialEqSpecImpl;

verus! {

/// The number of bytes in the identifier of a node.
pub const NODE_ID_SIZE: usize = 16;

/// The system gave no random bytes for an identifier; the text is the
/// cause.
#[derive(Debug)]
pub struct GenNodeIdError {
    pub cause: String,
}

impl GenNodeIdError {
    /// The text of the error.
    pub fn message(&self) -> (text: String)
        ensures
            text@ == "failed to generate node ID"@,
    {
        "failed to generate node ID".to_string()
    }
}

/// A string was not the hexadecimal form of the identifier of a node.
#[derive(Debug, Clone, Copy)]
pub struct ParseNodeIdError;

impl ParseNodeIdError {
    /// The text of the error.
    pub fn message(&self) -> (text: String)
        ensures
            text@ == "string is not a valid hexadecimal key"@,
    {
        "string is not a valid hexadecimal key".to_string()
    }
}

/// The identifier of a node: 16 random bytes.
#[derive(Debug, Clone, Copy, Eq, PartialOrd, Ord, Hash)]
pub struct NodeId {
    bytes: [u8; NODE_ID_SIZE],
}

impl View for NodeId {
    type V = Seq<u8>;

    closed spec fn view(&self) -> Seq<u8> {
        self.bytes@
    }
}

impl PartialEq for NodeId {
    fn eq(&self, other: &NodeId) -> (r: bool) {
        let mut i: usize = 0;
        while i < NODE_ID_SIZE
            invariant
                i <= NODE_ID_SIZE,
                forall|k: int| 0 <= k < i ==> self.bytes@[k] == other.bytes@[k],
            decreases NODE_ID_SIZE - i,
        {
            if self.bytes[i] != other.bytes[i] {
                return false;
            }
            i += 1;
        }
        assert(self.bytes@ =~= other.bytes@);
        true
    }
}

impl PartialEqSpecImpl for NodeId {
    open spec fn obeys_eq_spec() -> bool {
        true
    }

    open spec fn eq_spec(&self, other: &NodeId) -> bool {
        self@ == other@
    }
}

impl core::str::FromStr for NodeId {
    type Err = ParseNodeIdError;

    /// Reads an identifier from exactly 32 hexadecimal digits of either
    /// case.
    fn from_str(text: &str) -> (r: Result<NodeId, ParseNodeIdError>)
        ensures
            r is Ok <==> hex::spells(text@, NODE_ID_SIZE as nat),
            r matches Ok(id) ==> id@ == hex::decoded(text@),
    {
        NodeId::from_hex(text)
    }
}

/// `getrandom::fill` on 16 bytes: the bytes as the system filled them, or
/// the text of the crate's error. Nothing is known of the bytes.
#[verifier::external_body]
fn system_random_bytes() -> (r: Result<[u8; NODE_ID_SIZE], String>) {
    let mut bytes = [0u8; NODE_ID_SIZE];
    match getrandom::fill(&mut bytes) {
        Ok(()) => Ok(bytes),
        Err(error) => Err(getrandom::Error::to_string(&error)),
    }
}

/// `outcome` is what the system gave when it was asked for the random
/// bytes of an identifier: the bytes, or why there are none. Which of the
/// two it is, and which bytes, is the system's to say.
pub closed spec fn asked(outcome: Result<[u8; NODE_ID_SIZE], String>) -> bool {
    call_ensures(system_random_bytes, (), outcome)
}

impl NodeId {
    /// The number of bytes in the identifier of a node.
    pub const SIZE: usize = NODE_ID_SIZE;

    /// A fresh identifier from the random bytes of the system. It
    /// succeeds exactly when the system gives the bytes, and then holds
    /// them; otherwise the error carries the system's cause.
    pub fn generate() -> (r: Result<NodeId, GenNodeIdError>)
        ensures
            exists|outcome: Result<[u8; NODE_ID_SIZE], String>| #[trigger]
                asked(outcome) && match outcome {
                    Ok(bytes) => r is Ok && r->Ok_0@ == bytes@,
                    Err(cause) => r is Err && r->Err_0.cause == cause,
                },
    {
        let outcome = system_random_bytes();
        assert(asked(outcome));
        match outcome {
            Ok(bytes) => Ok(NodeId { bytes }),
            Err(cause) => Err(GenNodeIdError { cause }),
        }
    }

    /// The identifier with the given bytes.
    pub fn from_bytes(bytes: [u8; NODE_ID_SIZE]) -> (id: NodeId)
        ensures
            id@ == bytes@,
    {
        NodeId { bytes }
    }

    /// The bytes of the identifier.
    pub fn as_bytes(&self) -> (bytes: &[u8; NODE_ID_SIZE])
        ensures
            bytes@ == self@,
    {
        &self.bytes
    }

    /// The bytes of the identifier, by value.
    pub fn into_bytes(self) -> (bytes: [u8; NODE_ID_SIZE])
        ensures
            bytes@ == self@,
    {
        self.bytes
    }

    /// Reads an identifier from exactly 32 hexadecimal digits of either
    /// case.
    pub fn from_hex(text: &str) -> (r: Result<NodeId, ParseNodeIdError>)
        ensures
            r is Ok <==> hex::spells(text@, NODE_ID_SIZE as nat),
            r matches Ok(id) ==> id@ == hex::decoded(text@),
    {
        let mut bytes = [0u8; NODE_ID_SIZE];
        if hex::parse(text, &mut bytes) {
            Ok(NodeId { bytes })
        } else {
            Err(ParseNodeIdError)
        }
    }

    /// The identifier as 32 lower-case hexadecimal digits.
    pub fn to_hex(&self) -> (text: String)
        ensures
            text@ == hex::encoded(self@),
    {
        hex::render(self.bytes.as_slice())
    }
}

} // verus!
