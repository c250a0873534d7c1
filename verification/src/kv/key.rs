//! The 256-bit key of an entry.

use crate::hex;
use crate::le::{
    le_value, lemma_le_value_bound, lemma_le_value_split, lemma_le_value_step, lemma_pow256,
    lemma_pow256_words, pow256,
};
use sha3::{Digest, Sha3_256};
use vstd::prelude::*;
use vstd::std_specs::cmp::PartialEqSpecImpl;

verus! {

/// The number of bytes in a key.
pub const KEY_SIZE: usize = 32;

/// The number of bytes of a machine word.
pub const INDEX_SIZE: usize = (usize::BITS / 8) as usize;

/// A string was not the hexadecimal form of a key.
#[derive(Debug, Clone, Copy)]
pub struct ParseKeyError;

impl ParseKeyError {
    /// The text of the error.
    pub fn message(&self) -> (text: String)
        ensures
            text@ == "string is not a valid hexadecimal key"@,
    {
        "string is not a valid hexadecimal key".to_string()
    }
}

/// A 256-bit identifier of an entry.
#[derive(Debug, Eq, PartialOrd, Ord, Hash)]
pub struct Key {
    bytes: [u8; KEY_SIZE],
}

impl View for Key {
    type V = Seq<u8>;

    closed spec fn view(&self) -> Seq<u8> {
        self.bytes@
    }
}

impl Clone for Key {
    fn clone(&self) -> (copy: Key)
        ensures
            copy == *self,
    {
        Key { bytes: self.bytes }
    }
}

impl Default for Key {
    fn default() -> (key: Key)
        ensures
            key@ == Seq::new(KEY_SIZE as nat, |i: int| 0u8),
    {
        let key = Key { bytes: [0u8; KEY_SIZE] };
        assert(key@ =~= Seq::new(KEY_SIZE as nat, |i: int| 0u8));
        key
    }
}

impl PartialEq for Key {
    fn eq(&self, other: &Key) -> (r: bool) {
        let mut i: usize = 0;
        while i < KEY_SIZE
            invariant
                i <= KEY_SIZE,
                forall|k: int| 0 <= k < i ==> self.bytes@[k] == other.bytes@[k],
            decreases KEY_SIZE - i,
        {
            if self.bytes[i] != other.bytes[i] {
                return false;
            }
            i += 1;
        }
        assert(self.bytes@ =~= other.bytes@);
        true
    }
}

impl PartialEqSpecImpl for Key {
    open spec fn obeys_eq_spec() -> bool {
        true
    }

    open spec fn eq_spec(&self, other: &Key) -> bool {
        self@ == other@
    }
}

impl core::str::FromStr for Key {
    type Err = ParseKeyError;

    /// Reads a key from exactly 64 hexadecimal digits of either case.
    fn from_str(text: &str) -> (r: Result<Key, ParseKeyError>)
        ensures
            r is Ok <==> hex::spells(text@, KEY_SIZE as nat),
            r matches Ok(key) ==> key@ == hex::decoded(text@),
    {
        Key::from_hex(text)
    }
}

/// What SHA3-256 makes of `data`: the 32 bytes of the digest.
pub uninterp spec fn sha3_256(data: Seq<u8>) -> Seq<u8>;

/// `Sha3_256` of the `sha3` crate, fed `data` in one piece and finalized.
/// The digest is a function of the data alone; which function is left to
/// the crate.
#[verifier::external_body]
fn sha3_256_digest(data: &[u8]) -> (digest: [u8; KEY_SIZE])
    ensures
        digest@ == sha3_256(data@),
{
    let mut hasher = Sha3_256::new();
    hasher.update(data);
    let mut digest = [0u8; KEY_SIZE];
    digest.copy_from_slice(hasher.finalize().as_slice());
    digest
}

impl Key {
    /// The number of bytes in a key.
    pub const SIZE: usize = KEY_SIZE;

    /// Every key is 32 bytes long.
    pub proof fn lemma_len(&self)
        ensures
            self@.len() == KEY_SIZE,
    {
    }

    /// Two keys with the same bytes are the same key.
    pub proof fn lemma_ext(&self, other: &Key)
        requires
            self@ == other@,
        ensures
            *self == *other,
    {
        assert(self.bytes@ == other.bytes@);
        assert(self.bytes == other.bytes);
    }

    /// Writing a key as text and reading the text gives the key back.
    pub proof fn lemma_from_hex_of_to_hex(&self)
        ensures
            hex::spells(hex::encoded(self@), KEY_SIZE as nat),
            hex::decoded(hex::encoded(self@)) == self@,
    {
        hex::lemma_parse_of_render(self@);
    }

    /// Reading a key from 64 hexadecimal digits and writing it as text
    /// gives the digits back, in lower case.
    pub proof fn lemma_to_hex_of_from_hex(text: Seq<char>)
        requires
            hex::spells(text, KEY_SIZE as nat),
        ensures
            hex::encoded(hex::decoded(text)) == hex::lowered(text),
    {
        hex::lemma_render_of_parse(text, KEY_SIZE as nat);
    }

    /// The key of a datum: the SHA3-256 digest of its bytes.
    pub fn hashing(key_data: &[u8]) -> (key: Key)
        ensures
            key@ == sha3_256(key_data@),
    {
        Key::from_bytes(sha3_256_digest(key_data))
    }

    /// The key with the given bytes.
    pub fn from_bytes(bytes: [u8; KEY_SIZE]) -> (key: Key)
        ensures
            key@ == bytes@,
    {
        Key { bytes }
    }

    /// The bytes of the key.
    pub fn as_bytes(&self) -> (bytes: &[u8; KEY_SIZE])
        ensures
            bytes@ == self@,
    {
        &self.bytes
    }

    /// The bytes of the key, by value.
    pub fn into_bytes(self) -> (bytes: [u8; KEY_SIZE])
        ensures
            bytes@ == self@,
    {
        self.bytes
    }

    /// Reads a key from exactly 64 hexadecimal digits of either case.
    pub fn from_hex(text: &str) -> (r: Result<Key, ParseKeyError>)
        ensures
            r is Ok <==> hex::spells(text@, KEY_SIZE as nat),
            r matches Ok(key) ==> key@ == hex::decoded(text@),
    {
        let mut bytes = [0u8; KEY_SIZE];
        if hex::parse(text, &mut bytes) {
            Ok(Key { bytes })
        } else {
            Err(ParseKeyError)
        }
    }

    /// The key as 64 lower-case hexadecimal digits.
    pub fn to_hex(&self) -> (text: String)
        ensures
            text@ == hex::encoded(self@),
    {
        hex::render(self.bytes.as_slice())
    }
}

/// Writes `n` as a number of 32 bytes, least significant byte first.
fn word_to_le(n: usize) -> (bytes: [u8; KEY_SIZE])
    ensures
        le_value(bytes@) == n,
{
    let mut bytes = [0u8; KEY_SIZE];
    let mut rest: usize = n;
    let mut i: usize = 0;
    proof {
        assert(bytes@.take(0) =~= Seq::<u8>::empty());
        assert(pow256(0) * rest == rest) by (nonlinear_arith)
            requires
                pow256(0) == 1,
        ;
    }
    while i < KEY_SIZE
        invariant
            i <= KEY_SIZE,
            le_value(bytes@.take(i as int)) + pow256(i as nat) * rest == n,
        decreases KEY_SIZE - i,
    {
        let ghost before = bytes@;
        bytes[i] = (rest % 256) as u8;
        proof {
            let p = pow256(i as nat);
            assert(bytes@.take(i as int) =~= before.take(i as int));
            lemma_le_value_step(bytes@, i as int);
            assert(pow256((i + 1) as nat) == 256 * p);
            assert(p * (rest % 256) + (256 * p) * (rest / 256) == p * rest) by (nonlinear_arith)
                requires
                    rest == 256 * (rest / 256) + rest % 256,
            ;
        }
        rest = rest / 256;
        i += 1;
    }
    proof {
        assert(bytes@.take(KEY_SIZE as int) =~= bytes@);
        lemma_pow256(8, 24);
        lemma_pow256(24, 0);
        lemma_pow256_words();
        assert(pow256(32) >= pow256(8)) by (nonlinear_arith)
            requires
                pow256(32) == pow256(8) * pow256(24),
                pow256(24) > 0,
                pow256(8) > 0,
        ;
        assert(rest == 0) by (nonlinear_arith)
            requires
                pow256(32) * rest <= n,
                n < pow256(32),
                rest >= 0,
        ;
        assert(pow256(32) * 0 == 0);
    }
    bytes
}

/// Reads the lowest machine word of a number of 32 bytes.
fn low_word(bytes: &[u8; KEY_SIZE]) -> (n: usize)
    ensures
        n == le_value(bytes@.take(INDEX_SIZE as int)),
{
    let mut n: usize = 0;
    let mut i: usize = INDEX_SIZE;
    let ghost low = bytes@.take(INDEX_SIZE as int);
    proof {
        assert(low.skip(INDEX_SIZE as int).len() == 0);
        lemma_le_value_bound(low);
        lemma_pow256_words();
        assert(pow256(INDEX_SIZE as nat) == usize::MAX + 1);
    }
    while i > 0
        invariant
            i <= INDEX_SIZE,
            INDEX_SIZE <= KEY_SIZE,
            low == bytes@.take(INDEX_SIZE as int),
            le_value(low) <= usize::MAX,
            n == le_value(low.skip(i as int)),
        decreases i,
    {
        i -= 1;
        proof {
            let tail = low.skip(i as int);
            assert(tail.skip(1) =~= low.skip(i + 1));
            assert(tail[0] == bytes@[i as int]);
            lemma_le_value_split(low, i as int);
            lemma_pow256(i as nat, 0);
            assert(pow256(i as nat) * le_value(tail) >= le_value(tail)) by (nonlinear_arith)
                requires
                    pow256(i as nat) > 0,
            ;
        }
        n = n * 256 + bytes[i] as usize;
    }
    proof {
        assert(low.skip(0) =~= low);
    }
    n
}

/// Numbers of the same width with the same value have the same bytes.
pub proof fn lemma_same_value_same_bytes(a: Seq<u8>, b: Seq<u8>)
    requires
        a.len() == b.len(),
        le_value(a) == le_value(b),
    ensures
        a == b,
    decreases a.len(),
{
    if a.len() > 0 {
        assert(a[0] as nat + 256 * le_value(a.skip(1)) == b[0] as nat + 256 * le_value(b.skip(1)));
        lemma_same_value_same_bytes(a.skip(1), b.skip(1));
        assert(a =~= seq![a[0]] + a.skip(1));
        assert(b =~= seq![b[0]] + b.skip(1));
    }
    assert(a =~= b);
}

impl Key {
    /// The index of the node that the key falls to among `nodes` nodes:
    /// the key, read as a number with the least significant byte first,
    /// modulo `nodes`. With no node at all the lowest machine word of the
    /// key comes back.
    pub fn partition(&self, nodes: usize) -> (index: usize)
        ensures
            nodes > 0 ==> index == le_value(self@) % (nodes as nat),
            nodes > 0 ==> index < nodes,
            nodes == 0 ==> index == le_value(self@.take(INDEX_SIZE as int)),
    {
        let divisor = word_to_le(nodes);
        let mut quotient = [0u8; KEY_SIZE];
        let mut remainder = [0u8; KEY_SIZE];
        hex::divide_le(&self.bytes, &divisor, &mut quotient, &mut remainder);
        proof {
            if nodes > 0 {
                let low = remainder@.take(INDEX_SIZE as int);
                let high = remainder@.skip(INDEX_SIZE as int);
                lemma_le_value_split(remainder@, INDEX_SIZE as int);
                lemma_pow256_words();
                assert(pow256(INDEX_SIZE as nat) == usize::MAX + 1);
                assert(le_value(remainder@) < nodes) by (nonlinear_arith)
                    requires
                        le_value(remainder@) == le_value(self.bytes@) % (nodes as nat),
                        nodes > 0,
                ;
                assert(le_value(high) == 0) by (nonlinear_arith)
                    requires
                        le_value(remainder@) == le_value(low) + pow256(INDEX_SIZE as nat)
                            * le_value(high),
                        le_value(remainder@) < pow256(INDEX_SIZE as nat),
                ;
                assert(pow256(INDEX_SIZE as nat) * 0 == 0);
            } else {
                lemma_same_value_same_bytes(remainder@, self.bytes@);
            }
        }
        low_word(&remainder)
    }
}

} // verus!
