//! Identifiers of a fixed number of random bytes.

use crate::hex;
use rand::{Rng, SeedableRng};
use rand_chacha::ChaCha20Rng;
use vstd::prelude::*;
use vstd::std_specs::cmp::PartialEqSpecImpl;
use vstd::std_specs::convert::FromSpecImpl;

verus! {

/// The system gave no random bytes for an identifier; the text is the
/// cause.
#[derive(Debug)]
pub struct GenRandomIdError {
    pub cause: String,
}

impl GenRandomIdError {
    /// The text of the error.
    pub fn message(&self) -> (text: String)
        ensures
            text@ == "failed to generate random ID"@,
    {
        "failed to generate random ID".to_string()
    }
}

/// A string was not the hexadecimal form of an identifier.
#[derive(Debug, Clone, Copy)]
pub struct ParseRandomIdError;

impl ParseRandomIdError {
    /// The text of the error.
    pub fn message(&self) -> (text: String)
        ensures
            text@ == "string is not a valid hexadecimal key"@,
    {
        "string is not a valid hexadecimal key".to_string()
    }
}

/// An identifier of `N` random bytes.
#[derive(Debug, Clone, Copy, Eq, PartialOrd, Ord, Hash)]
pub struct RandomId<const N: usize> {
    bytes: [u8; N],
}

impl<const N: usize> View for RandomId<N> {
    type V = Seq<u8>;

    closed spec fn view(&self) -> Seq<u8> {
        self.bytes@
    }
}

impl<const N: usize> PartialEq for RandomId<N> {
    fn eq(&self, other: &RandomId<N>) -> (r: bool) {
        let mut i: usize = 0;
        while i < N
            invariant
                i <= N,
                forall|k: int| 0 <= k < i ==> self.bytes@[k] == other.bytes@[k],
            decreases N - i,
        {
            if self.bytes[i] != other.bytes[i] {
                return false;
            }
            i += 1;
        }
        assert(self.bytes@ =~= other.bytes@);
        true
    }
}

impl<const N: usize> PartialEqSpecImpl for RandomId<N> {
    open spec fn obeys_eq_spec() -> bool {
        true
    }

    open spec fn eq_spec(&self, other: &RandomId<N>) -> bool {
        self@ == other@
    }
}

impl<const N: usize> From<[u8; N]> for RandomId<N> {
    fn from(bytes: [u8; N]) -> (id: RandomId<N>)
        ensures
            id@ == bytes@,
    {
        RandomId { bytes }
    }
}

impl<const N: usize> FromSpecImpl<[u8; N]> for RandomId<N> {
    open spec fn obeys_from_spec() -> bool {
        true
    }

    closed spec fn from_spec(bytes: [u8; N]) -> RandomId<N> {
        RandomId { bytes }
    }
}

impl<const N: usize> From<RandomId<N>> for [u8; N] {
    fn from(id: RandomId<N>) -> (bytes: [u8; N])
        ensures
            bytes@ == id@,
    {
        id.bytes
    }
}

impl<const N: usize> FromSpecImpl<RandomId<N>> for [u8; N] {
    open spec fn obeys_from_spec() -> bool {
        true
    }

    closed spec fn from_spec(id: RandomId<N>) -> [u8; N] {
        id.bytes
    }
}

impl<const N: usize> AsRef<[u8; N]> for RandomId<N> {
    /// The bytes of the identifier.
    fn as_ref(&self) -> (bytes: &[u8; N])
        ensures
            <[u8; N] as View>::view(bytes) == self@,
    {
        self.as_bytes()
    }
}

impl<const N: usize> AsRef<[u8]> for RandomId<N> {
    /// The bytes of the identifier, as a slice.
    fn as_ref(&self) -> (bytes: &[u8])
        ensures
            <[u8] as View>::view(bytes) == self@,
    {
        self.as_slice()
    }
}

impl<const N: usize> core::str::FromStr for RandomId<N> {
    type Err = ParseRandomIdError;

    /// Reads an identifier from exactly `2 * N` hexadecimal digits of
    /// either case.
    fn from_str(text: &str) -> (r: Result<RandomId<N>, ParseRandomIdError>)
        ensures
            r is Ok <==> hex::spells(text@, N as nat),
            r matches Ok(id) ==> id@ == hex::decoded(text@),
    {
        RandomId::from_hex(text)
    }
}

/// A `ChaCha20Rng` of the `rand_chacha` crate, seeded by
/// `SeedableRng::try_from_os_rng`, fills the bytes through `Rng::fill`.
/// Where the system gives no entropy for the seed, the text of its error
/// comes back. Nothing is known of the bytes.
#[verifier::external_body]
fn random_bytes<const N: usize>() -> (r: Result<[u8; N], String>) {
    match ChaCha20Rng::try_from_os_rng() {
        Ok(mut rng) => {
            let mut bytes = [0u8; N];
            rng.fill(&mut bytes);
            Ok(bytes)
        },
        Err(error) => Err(error.to_string()),
    }
}

/// `outcome` is what the generator gave when it was asked to fill an
/// identifier: the bytes, or why there are none. Which of the two it is,
/// and which bytes, is the generator's to say.
pub closed spec fn drawn<const N: usize>(outcome: Result<[u8; N], String>) -> bool {
    call_ensures(random_bytes::<N>, (), outcome)
}

impl<const N: usize> RandomId<N> {
    /// Every identifier is `N` bytes long.
    pub proof fn lemma_len(&self)
        ensures
            self@.len() == N,
    {
    }

    /// Two identifiers with the same bytes are the same identifier.
    pub proof fn lemma_ext(&self, other: &RandomId<N>)
        requires
            self@ == other@,
        ensures
            *self == *other,
    {
        assert(self.bytes@ == other.bytes@);
        assert(self.bytes == other.bytes);
    }

    /// A fresh identifier from a generator seeded by the system. It
    /// succeeds exactly when the generator gives the bytes, and then
    /// holds them; otherwise the error carries the system's cause.
    pub fn generate() -> (r: Result<RandomId<N>, GenRandomIdError>)
        ensures
            exists|outcome: Result<[u8; N], String>| #[trigger]
                drawn(outcome) && match outcome {
                    Ok(bytes) => r is Ok && r->Ok_0@ == bytes@,
                    Err(cause) => r is Err && r->Err_0.cause == cause,
                },
    {
        let outcome = random_bytes();
        assert(drawn(outcome));
        match outcome {
            Ok(bytes) => Ok(RandomId::from_bytes(bytes)),
            Err(cause) => Err(GenRandomIdError { cause }),
        }
    }

    /// The identifier with the given bytes.
    pub fn from_bytes(bytes: [u8; N]) -> (id: RandomId<N>)
        ensures
            id@ == bytes@,
    {
        RandomId { bytes }
    }

    /// The bytes of the identifier.
    pub fn as_bytes(&self) -> (bytes: &[u8; N])
        ensures
            bytes@ == self@,
    {
        &self.bytes
    }

    /// The bytes of the identifier, as a slice.
    pub fn as_slice(&self) -> (bytes: &[u8])
        ensures
            bytes@ == self@,
    {
        self.bytes.as_slice()
    }

    /// The bytes of the identifier, by value.
    pub fn into_bytes(self) -> (bytes: [u8; N])
        ensures
            bytes@ == self@,
    {
        self.bytes
    }

    /// Reads an identifier from exactly `2 * N` hexadecimal digits of
    /// either case.
    pub fn from_hex(text: &str) -> (r: Result<RandomId<N>, ParseRandomIdError>)
        ensures
            r is Ok <==> hex::spells(text@, N as nat),
            r matches Ok(id) ==> id@ == hex::decoded(text@),
    {
        let mut bytes = [0u8; N];
        if hex::parse(text, &mut bytes) {
            Ok(RandomId { bytes })
        } else {
            Err(ParseRandomIdError)
        }
    }

    /// The identifier as `2 * N` lower-case hexadecimal digits.
    pub fn to_hex(&self) -> (text: String)
        ensures
            text@ == hex::encoded(self@),
    {
        hex::render(self.bytes.as_slice())
    }
}

} // verus!
