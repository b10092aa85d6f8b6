//! Keys for authenticated encryption, as far as key derivation is concerned:
//! which algorithms there are, how long their keys are, and a key that holds
//! bytes of the right length. The ciphers themselves are not part of this
//! library.

use vstd::prelude::*;
use vstd::std_specs::convert::FromSpecImpl;

use crate::error::Unspecified;
use crate::hkdf::{KeyType, Okm};

verus! {

/// An algorithm for authenticated encryption.
#[allow(non_camel_case_types)]
#[derive(Clone, Copy, Debug, PartialEq, Eq, Structural)]
pub enum Algorithm {
    AES_128_GCM,
    AES_256_GCM,
    CHACHA20_POLY1305,
}

/// AES-128 in Galois/Counter Mode.
pub const AES_128_GCM: Algorithm = Algorithm::AES_128_GCM;

/// AES-256 in Galois/Counter Mode.
pub const AES_256_GCM: Algorithm = Algorithm::AES_256_GCM;

/// ChaCha20 with Poly1305.
pub const CHACHA20_POLY1305: Algorithm = Algorithm::CHACHA20_POLY1305;

impl Algorithm {
    /// The length of a key, in bytes.
    pub open spec fn spec_key_len(&self) -> usize {
        match self {
            Algorithm::AES_128_GCM => 16,
            Algorithm::AES_256_GCM => 32,
            Algorithm::CHACHA20_POLY1305 => 32,
        }
    }

    /// The length of a key, in bytes.
    #[verifier::when_used_as_spec(spec_key_len)]
    pub fn key_len(&self) -> (n: usize)
        ensures
            n == self.spec_key_len(),
    {
        match self {
            Algorithm::AES_128_GCM => 16,
            Algorithm::AES_256_GCM => 32,
            Algorithm::CHACHA20_POLY1305 => 32,
        }
    }
}

impl KeyType for &'static Algorithm {
    /// The length of a key of the algorithm.
    fn len(&self) -> (n: usize)
        ensures
            n == self.spec_key_len(),
    {
        self.key_len()
    }
}

/// A key for one algorithm that has not been bound to a use yet.
pub struct UnboundKey {
    algorithm: &'static Algorithm,
    key_bytes: Vec<u8>,
}

impl View for UnboundKey {
    type V = Seq<u8>;

    /// The bytes of the key.
    closed spec fn view(&self) -> Seq<u8> {
        self.key_bytes@
    }
}

impl UnboundKey {
    /// A key is as long as its algorithm asks.
    #[verifier::type_invariant]
    spec fn well_formed(self) -> bool {
        self.key_bytes@.len() == self.algorithm.spec_key_len()
    }

    /// The algorithm that the key is for.
    pub closed spec fn spec_algorithm(&self) -> &'static Algorithm {
        self.algorithm
    }

    /// Builds the key with the bytes `key_bytes` for `algorithm`. The bytes
    /// are refused unless they are exactly as many as the algorithm asks.
    pub fn new(algorithm: &'static Algorithm, key_bytes: &[u8]) -> (r: Result<
        UnboundKey,
        Unspecified,
    >)
        ensures
            r.is_ok() <==> key_bytes@.len() == algorithm.spec_key_len(),
            r matches Ok(key) ==> key.algorithm() == algorithm && key@ == key_bytes@,
    {
        if key_bytes.len() != algorithm.key_len() {
            return Err(Unspecified);
        }
        let mut bytes: Vec<u8> = Vec::new();
        bytes.extend_from_slice(key_bytes);
        assert(bytes@ =~= key_bytes@);
        Ok(UnboundKey { algorithm, key_bytes: bytes })
    }

    /// The algorithm that the key is for.
    #[verifier::when_used_as_spec(spec_algorithm)]
    pub fn algorithm(&self) -> (algorithm: &'static Algorithm)
        ensures
            algorithm == self.spec_algorithm(),
    {
        self.algorithm
    }
}

impl<'a> From<Okm<'a, &'static Algorithm>> for UnboundKey {
    /// Takes the output of an expansion as a key, for the algorithm that the
    /// output was asked for with.
    fn from(okm: Okm<'a, &'static Algorithm>) -> (key: UnboundKey)
        ensures
            key.algorithm() == okm.key_type(),
            key@ == okm.output(),
            key@.len() == okm.key_type().spec_key_len(),
    {
        let algorithm: &'static Algorithm = *okm.len();
        let bytes = okm.into_bytes();
        UnboundKey { algorithm, key_bytes: bytes }
    }
}

/// What the conversion gives is stated on `from` itself: a key is no value of
/// specifications, so there is no function here to say it with.
impl<'a> FromSpecImpl<Okm<'a, &'static Algorithm>> for UnboundKey {
    open spec fn obeys_from_spec() -> bool {
        false
    }

    open spec fn from_spec(okm: Okm<'a, &'static Algorithm>) -> UnboundKey {
        arbitrary()
    }
}

} // verus!
