//! The keyed hash that key derivation is built on.
//!
//! The message authentication codes themselves are computed by the `hmac`
//! crate over the hash functions of `sha1` and `sha2`. This module gives each
//! of them a name in specifications and keeps a key together with its
//! algorithm.

use ::hmac::{Hmac, Mac};
use ::sha1::Sha1;
use ::sha2::{Sha256, Sha384, Sha512};
use vstd::prelude::*;

use crate::digest;

verus! {

/// `key` followed by as many zero bytes as bring it to `len` bytes.
pub open spec fn zero_padded(key: Seq<u8>, len: nat) -> Seq<u8>
    recommends
        key.len() <= len,
{
    key + Seq::new((len - key.len()) as nat, |i: int| 0u8)
}

/// The code that HMAC-SHA-1 computes for `message` under `key`.
pub uninterp spec fn hmac_sha1_tag(key: Seq<u8>, message: Seq<u8>) -> Seq<u8>;

/// The code that HMAC-SHA-256 computes for `message` under `key`.
pub uninterp spec fn hmac_sha256_tag(key: Seq<u8>, message: Seq<u8>) -> Seq<u8>;

/// The code that HMAC-SHA-384 computes for `message` under `key`.
pub uninterp spec fn hmac_sha384_tag(key: Seq<u8>, message: Seq<u8>) -> Seq<u8>;

/// The code that HMAC-SHA-512 computes for `message` under `key`.
pub uninterp spec fn hmac_sha512_tag(key: Seq<u8>, message: Seq<u8>) -> Seq<u8>;

/// Calls `hmac::Hmac<sha1::Sha1>`: keys it with `key` through
/// `Mac::new_from_slice`, feeds it `message`, and takes the finished code.
///
/// Trusted: the result is the HMAC-SHA-1 code of `message` under `key`, a
/// function of the two byte strings alone, and it is 20 bytes long. A key
/// that is no longer than the 64-byte block of the hash function is padded
/// with zeros to a block, so the padded key gives the same code. A key of any length is
/// accepted, so the `expect` cannot fail.
#[verifier::external_body]
fn hmac_sha1(key: &[u8], message: &[u8]) -> (tag: Vec<u8>)
    ensures
        tag@ == hmac_sha1_tag(key@, message@),
        tag@.len() == 20,
        key@.len() <= 64 ==> tag@ == hmac_sha1_tag(zero_padded(key@, 64), message@),
{
    Hmac::<Sha1>::new_from_slice(key)
        .expect("HMAC takes a key of any length")
        .chain_update(message)
        .finalize()
        .into_bytes()
        .to_vec()
}

/// Calls `hmac::Hmac<sha2::Sha256>`: keys it with `key` through
/// `Mac::new_from_slice`, feeds it `message`, and takes the finished code.
///
/// Trusted: the result is the HMAC-SHA-256 code of `message` under `key`, a
/// function of the two byte strings alone, and it is 32 bytes long. A key
/// that is no longer than the 64-byte block of the hash function is padded
/// with zeros to a block, so the padded key gives the same code. A key of any length is
/// accepted, so the `expect` cannot fail.
#[verifier::external_body]
fn hmac_sha256(key: &[u8], message: &[u8]) -> (tag: Vec<u8>)
    ensures
        tag@ == hmac_sha256_tag(key@, message@),
        tag@.len() == 32,
        key@.len() <= 64 ==> tag@ == hmac_sha256_tag(zero_padded(key@, 64), message@),
{
    Hmac::<Sha256>::new_from_slice(key)
        .expect("HMAC takes a key of any length")
        .chain_update(message)
        .finalize()
        .into_bytes()
        .to_vec()
}

/// Calls `hmac::Hmac<sha2::Sha384>`: keys it with `key` through
/// `Mac::new_from_slice`, feeds it `message`, and takes the finished code.
///
/// Trusted: the result is the HMAC-SHA-384 code of `message` under `key`, a
/// function of the two byte strings alone, and it is 48 bytes long. A key
/// that is no longer than the 128-byte block of the hash function is padded
/// with zeros to a block, so the padded key gives the same code. A key of any length is
/// accepted, so the `expect` cannot fail.
#[verifier::external_body]
fn hmac_sha384(key: &[u8], message: &[u8]) -> (tag: Vec<u8>)
    ensures
        tag@ == hmac_sha384_tag(key@, message@),
        tag@.len() == 48,
        key@.len() <= 128 ==> tag@ == hmac_sha384_tag(zero_padded(key@, 128), message@),
{
    Hmac::<Sha384>::new_from_slice(key)
        .expect("HMAC takes a key of any length")
        .chain_update(message)
        .finalize()
        .into_bytes()
        .to_vec()
}

/// Calls `hmac::Hmac<sha2::Sha512>`: keys it with `key` through
/// `Mac::new_from_slice`, feeds it `message`, and takes the finished code.
///
/// Trusted: the result is the HMAC-SHA-512 code of `message` under `key`, a
/// function of the two byte strings alone, and it is 64 bytes long. A key
/// that is no longer than the 128-byte block of the hash function is padded
/// with zeros to a block, so the padded key gives the same code. A key of any length is
/// accepted, so the `expect` cannot fail.
#[verifier::external_body]
fn hmac_sha512(key: &[u8], message: &[u8]) -> (tag: Vec<u8>)
    ensures
        tag@ == hmac_sha512_tag(key@, message@),
        tag@.len() == 64,
        key@.len() <= 128 ==> tag@ == hmac_sha512_tag(zero_padded(key@, 128), message@),
{
    Hmac::<Sha512>::new_from_slice(key)
        .expect("HMAC takes a key of any length")
        .chain_update(message)
        .finalize()
        .into_bytes()
        .to_vec()
}

/// An HMAC algorithm: HMAC over one of the supported hash functions.
#[derive(Clone, Copy, Debug, PartialEq, Eq, Structural)]
pub struct Algorithm(pub digest::Algorithm);

/// HMAC over SHA-1, kept for protocols that cannot yet do without it.
#[allow(non_snake_case)]
pub fn HMAC_SHA1_FOR_LEGACY_USE_ONLY() -> (algorithm: Algorithm)
    ensures
        algorithm == Algorithm(digest::Algorithm::SHA1),
{
    Algorithm(digest::Algorithm::SHA1)
}

/// HMAC over SHA-256.
#[allow(non_snake_case)]
pub fn HMAC_SHA256() -> (algorithm: Algorithm)
    ensures
        algorithm == Algorithm(digest::Algorithm::SHA256),
{
    Algorithm(digest::Algorithm::SHA256)
}

/// HMAC over SHA-384.
#[allow(non_snake_case)]
pub fn HMAC_SHA384() -> (algorithm: Algorithm)
    ensures
        algorithm == Algorithm(digest::Algorithm::SHA384),
{
    Algorithm(digest::Algorithm::SHA384)
}

/// HMAC over SHA-512.
#[allow(non_snake_case)]
pub fn HMAC_SHA512() -> (algorithm: Algorithm)
    ensures
        algorithm == Algorithm(digest::Algorithm::SHA512),
{
    Algorithm(digest::Algorithm::SHA512)
}

/// The code that `algorithm` computes for `message` under `key`.
pub open spec fn tag_of(algorithm: Algorithm, key: Seq<u8>, message: Seq<u8>) -> Seq<u8> {
    match algorithm.0 {
        digest::Algorithm::SHA1 => hmac_sha1_tag(key, message),
        digest::Algorithm::SHA256 => hmac_sha256_tag(key, message),
        digest::Algorithm::SHA384 => hmac_sha384_tag(key, message),
        digest::Algorithm::SHA512 => hmac_sha512_tag(key, message),
    }
}

impl Algorithm {
    /// The hash function that this algorithm is built on.
    pub open spec fn spec_digest_algorithm(&self) -> digest::Algorithm {
        self.0
    }

    /// The hash function that this algorithm is built on.
    #[verifier::when_used_as_spec(spec_digest_algorithm)]
    pub fn digest_algorithm(&self) -> (d: digest::Algorithm)
        ensures
            d == self.0,
    {
        self.0
    }
}

/// A key for computing message authentication codes with one algorithm.
pub struct Key {
    algorithm: Algorithm,
    value: Vec<u8>,
}

impl View for Key {
    type V = Seq<u8>;

    /// The bytes of the key.
    closed spec fn view(&self) -> Seq<u8> {
        self.value@
    }
}

impl Key {
    /// The algorithm that the key is for.
    pub closed spec fn spec_algorithm(&self) -> Algorithm {
        self.algorithm
    }

    /// Builds the key with the bytes `key_value` for `algorithm`.
    ///
    /// A key of any length is accepted, the empty one included.
    pub fn new(algorithm: Algorithm, key_value: &[u8]) -> (key: Key)
        ensures
            key.algorithm() == algorithm,
            key@ == key_value@,
    {
        let mut value: Vec<u8> = Vec::new();
        value.extend_from_slice(key_value);
        assert(value@ =~= key_value@);
        Key { algorithm, value }
    }

    /// The algorithm that the key is for.
    #[verifier::when_used_as_spec(spec_algorithm)]
    pub fn algorithm(&self) -> (algorithm: Algorithm)
        ensures
            algorithm == self.spec_algorithm(),
    {
        self.algorithm
    }
}

impl Clone for Key {
    /// The copy is for the same algorithm and holds the same bytes.
    fn clone(&self) -> (copy: Key)
        ensures
            copy.algorithm() == self.algorithm(),
            copy@ == self@,
    {
        let value = self.value.clone();
        assert(value@ =~= self.value@);
        Key { algorithm: self.algorithm, value }
    }
}

/// Computes the message authentication code of `data` under `key`.
///
/// The code is as long as a digest of the hash function. A key that is no
/// longer than a block of the hash function counts as the key padded with
/// zeros to a block.
pub fn sign(key: &Key, data: &[u8]) -> (tag: Vec<u8>)
    ensures
        tag@ == tag_of(key.algorithm(), key@, data@),
        tag@.len() == key.algorithm().digest_algorithm().output_len(),
        key@.len() <= key.algorithm().digest_algorithm().block_len() ==> tag@ == tag_of(
            key.algorithm(),
            zero_padded(key@, key.algorithm().digest_algorithm().block_len() as nat),
            data@,
        ),
{
    match key.algorithm.0 {
        digest::Algorithm::SHA1 => hmac_sha1(key.value.as_slice(), data),
        digest::Algorithm::SHA256 => hmac_sha256(key.value.as_slice(), data),
        digest::Algorithm::SHA384 => hmac_sha384(key.value.as_slice(), data),
        digest::Algorithm::SHA512 => hmac_sha512(key.value.as_slice(), data),
    }
}

} // verus!
