//! The closed set of hash functions that the keyed primitives are built on.

use vstd::prelude::*;

verus! {

/// A supported hash function.
///
/// The set is closed: two values are equal exactly when they name the same
/// hash function.
#[derive(Clone, Copy, Debug, PartialEq, Eq, Structural)]
pub enum Algorithm {
    SHA1,
    SHA256,
    SHA384,
    SHA512,
}

/// SHA-1, kept for protocols that cannot yet do without it.
pub const SHA1_FOR_LEGACY_USE_ONLY: Algorithm = Algorithm::SHA1;

/// SHA-256.
pub const SHA256: Algorithm = Algorithm::SHA256;

/// SHA-384.
pub const SHA384: Algorithm = Algorithm::SHA384;

/// SHA-512.
pub const SHA512: Algorithm = Algorithm::SHA512;

/// The longest digest that any supported hash function produces, in bytes.
pub const MAX_OUTPUT_LEN: usize = 64;

/// The longest input block that any supported hash function works on, in bytes.
pub const MAX_BLOCK_LEN: usize = 128;

impl Algorithm {
    /// The length of a digest, in bytes.
    pub open spec fn spec_output_len(self) -> usize {
        match self {
            Algorithm::SHA1 => 20,
            Algorithm::SHA256 => 32,
            Algorithm::SHA384 => 48,
            Algorithm::SHA512 => 64,
        }
    }

    /// The length of the block that the hash function works on, in bytes.
    pub open spec fn spec_block_len(self) -> usize {
        match self {
            Algorithm::SHA1 => 64,
            Algorithm::SHA256 => 64,
            Algorithm::SHA384 => 128,
            Algorithm::SHA512 => 128,
        }
    }

    /// The length of a digest, in bytes.
    #[verifier::when_used_as_spec(spec_output_len)]
    pub fn output_len(self) -> (n: usize)
        ensures
            n == self.spec_output_len(),
            0 < n <= MAX_OUTPUT_LEN,
    {
        match self {
            Algorithm::SHA1 => 20,
            Algorithm::SHA256 => 32,
            Algorithm::SHA384 => 48,
            Algorithm::SHA512 => 64,
        }
    }

    /// The length of the block that the hash function works on, in bytes.
    #[verifier::when_used_as_spec(spec_block_len)]
    pub fn block_len(self) -> (n: usize)
        ensures
            n == self.spec_block_len(),
            self.spec_output_len() <= n <= MAX_BLOCK_LEN,
    {
        match self {
            Algorithm::SHA1 => 64,
            Algorithm::SHA256 => 64,
            Algorithm::SHA384 => 128,
            Algorithm::SHA512 => 128,
        }
    }
}

} // verus!
