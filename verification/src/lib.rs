//! Key derivation by HKDF, the HMAC-based extract-and-expand construction of
//! RFC 5869, with contracts that Verus proves.
//!
//! * [`hkdf`] holds the derivation itself: a salt extracts a pseudorandom key
//!   from a secret, and the key expands into output keying material of a
//!   requested length. What each step returns is stated over the HMAC codes
//!   that [`hmac`] names.
//! * [`hmac`] computes the codes, through the `hmac`, `sha1` and `sha2`
//!   crates, for the hash functions that [`digest`] lists.
//! * [`constant_time`] compares byte strings without stopping at the first
//!   difference.
//! * [`aead`] describes the keys for authenticated encryption that an
//!   expansion can fill.
//! * [`error`] holds the one error that all of them report.

pub mod aead;
pub mod constant_time;
pub mod digest;
pub mod error;
pub mod hkdf;
pub mod hmac;
