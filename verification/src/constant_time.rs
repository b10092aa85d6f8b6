//! Equality of byte strings in time that does not depend on their contents.

use vstd::prelude::*;

use crate::error::Unspecified;

verus! {

/// Whether `a` and `b` hold the same bytes at every position below `n`.
pub open spec fn agree_below(a: Seq<u8>, b: Seq<u8>, n: int) -> bool {
    forall|j: int| 0 <= j < n ==> a[j] == b[j]
}

/// Calls `core::hint::black_box`, which hands its argument back and asks the
/// compiler to assume nothing about it.
///
/// Trusted: the result is the argument. The hint keeps the compiler from
/// turning the accumulation below into a search for the first difference;
/// that the machine code takes the same time for all contents is not proved.
#[verifier::external_body]
fn shielded(value: u8) -> (r: u8)
    ensures
        r == value,
{
    core::hint::black_box(value)
}

/// Folding a pair of bytes into the accumulator leaves it zero exactly when
/// it was zero before and the two bytes are the same.
proof fn lemma_fold_pair(acc: u8, x: u8, y: u8)
    ensures
        (acc | (x ^ y)) == 0u8 <==> (acc == 0u8 && x == y),
{
    assert((acc | (x ^ y)) == 0u8 <==> (acc == 0u8 && x == y)) by (bit_vector);
}

/// Returns `Ok(())` if `a` and `b` are the same byte string and
/// `Err(Unspecified)` otherwise.
///
/// Strings of different lengths are rejected at once, so the running time
/// reveals the lengths. When the lengths agree, every pair of bytes is folded
/// into one accumulator and only the accumulator is tested, after the last
/// pair: no step depends on where, or whether, the strings differ.
pub fn verify_slices_are_equal(a: &[u8], b: &[u8]) -> (r: Result<(), Unspecified>)
    ensures
        r.is_ok() <==> a@ == b@,
{
    if a.len() != b.len() {
        return Err(Unspecified);
    }
    let n: usize = a.len();
    let mut acc: u8 = 0;
    let mut i: usize = 0;
    while i < n
        invariant
            n == a@.len(),
            n == b@.len(),
            i <= n,
            acc == 0 <==> agree_below(a@, b@, i as int),
        decreases n - i,
    {
        proof {
            lemma_fold_pair(acc, a[i as int], b[i as int]);
        }
        acc = shielded(acc | (a[i] ^ b[i]));
        i = i + 1;
    }
    if acc == 0 {
        assert(a@ =~= b@);
        Ok(())
    } else {
        Err(Unspecified)
    }
}

} // verus!
