//! Constant-time helpers on bytes and numbers, shared by the key and
//! counter-table code.

use aligned_cmov::CMov;
use mc_oblivious_traits::subtle::{Choice, ConstantTimeEq};
use vstd::prelude::*;

verus! {

/// Equality of two byte strings, computed by `subtle`'s
/// `ConstantTimeEq::ct_eq` on slices. The claim taken on trust: the call
/// answers "equal" exactly when both slices have the same length and the
/// same byte at every position.
#[verifier::external_body]
pub(crate) fn ct_eq_bytes(a: &[u8], b: &[u8]) -> (same: bool)
    ensures
        same == (a@ == b@),
{
    bool::from(a.ct_eq(b))
}

/// A move that happens or not without a branch, by `aligned_cmov`'s
/// `CMov::cmov` on `u64`. The claim taken on trust: `dest` takes the value
/// `src` where `condition` holds, and keeps its own where it does not.
#[verifier::external_body]
pub(crate) fn cmov_u64(condition: bool, src: u64, dest: &mut u64)
    ensures
        *final(dest) == if condition {
            src
        } else {
            *old(dest)
        },
{
    dest.cmov(Choice::from(u8::from(condition)), &src);
}

/// A fresh vector holding the same bytes as `src`.
pub fn copy_bytes(src: &Vec<u8>) -> (out: Vec<u8>)
    ensures
        out@ == src@,
{
    let mut out: Vec<u8> = Vec::new();
    let mut i: usize = 0;
    while i < src.len()
        invariant
            i <= src.len(),
            out@ == src@.subrange(0, i as int),
        decreases src.len() - i,
    {
        out.push(src[i]);
        i += 1;
    }
    assert(src@.subrange(0, src.len() as int) == src@);
    out
}

/// Constant-time equality of two byte vectors.
pub fn bytes_equal(a: &Vec<u8>, b: &Vec<u8>) -> (same: bool)
    ensures
        same == (a@ == b@),
{
    ct_eq_bytes(a.as_slice(), b.as_slice())
}

} // verus!
