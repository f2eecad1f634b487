//! Equality of secret-derived values, computed without stopping at the first
//! difference.

use crate::primitives::ct_eq;
use crate::text::lemma_utf8_injective;
use vstd::prelude::*;

verus! {

/// Whether two strings hold the same text.
pub fn eq_str(a: &str, b: &str) -> (r: bool)
    ensures
        r == (a@ == b@),
{
    let same = eq_bytes(a.as_bytes(), b.as_bytes());
    proof {
        if same {
            lemma_utf8_injective(a@, b@);
        }
    }
    same
}

/// Whether two byte strings hold the same bytes.
pub fn eq_bytes(a: &[u8], b: &[u8]) -> (r: bool)
    ensures
        r == (a@ == b@),
{
    ct_eq(a, b)
}

/// Whether two arrays of one length hold the same bytes.
pub fn eq_array<const N: usize>(a: &[u8; N], b: &[u8; N]) -> (r: bool)
    ensures
        r == (a@ == b@),
{
    ct_eq(a.as_slice(), b.as_slice())
}

/// Whether two byte strings hold the same bytes.
pub fn secure_eq(a: &[u8], b: &[u8]) -> (r: bool)
    ensures
        r == (a@ == b@),
{
    eq_bytes(a, b)
}

} // verus!
