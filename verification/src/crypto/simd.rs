//! Batch operations that the host runs in one call.

use crate::error::{fails_with, ContractResult, ErrorView};
use crate::ffi;
use crate::ffi::host::{byte_views, digests, key_views, signature_views, verdicts};
use vstd::prelude::*;

verus! {

/// Checks one signature for each triple of public key, message and
/// signature, in one call of the host. Lists of different lengths are
/// rejected; the first malformed public key fails the whole batch.
pub fn batch_verify_signatures_simd(
    pubkeys: &[&[u8; 32]],
    messages: &[&[u8]],
    signatures: &[&[u8; 64]],
) -> (r: ContractResult<Vec<bool>>)
    ensures
        pubkeys@.len() != messages@.len() || pubkeys@.len() != signatures@.len() ==> fails_with(
            r,
            ErrorView::InvalidArgument("Batch input length mismatch"@),
        ),
        pubkeys@.len() == messages@.len() && pubkeys@.len() == signatures@.len() ==> match verdicts(
            key_views(pubkeys@),
            byte_views(messages@),
            signature_views(signatures@),
            pubkeys@.len(),
        ) {
            Some(results) => r matches Ok(found) && found@ == results,
            None => fails_with(r, ErrorView::InvalidSignature),
        },
{
    ffi::batch_verify_signatures(pubkeys, messages, signatures)
}

/// The digest of each input, in order, in one call of the host.
pub fn batch_hash_blake3(inputs: &[&[u8]]) -> (r: ContractResult<Vec<[u8; 32]>>)
    ensures
        r matches Ok(outputs) && outputs@ == digests(byte_views(inputs@)),
{
    ffi::batch_hash_blake3(inputs)
}

/// Replaces each byte of `a` by its exclusive or with the byte of `b` at the
/// same place.
pub fn xor_bytes(a: &mut [u8], b: &[u8])
    requires
        old(a)@.len() == b@.len(),
    ensures
        final(a)@.len() == old(a)@.len(),
        forall|i: int| 0 <= i < b@.len() ==> final(a)@[i] == old(a)@[i] ^ b@[i],
{
    xor_bytes_scalar(a, b);
}

/// Replaces each byte of `a` that has a counterpart in `b` by its exclusive
/// or with that byte, and leaves the others.
pub fn xor_bytes_scalar(a: &mut [u8], b: &[u8])
    ensures
        final(a)@.len() == old(a)@.len(),
        forall|i: int|
            0 <= i < old(a)@.len() ==> final(a)@[i] == if i < b@.len() {
                old(a)@[i] ^ b@[i]
            } else {
                old(a)@[i]
            },
{
    let ghost before = a@;
    let count = if a.len() < b.len() {
        a.len()
    } else {
        b.len()
    };
    let mut idx: usize = 0;
    while idx < count
        invariant
            idx <= count,
            count <= b@.len(),
            count <= a@.len(),
            count == b@.len() || count == a@.len(),
            a@.len() == before.len(),
            forall|i: int| 0 <= i < idx ==> a@[i] == before[i] ^ b@[i],
            forall|i: int| idx <= i < before.len() ==> a@[i] == before[i],
        decreases count - idx,
    {
        a[idx] = a[idx] ^ b[idx];
        idx += 1;
    }
}

} // verus!
