//! Hashing and signature verification, with batch forms that the host
//! accelerates and a fallback that does the same work one item at a time.

pub mod simd;

use crate::error::{fails_with, invalid_argument, ContractResult, ErrorView};
use crate::ffi;
use crate::ffi::host::{byte_views, key_views, signature_views, verdict, verdicts};
use crate::primitives::{
    blake3_hash, ed25519_derive_public, ed25519_key_accepted, ed25519_public_key,
    ed25519_signature_accepted,
};
use vstd::bytes::u64_to_le_bytes;
use vstd::prelude::*;
use vstd::slice::slice_to_vec;
use vstd::string::*;

verus! {

/// The BLAKE3 digest of a byte string.
pub fn hash_blake3(data: &[u8]) -> (digest: [u8; 32])
    ensures
        digest == blake3_hash(data@),
{
    ffi::call_hash_blake3(data)
}

/// Checks an Ed25519 signature. A signature that does not verify is
/// `Ok(false)`; a malformed public key is the one error, `InvalidSignature`.
pub fn verify_signature(pubkey: &[u8; 32], message: &[u8], signature: &[u8; 64]) -> (r:
    ContractResult<bool>)
    ensures
        r matches Ok(valid) ==> verdict(pubkey@, message@, signature@) == Some(valid),
        r is Err ==> verdict(pubkey@, message@, signature@) is None && fails_with(
            r,
            ErrorView::InvalidSignature,
        ),
{
    ffi::call_verify_signature(pubkey, message, signature)
}

/// What checking a batch yields: `InvalidArgument` where the three lists
/// differ in length, `InvalidSignature` where a public key is malformed,
/// otherwise the validity of each signature.
pub open spec fn batch_outcome(
    pubkeys: Seq<Seq<u8>>,
    messages: Seq<Seq<u8>>,
    signatures: Seq<Seq<u8>>,
) -> Result<Seq<bool>, ErrorView> {
    if pubkeys.len() != messages.len() || pubkeys.len() != signatures.len() {
        Err(ErrorView::InvalidArgument("Mismatched batch sizes"@))
    } else {
        match verdicts(pubkeys, messages, signatures, pubkeys.len()) {
            Some(results) => Ok(results),
            None => Err(ErrorView::InvalidSignature),
        }
    }
}

/// Whether a result is this outcome.
pub open spec fn is_outcome(r: ContractResult<Vec<bool>>, outcome: Result<Seq<bool>, ErrorView>) -> bool {
    match outcome {
        Ok(results) => r matches Ok(found) && found@ == results,
        Err(kind) => fails_with(r, kind),
    }
}

/// Checks one signature for each triple of public key, message and
/// signature, through the batch call of the host.
pub fn batch_verify_signatures(
    pubkeys: &[&[u8; 32]],
    messages: &[&[u8]],
    signatures: &[&[u8; 64]],
) -> (r: ContractResult<Vec<bool>>)
    ensures
        is_outcome(
            r,
            batch_outcome(key_views(pubkeys@), byte_views(messages@), signature_views(signatures@)),
        ),
{
    if pubkeys.len() != messages.len() || pubkeys.len() != signatures.len() {
        return Err(invalid_argument("Mismatched batch sizes"));
    }
    simd::batch_verify_signatures_simd(pubkeys, messages, signatures)
}

/// Checks one signature for each triple of public key, message and
/// signature, one call of [`verify_signature`] at a time.
pub fn batch_verify_signatures_fallback(
    pubkeys: &[&[u8; 32]],
    messages: &[&[u8]],
    signatures: &[&[u8; 64]],
) -> (r: ContractResult<Vec<bool>>)
    ensures
        is_outcome(
            r,
            batch_outcome(key_views(pubkeys@), byte_views(messages@), signature_views(signatures@)),
        ),
{
    if pubkeys.len() != messages.len() || pubkeys.len() != signatures.len() {
        return Err(invalid_argument("Mismatched batch sizes"));
    }
    let ghost keys = key_views(pubkeys@);
    let ghost texts = byte_views(messages@);
    let ghost marks = signature_views(signatures@);
    let mut results: Vec<bool> = Vec::with_capacity(pubkeys.len());
    let mut i: usize = 0;
    while i < pubkeys.len()
        invariant
            i <= pubkeys@.len(),
            pubkeys@.len() == messages@.len(),
            pubkeys@.len() == signatures@.len(),
            keys == key_views(pubkeys@),
            texts == byte_views(messages@),
            marks == signature_views(signatures@),
            results@.len() == i,
            forall|k: int| 0 <= k < i ==> ed25519_key_accepted(#[trigger] keys[k]),
            forall|k: int|
                0 <= k < i ==> results@[k] == ed25519_signature_accepted(
                    keys[k],
                    texts[k],
                    marks[k],
                ),
        decreases pubkeys@.len() - i,
    {
        match verify_signature(pubkeys[i], messages[i], signatures[i]) {
            Ok(valid) => {
                results.push(valid);
            },
            Err(e) => {
                proof {
                    assert(!ed25519_key_accepted(keys[i as int]));
                }
                return Err(e);
            },
        }
        i += 1;
    }
    proof {
        assert(results@ =~= verdicts(keys, texts, marks, pubkeys@.len())->0);
    }
    Ok(results)
}

/// Whether two results are the same to a caller: the same verdicts, or the
/// same error.
pub open spec fn same_result(a: ContractResult<Vec<bool>>, b: ContractResult<Vec<bool>>) -> bool {
    match (a, b) {
        (Ok(x), Ok(y)) => x@ == y@,
        (Err(x), Err(y)) => x@ == y@,
        _ => false,
    }
}

/// The batch path and the fallback give the same result on the same input:
/// whatever [`batch_verify_signatures`] returns for three lists,
/// [`batch_verify_signatures_fallback`] returns for them too.
pub proof fn lemma_batch_paths_agree(
    pubkeys: Seq<Seq<u8>>,
    messages: Seq<Seq<u8>>,
    signatures: Seq<Seq<u8>>,
    batch: ContractResult<Vec<bool>>,
    fallback: ContractResult<Vec<bool>>,
)
    requires
        is_outcome(batch, batch_outcome(pubkeys, messages, signatures)),
        is_outcome(fallback, batch_outcome(pubkeys, messages, signatures)),
    ensures
        same_result(batch, fallback),
{
}

/// Most key pairs that one call generates.
pub const MAX_KEYPAIR_BATCH: usize = 1_024;

/// The secret key with a given number: the digest of a fixed label followed
/// by the number in eight bytes, the lowest first.
pub open spec fn keypair_secret(index: u64) -> [u8; 32] {
    blake3_hash(
        vstd::utf8::encode_utf8("silica-contract-sdk-keygen"@) + vstd::bytes::spec_u64_to_le_bytes(
            index,
        ),
    )
}

/// The first `count` key pairs of a fixed series, each a public key with its
/// secret key, for tests and measurements. More than 1024 pairs are
/// rejected.
pub fn generate_keypairs(count: usize) -> (r: ContractResult<Vec<([u8; 32], [u8; 32])>>)
    ensures
        count > MAX_KEYPAIR_BATCH ==> fails_with(
            r,
            ErrorView::InvalidArgument("Keypair batch exceeds static bound"@),
        ),
        count <= MAX_KEYPAIR_BATCH ==> (r matches Ok(pairs) && pairs@.len() == count && forall|
            i: int,
        |
            0 <= i < count ==> (#[trigger] pairs@[i]).1 == keypair_secret(i as u64) && pairs@[i].0
                == ed25519_public_key(keypair_secret(i as u64)@)),
{
    if count > MAX_KEYPAIR_BATCH {
        return Err(invalid_argument("Keypair batch exceeds static bound"));
    }
    let mut pairs: Vec<([u8; 32], [u8; 32])> = Vec::with_capacity(count);
    let mut index: usize = 0;
    while index < count
        invariant
            index <= count,
            count <= MAX_KEYPAIR_BATCH,
            pairs@.len() == index,
            forall|i: int|
                0 <= i < index ==> (#[trigger] pairs@[i]).1 == keypair_secret(i as u64)
                    && pairs@[i].0 == ed25519_public_key(keypair_secret(i as u64)@),
        decreases count - index,
    {
        let mut material = slice_to_vec("silica-contract-sdk-keygen".as_bytes());
        let mut number = u64_to_le_bytes(index as u64);
        material.append(&mut number);
        let secret = ffi::call_hash_blake3(material.as_slice());
        let public = ed25519_derive_public(&secret);
        pairs.push((public, secret));
        index += 1;
    }
    Ok(pairs)
}

} // verus!
