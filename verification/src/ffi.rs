//! The host boundary: one function for each capability of the host, served
//! by the in-memory host of [`host`]. Storage reads and writes name the
//! account, the key and the payload; a record that was never written reads
//! as an empty payload, which is a success.

pub mod host;
pub mod mock;
pub mod status;

use crate::error::{fails_with, ContractResult, ErrorView};
use crate::ffi::host::{
    byte_views, digests, key_views, signature_views, verdict, verdicts, MockRuntime, RuntimeView,
};
use crate::primitives::blake3_hash;
use vstd::prelude::*;

verus! {

/// Reads the payload stored under a key of an account.
pub(crate) fn read_storage(rt: &MockRuntime, account: &str, key: &str) -> (r: ContractResult<
    Vec<u8>,
>)
    ensures
        r matches Ok(data) && data@ == rt@.payload(account@, key@),
        rt@.well_formed(),
{
    host::read_storage(rt, account, key)
}

/// Stores a payload under a key of an account; an empty payload deletes the
/// record.
pub(crate) fn write_storage(rt: &mut MockRuntime, account: &str, key: &str, value: &[u8]) -> (r:
    ContractResult<()>)
    ensures
        r is Ok,
        final(rt)@ == old(rt)@.write(account@, key@, value@),
        final(rt)@.well_formed(),
{
    host::write_storage(rt, account, key, value)
}

/// Appends a message to the log of the host.
pub(crate) fn log_message(rt: &mut MockRuntime, message: &str)
    ensures
        final(rt)@ == (RuntimeView { logs: old(rt)@.logs.push(message@), ..old(rt)@ }),
{
    host::log_message(rt, message);
}

/// Hands an event to the host.
pub(crate) fn emit_event_internal(rt: &mut MockRuntime, topic: &str, data: &[u8])
    ensures
        final(rt)@ == (RuntimeView {
            events: old(rt)@.events.push((topic@, data@)),
            ..old(rt)@
        }),
{
    host::emit_event_internal(rt, topic, data);
}

/// Asks the host to transfer value to an account.
pub fn transfer_tokens(to: &str, amount: u64) -> (r: ContractResult<()>)
    ensures
        r is Ok,
{
    host::transfer_tokens(to, amount)
}

/// Height of the current block.
pub(crate) fn get_block_height(rt: &MockRuntime) -> (height: u64)
    ensures
        height == rt@.block_height,
{
    host::block_height(rt)
}

/// Timestamp of the current block.
pub(crate) fn get_block_timestamp(rt: &MockRuntime) -> (timestamp: u64)
    ensures
        timestamp == rt@.block_timestamp,
{
    host::block_timestamp(rt)
}

/// Address that sent the transaction.
pub(crate) fn get_sender_address(rt: &MockRuntime) -> (address: String)
    ensures
        address@ == rt@.sender,
{
    host::sender(rt)
}

/// Address of the running contract.
pub(crate) fn get_contract_addr(rt: &MockRuntime) -> (address: String)
    ensures
        address@ == rt@.contract_address,
{
    host::contract_address(rt)
}

/// Value attached to the transaction.
pub(crate) fn get_value(rt: &MockRuntime) -> (amount: u64)
    ensures
        amount == rt@.value,
{
    host::value(rt)
}

/// The call data of this invocation.
pub(crate) fn read_call_data(rt: &MockRuntime) -> (r: ContractResult<Vec<u8>>)
    ensures
        r matches Ok(data) && data@ == rt@.call_data,
{
    host::read_call_data_internal(rt)
}

/// Replaces the return data of this invocation.
pub(crate) fn write_return_data(rt: &mut MockRuntime, data: &[u8]) -> (r: ContractResult<()>)
    ensures
        r is Ok,
        final(rt)@ == (RuntimeView { return_data: data@, ..old(rt)@ }),
{
    host::write_return_data_internal(rt, data)
}

/// The BLAKE3 digest of a byte string.
pub fn call_hash_blake3(data: &[u8]) -> (digest: [u8; 32])
    ensures
        digest == blake3_hash(data@),
{
    let mut output = [0u8;32];
    host::hash_blake3_internal(data, &mut output);
    output
}

/// Checks an Ed25519 signature: `Ok(true)` for a valid signature, `Ok(false)`
/// for an invalid one, `InvalidSignature` for a malformed public key.
pub fn call_verify_signature(pubkey: &[u8; 32], message: &[u8], signature: &[u8; 64]) -> (r:
    ContractResult<bool>)
    ensures
        r matches Ok(valid) ==> verdict(pubkey@, message@, signature@) == Some(valid),
        r is Err ==> verdict(pubkey@, message@, signature@) is None && fails_with(
            r,
            ErrorView::InvalidSignature,
        ),
{
    status::signature_outcome(host::verify_signature_internal(pubkey, message, signature))
}

/// The digest of each input, in order. Never fails.
pub fn batch_hash_blake3(inputs: &[&[u8]]) -> (r: ContractResult<Vec<[u8; 32]>>)
    ensures
        r matches Ok(outputs) && outputs@ == digests(byte_views(inputs@)),
{
    host::batch_hash_blake3(inputs)
}

/// Checks one signature for each triple of public key, message and signature.
/// Lists of different lengths are rejected; the first malformed public key
/// fails the whole batch.
pub fn batch_verify_signatures(
    pubkeys: &[&[u8; 32]],
    messages: &[&[u8]],
    signatures: &[&[u8; 64]],
) -> (r: ContractResult<Vec<bool>>)
    ensures
        pubkeys@.len() != messages@.len() || pubkeys@.len() != signatures@.len() ==> fails_with(
            r,
            ErrorView::InvalidArgument("Batch input length mismatch"@),
        ),
        pubkeys@.len() == messages@.len() && pubkeys@.len() == signatures@.len() ==> match verdicts(
            key_views(pubkeys@),
            byte_views(messages@),
            signature_views(signatures@),
            pubkeys@.len(),
        ) {
            Some(results) => r matches Ok(found) && found@ == results,
            None => fails_with(r, ErrorView::InvalidSignature),
        },
{
    host::batch_verify_signatures(pubkeys, messages, signatures)
}

} // verus!
