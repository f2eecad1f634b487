//! What the answers of a host mean. A host outside this process answers a
//! call with a status, 0 for success, and fills the buffers that it was
//! handed. The functions here turn such an answer into a result; the calls
//! themselves are made by the embedding program.

use crate::error::{fails_with, ContractError, ContractResult, ErrorView};
use vstd::prelude::*;

verus! {

/// Size of the buffer that a storage read hands to the host: a stored value
/// of more than 64 KiB cannot be read.
pub const MAX_VALUE_SIZE: usize = 65_536;

/// Size of the buffer that the host writes an address into.
pub const ADDRESS_BUFFER_SIZE: usize = 128;

/// Whether the length that a host reports for what it wrote lies inside the
/// buffer that it was handed. A negative length, and a length beyond the
/// buffer, tell of a value that the buffer could not hold.
pub open spec fn fits(buffer: Seq<u8>, filled: i32) -> bool {
    0 <= filled <= buffer.len()
}

/// The result of a storage read. On status 0 the value is the part of the
/// buffer that the host filled, and a record that is not there is a success
/// with nothing filled. A value that the buffer could not hold is a failure,
/// never a cut value. Any other status is a failure. Every failure is
/// `StorageReadFailed`.
pub fn read_outcome(status: i32, buffer: Vec<u8>, value_len: i32) -> (r: ContractResult<Vec<u8>>)
    ensures
        status == 0 && fits(buffer@, value_len) ==> (r matches Ok(value) && value@
            == buffer@.subrange(0, value_len as int)),
        status != 0 || !fits(buffer@, value_len) ==> fails_with(r, ErrorView::StorageReadFailed),
{
    if status != 0 || value_len < 0 {
        return Err(ContractError::StorageReadFailed);
    }
    let filled = value_len as usize;
    if filled > buffer.len() {
        return Err(ContractError::StorageReadFailed);
    }
    let mut value = buffer;
    value.truncate(filled);
    Ok(value)
}

/// The result of a storage write: success on status 0, `StorageWriteFailed`
/// on any other status.
pub fn write_outcome(status: i32) -> (r: ContractResult<()>)
    ensures
        status == 0 ==> r is Ok,
        status != 0 ==> fails_with(r, ErrorView::StorageWriteFailed),
{
    if status == 0 {
        Ok(())
    } else {
        Err(ContractError::StorageWriteFailed)
    }
}

/// The result of a transfer: success on status 0, `TransferFailed` on any
/// other status.
pub fn transfer_outcome(status: i32) -> (r: ContractResult<()>)
    ensures
        status == 0 ==> r is Ok,
        status != 0 ==> fails_with(r, ErrorView::TransferFailed),
{
    if status == 0 {
        Ok(())
    } else {
        Err(ContractError::TransferFailed)
    }
}

/// What to do once the host has told the length of the call data: a
/// negative length is `CallDataUnavailable`; a length of zero is empty call
/// data, `None`, with nothing to read; any other length is the size of the
/// buffer to read into.
pub fn call_data_request(length: i32) -> (r: ContractResult<Option<usize>>)
    ensures
        length < 0 ==> fails_with(r, ErrorView::CallDataUnavailable),
        length == 0 ==> r matches Ok(None),
        length > 0 ==> (r matches Ok(Some(size)) && size == length),
{
    if length < 0 {
        return Err(ContractError::CallDataUnavailable);
    }
    if length == 0 {
        return Ok(None);
    }
    Ok(Some(length as usize))
}

/// The result of reading the call data: the buffer on status 0,
/// `CallDataUnavailable` on any other status.
pub fn call_data_outcome(status: i32, buffer: Vec<u8>) -> (r: ContractResult<Vec<u8>>)
    ensures
        status == 0 ==> (r matches Ok(data) && data@ == buffer@),
        status != 0 ==> fails_with(r, ErrorView::CallDataUnavailable),
{
    if status == 0 {
        Ok(buffer)
    } else {
        Err(ContractError::CallDataUnavailable)
    }
}

/// The result of writing the return data: success on status 0,
/// `ReturnDataWriteFailed` on any other status.
pub fn return_data_outcome(status: i32) -> (r: ContractResult<()>)
    ensures
        status == 0 ==> r is Ok,
        status != 0 ==> fails_with(r, ErrorView::ReturnDataWriteFailed),
{
    if status == 0 {
        Ok(())
    } else {
        Err(ContractError::ReturnDataWriteFailed)
    }
}

/// The result of a signature check that was reported as a status: 1 is a
/// valid signature, 0 an invalid one, and any other status is
/// `InvalidSignature`.
pub fn signature_outcome(status: i32) -> (r: ContractResult<bool>)
    ensures
        status == 1 ==> r matches Ok(true),
        status == 0 ==> r matches Ok(false),
        status != 0 && status != 1 ==> fails_with(r, ErrorView::InvalidSignature),
{
    match status {
        1 => Ok(true),
        0 => Ok(false),
        _ => Err(ContractError::InvalidSignature),
    }
}

} // verus!
