//! The controls of the in-memory host: what a test sets before a call and
//! inspects after it.

use crate::ffi::host;
use crate::ffi::host::{event_views, log_views, EventRecord, MockRuntime, RuntimeView};
use vstd::prelude::*;

verus! {

/// Restores the pristine state.
pub fn reset(rt: &mut MockRuntime)
    ensures
        final(rt)@ == RuntimeView::pristine(),
{
    host::reset(rt);
}

/// Sets the address that sends the transaction.
pub fn set_sender(rt: &mut MockRuntime, sender: &str)
    ensures
        final(rt)@ == (RuntimeView { sender: sender@, ..old(rt)@ }),
{
    host::set_sender(rt, sender);
}

/// Sets the address of the running contract.
pub fn set_contract_address(rt: &mut MockRuntime, addr: &str)
    ensures
        final(rt)@ == (RuntimeView { contract_address: addr@, ..old(rt)@ }),
{
    host::set_contract_address(rt, addr);
}

/// Sets the height of the current block.
pub fn set_block_height(rt: &mut MockRuntime, height: u64)
    ensures
        final(rt)@ == (RuntimeView { block_height: height, ..old(rt)@ }),
{
    host::set_block_height(rt, height);
}

/// Sets the timestamp of the current block.
pub fn set_block_timestamp(rt: &mut MockRuntime, timestamp: u64)
    ensures
        final(rt)@ == (RuntimeView { block_timestamp: timestamp, ..old(rt)@ }),
{
    host::set_block_timestamp(rt, timestamp);
}

/// Sets the value attached to the transaction.
pub fn set_value(rt: &mut MockRuntime, amount: u64)
    ensures
        final(rt)@ == (RuntimeView { value: amount, ..old(rt)@ }),
{
    host::set_value(rt, amount);
}

/// Sets the call data of this invocation.
pub fn set_call_data(rt: &mut MockRuntime, data: &[u8])
    ensures
        final(rt)@ == (RuntimeView { call_data: data@, ..old(rt)@ }),
{
    host::set_call_data(rt, data);
}

/// Hands out the emitted events, oldest first, and forgets them.
pub fn take_events(rt: &mut MockRuntime) -> (drained: Vec<EventRecord>)
    ensures
        event_views(drained@) == old(rt)@.events,
        final(rt)@ == (RuntimeView { events: Seq::empty(), ..old(rt)@ }),
{
    host::take_events(rt)
}

/// Hands out the logged messages, oldest first, and forgets them.
pub fn take_logs(rt: &mut MockRuntime) -> (drained: Vec<String>)
    ensures
        log_views(drained@) == old(rt)@.logs,
        final(rt)@ == (RuntimeView { logs: Seq::empty(), ..old(rt)@ }),
{
    host::take_logs(rt)
}

/// Hands out the return data and forgets it.
pub fn take_return_data(rt: &mut MockRuntime) -> (drained: Vec<u8>)
    ensures
        drained@ == old(rt)@.return_data,
        final(rt)@ == (RuntimeView { return_data: Seq::empty(), ..old(rt)@ }),
{
    host::take_return_data(rt)
}

/// The payload stored under a key of an account; empty where nothing is
/// stored.
pub fn inspect_storage(rt: &MockRuntime, account: &str, key: &str) -> (data: Vec<u8>)
    ensures
        data@ == rt@.payload(account@, key@),
{
    host::inspect_storage(rt, account, key)
}

} // verus!
