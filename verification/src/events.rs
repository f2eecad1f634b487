//! Events and log messages of a contract.

use crate::codec::Storable;
use crate::ffi;
use crate::ffi::host::{MockRuntime, RuntimeView};
use vstd::prelude::*;

verus! {

/// Emits an event with a topic and an encoded value. A value that cannot be
/// encoded emits nothing.
pub fn emit<T: Storable>(rt: &mut MockRuntime, topic: &str, data: &T)
    ensures
        T::encodable(data@) ==> final(rt)@ == (RuntimeView {
            events: old(rt)@.events.push((topic@, T::encoding(data@))),
            ..old(rt)@
        }),
        !T::encodable(data@) ==> final(rt)@ == old(rt)@,
{
    if let Ok(data_bytes) = data.encode() {
        ffi::emit_event_internal(rt, topic, data_bytes.as_slice());
    }
}

/// Logs a message.
pub fn log(rt: &mut MockRuntime, message: &str)
    ensures
        final(rt)@ == (RuntimeView { logs: old(rt)@.logs.push(message@), ..old(rt)@ }),
{
    ffi::log_message(rt, message);
}

} // verus!
