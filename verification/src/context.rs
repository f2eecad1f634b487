//! The execution context: the facts of one invocation, fetched from the host
//! once and validated before a contract sees them.

use crate::codec::Storable;
use crate::error::{fails_with, invalid_argument, ContractError, ContractResult, ErrorView};
use crate::ffi;
use crate::ffi::host::{MockRuntime, RuntimeView};
use crate::security::validation::{
    address_fault, valid_address, validate_address, validate_positive_amount,
};
use vstd::prelude::*;

verus! {

/// Greatest block height that a context accepts.
pub const MAX_BLOCK_HEIGHT: u64 = 1_000_000_000_000_000;

/// Greatest block timestamp that a context accepts.
pub const MAX_BLOCK_TIMESTAMP: u64 = 10_000_000_000_000;

/// The facts of one invocation. A value of this type has passed validation
/// and does not change.
#[derive(Clone, Debug)]
pub struct Context {
    sender: String,
    contract_address: String,
    block_height: u64,
    block_timestamp: u64,
    value: u64,
}

/// The mathematical value of a [`Context`].
pub struct ContextView {
    pub sender: Seq<char>,
    pub contract_address: Seq<char>,
    pub block_height: u64,
    pub block_timestamp: u64,
    pub value: u64,
}

impl View for Context {
    type V = ContextView;

    closed spec fn view(&self) -> ContextView {
        ContextView {
            sender: self.sender@,
            contract_address: self.contract_address@,
            block_height: self.block_height,
            block_timestamp: self.block_timestamp,
            value: self.value,
        }
    }
}

/// The reason for which a block height and timestamp are rejected, where they
/// are: a height above 10^15, a timestamp above 10^13, or a timestamp of zero.
pub open spec fn block_fault(height: u64, timestamp: u64) -> Option<Seq<char>> {
    if height > MAX_BLOCK_HEIGHT {
        Some("Block height exceeds maximum bound"@)
    } else if timestamp > MAX_BLOCK_TIMESTAMP {
        Some("Block timestamp exceeds maximum bound"@)
    } else if timestamp == 0 {
        Some("Block timestamp cannot be zero"@)
    } else {
        None
    }
}

/// The reason for which the facts that a host reports are rejected, where
/// they are. The sender is looked at first, then the contract address, then
/// the block.
pub open spec fn context_fault(host: RuntimeView) -> Option<Seq<char>> {
    if address_fault(host.sender) is Some {
        address_fault(host.sender)
    } else if address_fault(host.contract_address) is Some {
        address_fault(host.contract_address)
    } else {
        block_fault(host.block_height, host.block_timestamp)
    }
}

/// The context that a host's facts make.
pub open spec fn snapshot(host: RuntimeView) -> ContextView {
    ContextView {
        sender: host.sender,
        contract_address: host.contract_address,
        block_height: host.block_height,
        block_timestamp: host.block_timestamp,
        value: host.value,
    }
}

/// The state of the host after return data was written.
pub open spec fn with_return_data(host: RuntimeView, data: Seq<u8>) -> RuntimeView {
    RuntimeView { return_data: data, ..host }
}

impl Context {
    /// Address that sent the transaction.
    pub fn sender(&self) -> (address: &str)
        ensures
            address@ == self@.sender,
    {
        self.sender.as_str()
    }

    /// Address of the running contract.
    pub fn contract_address(&self) -> (address: &str)
        ensures
            address@ == self@.contract_address,
    {
        self.contract_address.as_str()
    }

    /// Height of the current block.
    pub fn block_height(&self) -> (height: u64)
        ensures
            height == self@.block_height,
    {
        self.block_height
    }

    /// Timestamp of the current block, in seconds.
    pub fn block_timestamp(&self) -> (timestamp: u64)
        ensures
            timestamp == self@.block_timestamp,
    {
        self.block_timestamp
    }

    /// Value attached to the transaction.
    pub fn value(&self) -> (amount: u64)
        ensures
            amount == self@.value,
    {
        self.value
    }

    /// The raw payload of this invocation.
    pub fn call_data(&self, rt: &MockRuntime) -> (r: ContractResult<Vec<u8>>)
        ensures
            r matches Ok(data) && data@ == rt@.call_data,
    {
        ffi::read_call_data(rt)
    }

    /// Encodes a value and hands it to the host as the result of the call.
    /// Where the value cannot be encoded the host is left untouched.
    pub fn return_data<T: Storable>(&self, rt: &mut MockRuntime, value: &T) -> (r: ContractResult<
        (),
    >)
        ensures
            T::encodable(value@) ==> r is Ok && final(rt)@ == with_return_data(
                old(rt)@,
                T::encoding(value@),
            ),
            !T::encodable(value@) ==> final(rt)@ == old(rt)@ && fails_with(
                r,
                ErrorView::SerializationFailed,
            ),
    {
        match value.encode() {
            Ok(payload) => ffi::write_return_data(rt, payload.as_slice()),
            Err(_) => Err(ContractError::SerializationFailed),
        }
    }

    /// Hands raw bytes to the host as the result of the call.
    pub fn return_bytes(&self, rt: &mut MockRuntime, data: &[u8]) -> (r: ContractResult<()>)
        ensures
            r is Ok,
            final(rt)@ == with_return_data(old(rt)@, data@),
    {
        ffi::write_return_data(rt, data)
    }

    /// Transfers value from the contract to a recipient, once the recipient
    /// is a well-formed address and the amount is above zero.
    pub fn transfer_tokens(&self, recipient: &str, amount: u64) -> (r: ContractResult<()>)
        ensures
            r is Ok <==> valid_address(recipient@) && amount > 0,
            !valid_address(recipient@) ==> address_fault(recipient@) is Some && fails_with(
                r,
                ErrorView::InvalidArgument(address_fault(recipient@)->0),
            ),
            valid_address(recipient@) && amount == 0 ==> fails_with(
                r,
                ErrorView::InvalidArgument("Amount must be positive"@),
            ),
    {
        validate_address(recipient)?;
        validate_positive_amount(amount)?;
        ffi::transfer_tokens(recipient, amount)
    }

    /// Succeeds where the attached value is at least `required`.
    pub fn require_min_value(&self, required: u64) -> (r: ContractResult<()>)
        ensures
            self@.value >= required ==> r is Ok,
            self@.value < required ==> fails_with(
                r,
                ErrorView::InsufficientBalance { required, available: self@.value },
            ),
    {
        if self.value < required {
            return Err(ContractError::InsufficientBalance { required, available: self.value });
        }
        Ok(())
    }
}

/// The context of the current invocation, for a host whose facts are valid.
pub fn context(rt: &MockRuntime) -> (ctx: Context)
    requires
        context_fault(rt@) is None,
    ensures
        ctx@ == snapshot(rt@),
{
    Context {
        sender: ffi::get_sender_address(rt),
        contract_address: ffi::get_contract_addr(rt),
        block_height: ffi::get_block_height(rt),
        block_timestamp: ffi::get_block_timestamp(rt),
        value: ffi::get_value(rt),
    }
}

/// Fetches the facts of the current invocation from the host and validates
/// them. Succeeds exactly where nothing is at fault, and then exposes what
/// the host reported.
pub fn try_context(rt: &MockRuntime) -> (r: ContractResult<Context>)
    ensures
        context_fault(rt@) is None ==> (r matches Ok(ctx) && ctx@ == snapshot(rt@)),
        context_fault(rt@) is Some ==> fails_with(
            r,
            ErrorView::InvalidArgument(context_fault(rt@)->0),
        ),
{
    let sender = ffi::get_sender_address(rt);
    let contract_address = ffi::get_contract_addr(rt);
    let block_height = ffi::get_block_height(rt);
    let block_timestamp = ffi::get_block_timestamp(rt);
    let value = ffi::get_value(rt);

    validate_address(sender.as_str())?;
    validate_address(contract_address.as_str())?;
    ensure_block_parameters(block_height, block_timestamp)?;

    Ok(Context { sender, contract_address, block_height, block_timestamp, value })
}

/// Accepts a block height of at most 10^15 with a timestamp between 1 and
/// 10^13.
pub fn ensure_block_parameters(height: u64, timestamp: u64) -> (r: ContractResult<()>)
    ensures
        block_fault(height, timestamp) is None ==> r is Ok,
        block_fault(height, timestamp) is Some ==> fails_with(
            r,
            ErrorView::InvalidArgument(block_fault(height, timestamp)->0),
        ),
{
    if height > MAX_BLOCK_HEIGHT {
        return Err(invalid_argument("Block height exceeds maximum bound"));
    }
    if timestamp > MAX_BLOCK_TIMESTAMP {
        return Err(invalid_argument("Block timestamp exceeds maximum bound"));
    }
    if timestamp == 0 {
        return Err(invalid_argument("Block timestamp cannot be zero"));
    }
    if height == u64::MAX {
        return Err(invalid_argument("Block height is invalid"));
    }
    Ok(())
}

/// For every height of at most 10^15 and every timestamp between 1 and
/// 10^13, a host with well-formed addresses yields a context, and the context
/// holds that height and that timestamp beside the host's other facts.
pub proof fn lemma_context_exposes_injected_values(host: RuntimeView, height: u64, timestamp: u64)
    requires
        valid_address(host.sender),
        valid_address(host.contract_address),
        height <= MAX_BLOCK_HEIGHT,
        0 < timestamp <= MAX_BLOCK_TIMESTAMP,
    ensures
        ({
            let injected = RuntimeView { block_height: height, block_timestamp: timestamp, ..host };
            &&& context_fault(injected) is None
            &&& snapshot(injected).block_height == height
            &&& snapshot(injected).block_timestamp == timestamp
            &&& snapshot(injected).sender == host.sender
            &&& snapshot(injected).contract_address == host.contract_address
            &&& snapshot(injected).value == host.value
        }),
{
}

} // verus!
