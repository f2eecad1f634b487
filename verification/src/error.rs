//! Error values shared by every operation of the runtime.

use crate::primitives::{decimal, format_u64};
use vstd::prelude::*;
use vstd::string::*;

verus! {

/// Why a contract operation did not complete.
#[derive(Debug, Clone)]
pub enum ContractError {
    /// The host refused a storage read.
    StorageReadFailed,
    /// The host refused a storage write.
    StorageWriteFailed,
    /// A value could not be encoded.
    SerializationFailed,
    /// Stored bytes do not decode to the requested type.
    DeserializationFailed,
    /// The caller lacks the required authority.
    Unauthorized,
    /// Less value is attached than the operation needs.
    InsufficientBalance { required: u64, available: u64 },
    /// An argument was rejected; the text says why.
    InvalidArgument(String),
    /// A call into another contract failed.
    ContractCallFailed(String),
    /// The host refused a token transfer.
    TransferFailed,
    /// The call data of this invocation could not be read.
    CallDataUnavailable,
    /// The host refused the return data.
    ReturnDataWriteFailed,
    /// A public key is malformed.
    InvalidSignature,
    /// An arithmetic result exceeds the numeric range.
    Overflow,
    /// An arithmetic result falls below zero.
    Underflow,
    /// A guarded section was entered while one was active.
    ReentrancyDetected,
    /// Any other failure, described by its message.
    Custom(String),
}

/// The mathematical value of a [`ContractError`]: the same variants, with
/// messages as character sequences.
pub enum ErrorView {
    StorageReadFailed,
    StorageWriteFailed,
    SerializationFailed,
    DeserializationFailed,
    Unauthorized,
    InsufficientBalance { required: u64, available: u64 },
    InvalidArgument(Seq<char>),
    ContractCallFailed(Seq<char>),
    TransferFailed,
    CallDataUnavailable,
    ReturnDataWriteFailed,
    InvalidSignature,
    Overflow,
    Underflow,
    ReentrancyDetected,
    Custom(Seq<char>),
}

impl View for ContractError {
    type V = ErrorView;

    open spec fn view(&self) -> ErrorView {
        match *self {
            ContractError::StorageReadFailed => ErrorView::StorageReadFailed,
            ContractError::StorageWriteFailed => ErrorView::StorageWriteFailed,
            ContractError::SerializationFailed => ErrorView::SerializationFailed,
            ContractError::DeserializationFailed => ErrorView::DeserializationFailed,
            ContractError::Unauthorized => ErrorView::Unauthorized,
            ContractError::InsufficientBalance { required, available } => {
                ErrorView::InsufficientBalance { required, available }
            },
            ContractError::InvalidArgument(msg) => ErrorView::InvalidArgument(msg@),
            ContractError::ContractCallFailed(msg) => ErrorView::ContractCallFailed(msg@),
            ContractError::TransferFailed => ErrorView::TransferFailed,
            ContractError::CallDataUnavailable => ErrorView::CallDataUnavailable,
            ContractError::ReturnDataWriteFailed => ErrorView::ReturnDataWriteFailed,
            ContractError::InvalidSignature => ErrorView::InvalidSignature,
            ContractError::Overflow => ErrorView::Overflow,
            ContractError::Underflow => ErrorView::Underflow,
            ContractError::ReentrancyDetected => ErrorView::ReentrancyDetected,
            ContractError::Custom(msg) => ErrorView::Custom(msg@),
        }
    }
}

/// What every fallible operation of the runtime returns.
pub type ContractResult<T> = Result<T, ContractError>;

/// Whether a result is the failure whose value is `kind`.
pub open spec fn fails_with<T>(r: ContractResult<T>, kind: ErrorView) -> bool {
    r matches Err(e) && e@ == kind
}

/// Builds the rejection of an argument with the given reason.
pub fn invalid_argument(message: &str) -> (e: ContractError)
    ensures
        e@ == ErrorView::InvalidArgument(message@),
{
    ContractError::InvalidArgument(message.to_owned())
}

/// The message of an error.
pub open spec fn error_text(error: ErrorView) -> Seq<char> {
    match error {
        ErrorView::StorageReadFailed => "Storage read failed"@,
        ErrorView::StorageWriteFailed => "Storage write failed"@,
        ErrorView::SerializationFailed => "Serialization failed"@,
        ErrorView::DeserializationFailed => "Deserialization failed"@,
        ErrorView::Unauthorized => "Unauthorized access"@,
        ErrorView::InsufficientBalance { required, available } => {
            "Insufficient balance: required "@ + decimal(required as nat) + ", available "@
                + decimal(available as nat)
        },
        ErrorView::InvalidArgument(reason) => "Invalid argument: "@ + reason,
        ErrorView::ContractCallFailed(reason) => "Contract call failed: "@ + reason,
        ErrorView::TransferFailed => "Transfer failed"@,
        ErrorView::CallDataUnavailable => "Call data unavailable"@,
        ErrorView::ReturnDataWriteFailed => "Unable to write return data"@,
        ErrorView::InvalidSignature => "Invalid signature"@,
        ErrorView::Overflow => "Arithmetic overflow"@,
        ErrorView::Underflow => "Arithmetic underflow"@,
        ErrorView::ReentrancyDetected => "Reentrancy attack detected"@,
        ErrorView::Custom(text) => text,
    }
}

impl ContractError {
    /// The message of this error.
    pub fn message(&self) -> (text: String)
        ensures
            text@ == error_text(self@),
    {
        match self {
            ContractError::StorageReadFailed => "Storage read failed".to_owned(),
            ContractError::StorageWriteFailed => "Storage write failed".to_owned(),
            ContractError::SerializationFailed => "Serialization failed".to_owned(),
            ContractError::DeserializationFailed => "Deserialization failed".to_owned(),
            ContractError::Unauthorized => "Unauthorized access".to_owned(),
            ContractError::InsufficientBalance { required, available } => {
                let mut text = String::from_str("Insufficient balance: required ");
                text.append(format_u64(*required).as_str());
                text.append(", available ");
                text.append(format_u64(*available).as_str());
                text
            },
            ContractError::InvalidArgument(reason) => {
                let mut text = String::from_str("Invalid argument: ");
                text.append(reason.as_str());
                text
            },
            ContractError::ContractCallFailed(reason) => {
                let mut text = String::from_str("Contract call failed: ");
                text.append(reason.as_str());
                text
            },
            ContractError::TransferFailed => "Transfer failed".to_owned(),
            ContractError::CallDataUnavailable => "Call data unavailable".to_owned(),
            ContractError::ReturnDataWriteFailed => "Unable to write return data".to_owned(),
            ContractError::InvalidSignature => "Invalid signature".to_owned(),
            ContractError::Overflow => "Arithmetic overflow".to_owned(),
            ContractError::Underflow => "Arithmetic underflow".to_owned(),
            ContractError::ReentrancyDetected => "Reentrancy attack detected".to_owned(),
            ContractError::Custom(text) => text.clone(),
        }
    }
}

} // verus!
