//! Checks on arguments; each rejection is an `InvalidArgument` with its reason.

use crate::error::{fails_with, invalid_argument, ContractError, ContractResult, ErrorView};
use vstd::prelude::*;
use vstd::string::*;

verus! {

/// Fewest bytes an address may have.
pub const MIN_ADDRESS_LEN: usize = 10;

/// Most bytes an address may have.
pub const MAX_ADDRESS_LEN: usize = 100;

/// Number of bytes that a string occupies in UTF-8.
pub open spec fn byte_len(s: Seq<char>) -> nat {
    vstd::utf8::encode_utf8(s).len()
}

/// An address is well formed when it has between 10 and 100 bytes.
pub open spec fn valid_address(address: Seq<char>) -> bool {
    address.len() > 0 && MIN_ADDRESS_LEN <= byte_len(address) <= MAX_ADDRESS_LEN
}

/// The reason for which an address is rejected, where it is.
pub open spec fn address_fault(address: Seq<char>) -> Option<Seq<char>> {
    if address.len() == 0 {
        Some("Address cannot be empty"@)
    } else if byte_len(address) < MIN_ADDRESS_LEN || byte_len(address) > MAX_ADDRESS_LEN {
        Some("Invalid address length"@)
    } else {
        None
    }
}

/// What `str::trim` leaves of a string: the string without the white space
/// at its two ends.
pub uninterp spec fn trimmed(s: Seq<char>) -> Seq<char>;

/// `str::trim` of std. The result is a part of the argument, so it is no
/// longer than the argument.
#[verifier::external_body]
fn trim(value: &str) -> (r: &str)
    ensures
        r@ == trimmed(value@),
        r@.len() <= value@.len(),
{
    value.trim()
}

/// Accepts an address of 10 to 100 bytes.
pub fn validate_address(address: &str) -> (r: ContractResult<()>)
    ensures
        r is Ok <==> valid_address(address@),
        r is Err ==> address_fault(address@) is Some && fails_with(
            r,
            ErrorView::InvalidArgument(address_fault(address@)->0),
        ),
{
    if address.is_empty() {
        return Err(invalid_argument("Address cannot be empty"));
    }
    let len = address.as_bytes().len();
    if len < MIN_ADDRESS_LEN || len > MAX_ADDRESS_LEN {
        return Err(invalid_argument("Invalid address length"));
    }
    Ok(())
}

/// Accepts a value that holds more than white space; the rejection names the
/// field.
pub fn validate_non_empty(value: &str, field_name: &str) -> (r: ContractResult<()>)
    ensures
        r is Ok <==> trimmed(value@).len() > 0,
        r is Err ==> fails_with(r, ErrorView::InvalidArgument(field_name@ + " cannot be empty"@)),
        value@.len() == 0 ==> r is Err,
{
    validate_trimmed(trim(value), field_name)
}

/// Accepts what is left of a value once the white space at its ends is
/// gone, unless nothing is left; the rejection names the field.
pub fn validate_trimmed(rest: &str, field_name: &str) -> (r: ContractResult<()>)
    ensures
        r is Ok <==> rest@.len() > 0,
        r is Err ==> fails_with(r, ErrorView::InvalidArgument(field_name@ + " cannot be empty"@)),
{
    if rest.is_empty() {
        let mut reason = String::from_str(field_name);
        reason.append(" cannot be empty");
        return Err(ContractError::InvalidArgument(reason));
    }
    Ok(())
}

/// Accepts an amount above zero.
pub fn validate_positive_amount(amount: u64) -> (r: ContractResult<()>)
    ensures
        r is Ok <==> amount > 0,
        r is Err ==> fails_with(r, ErrorView::InvalidArgument("Amount must be positive"@)),
{
    if amount == 0 {
        return Err(invalid_argument("Amount must be positive"));
    }
    Ok(())
}

/// Accepts a token identifier other than zero.
pub fn validate_token_id(token_id: u64) -> (r: ContractResult<()>)
    ensures
        r is Ok <==> token_id != 0,
        r is Err ==> fails_with(r, ErrorView::InvalidArgument("Token ID cannot be zero"@)),
{
    if token_id == 0 {
        return Err(invalid_argument("Token ID cannot be zero"));
    }
    Ok(())
}

/// Accepts a list in which every address is well formed; the rejection is
/// that of the first address that is not.
pub fn validate_addresses(addresses: &[&str]) -> (r: ContractResult<()>)
    ensures
        r is Ok <==> forall|i: int| 0 <= i < addresses@.len() ==> valid_address(addresses@[i]@),
        r is Err ==> exists|k: int|
            {
                &&& 0 <= k < addresses@.len()
                &&& forall|i: int| 0 <= i < k ==> valid_address(addresses@[i]@)
                &&& address_fault(#[trigger] addresses@[k]@) is Some
                &&& fails_with(r, ErrorView::InvalidArgument(address_fault(addresses@[k]@)->0))
            },
{
    let mut idx: usize = 0;
    while idx < addresses.len()
        invariant
            idx <= addresses@.len(),
            forall|i: int| 0 <= i < idx ==> valid_address(addresses@[i]@),
        decreases addresses@.len() - idx,
    {
        match validate_address(addresses[idx]) {
            Ok(()) => {},
            Err(e) => {
                return Err(e);
            },
        }
        idx += 1;
    }
    Ok(())
}

/// Accepts a value between `min` and `max`, both included.
pub fn validate_range(value: u64, min: u64, max: u64) -> (r: ContractResult<()>)
    ensures
        r is Ok <==> min <= value <= max,
        r is Err ==> fails_with(r, ErrorView::InvalidArgument("Value out of range"@)),
{
    if value < min || value > max {
        return Err(invalid_argument("Value out of range"));
    }
    Ok(())
}

} // verus!
