//! Arithmetic on `u64` that reports overflow instead of wrapping.

use crate::error::{fails_with, invalid_argument, ContractError, ContractResult, ErrorView};
use vstd::arithmetic::power::pow as int_pow;
use vstd::prelude::*;

verus! {

/// `u64::checked_pow` of std: the power where it fits in a `u64`, `None`
/// where it does not. Taken from the documentation of std; not proved here.
pub assume_specification[ u64::checked_pow ](base: u64, exp: u32) -> (r: Option<u64>)
    ensures
        r == if int_pow(base as int, exp as nat) <= u64::MAX {
            Some(int_pow(base as int, exp as nat) as u64)
        } else {
            None
        },
;

/// The sum, or `Overflow` where it exceeds `u64::MAX`.
pub fn add(a: u64, b: u64) -> (r: ContractResult<u64>)
    ensures
        a + b <= u64::MAX ==> r == Ok::<u64, ContractError>((a + b) as u64),
        a + b > u64::MAX ==> fails_with(r, ErrorView::Overflow),
{
    match a.checked_add(b) {
        Some(result) => Ok(result),
        None => Err(ContractError::Overflow),
    }
}

/// The difference, or `Underflow` where `b` exceeds `a`.
pub fn sub(a: u64, b: u64) -> (r: ContractResult<u64>)
    ensures
        b <= a ==> r == Ok::<u64, ContractError>((a - b) as u64),
        b > a ==> fails_with(r, ErrorView::Underflow),
{
    match a.checked_sub(b) {
        Some(result) => Ok(result),
        None => Err(ContractError::Underflow),
    }
}

/// The product, or `Overflow` where it exceeds `u64::MAX`.
pub fn mul(a: u64, b: u64) -> (r: ContractResult<u64>)
    ensures
        a * b <= u64::MAX ==> r == Ok::<u64, ContractError>((a * b) as u64),
        a * b > u64::MAX ==> fails_with(r, ErrorView::Overflow),
{
    match a.checked_mul(b) {
        Some(result) => Ok(result),
        None => Err(ContractError::Overflow),
    }
}

/// The quotient rounded down, or `InvalidArgument` where the divisor is zero.
pub fn div(a: u64, b: u64) -> (r: ContractResult<u64>)
    ensures
        b != 0 ==> r == Ok::<u64, ContractError>(a / b),
        b == 0 ==> fails_with(r, ErrorView::InvalidArgument("Division by zero"@)),
{
    if b == 0 {
        return Err(invalid_argument("Division by zero"));
    }
    Ok(a / b)
}

/// `base` raised to `exp`, or `Overflow` where that exceeds `u64::MAX`.
pub fn pow(base: u64, exp: u32) -> (r: ContractResult<u64>)
    ensures
        int_pow(base as int, exp as nat) <= u64::MAX ==> r == Ok::<u64, ContractError>(
            int_pow(base as int, exp as nat) as u64,
        ),
        int_pow(base as int, exp as nat) > u64::MAX ==> fails_with(
            r,
            ErrorView::Overflow,
        ),
{
    match base.checked_pow(exp) {
        Some(result) => Ok(result),
        None => Err(ContractError::Overflow),
    }
}

/// The sum, held at `u64::MAX` where it would exceed it.
pub fn saturating_add(a: u64, b: u64) -> (r: u64)
    ensures
        r == if a + b <= u64::MAX { a + b } else { u64::MAX as int },
{
    a.saturating_add(b)
}

/// The difference, held at zero where `b` exceeds `a`.
pub fn saturating_sub(a: u64, b: u64) -> (r: u64)
    ensures
        r == if b <= a { a - b } else { 0 },
{
    a.saturating_sub(b)
}

} // verus!
