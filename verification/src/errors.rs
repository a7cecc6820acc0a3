//! ChronoPay error codes and their conversion to and from the Soroban
//! contract-error value (`soroban_sdk::Error`).

use vstd::prelude::*;
use soroban_sdk::Error;

verus! {

/// The Soroban error value; opaque here.
#[verifier::external_type_specification]
#[verifier::external_body]
pub struct ExSorobanError(soroban_sdk::Error);

/// The Soroban error value that `Error::from_contract_error` builds from a code.
pub uninterp spec fn contract_error(code: u32) -> Error;

/// Calls `soroban_sdk::Error::from_contract_error`, which packs `code` as
/// the code of an error of type `Contract`. Claimed: the result depends on
/// the code alone.
#[verifier::external_body]
fn sdk_contract_error(code: u32) -> (e: Error)
    ensures
        e == contract_error(code),
{
    Error::from_contract_error(code)
}

/// Converts an error into a `soroban_sdk::Val` and that `Val` into a `u32`
/// (`u32::try_from(Val)`). The `Val` of an error carries the `Error` tag,
/// and that conversion accepts only `U32Val`-tagged values, so it always
/// fails. Claimed: the result is `None`.
#[verifier::external_body]
fn error_val_as_u32(e: Error) -> (r: Option<u32>)
    ensures
        r is None,
{
    let val: soroban_sdk::Val = e.into();
    u32::try_from(val).ok()
}

/// ChronoPay contract errors.
///
/// Each variant represents a distinct failure mode that can occur during
/// contract operations.
#[derive(Debug, Copy, Clone, PartialEq, Eq, Structural)]
pub enum ChronoPayError {
    /// Caller is not authorized to perform this action.
    Unauthorized,
    /// The specified address is invalid.
    InvalidAddress,
    /// The time token has already been sold and cannot be transferred.
    TokenAlreadySold,
    /// The time token has already been redeemed and cannot be redeemed again.
    TokenAlreadyRedeemed,
    /// The time token does not exist or has not been minted.
    TokenNotFound,
    /// The caller does not own the specified time token.
    TokenNotOwned,
    /// The transfer operation failed.
    TransferFailed,
    /// Insufficient balance for the requested operation.
    InsufficientBalance,
    /// The time slot is invalid or expired.
    InvalidTimeSlot,
}

impl ChronoPayError {
    /// The numeric code of this error.
    pub open spec fn spec_code(self) -> u32 {
        match self {
            ChronoPayError::Unauthorized => 1,
            ChronoPayError::InvalidAddress => 2,
            ChronoPayError::TokenAlreadySold => 3,
            ChronoPayError::TokenAlreadyRedeemed => 4,
            ChronoPayError::TokenNotFound => 5,
            ChronoPayError::TokenNotOwned => 6,
            ChronoPayError::TransferFailed => 7,
            ChronoPayError::InsufficientBalance => 8,
            ChronoPayError::InvalidTimeSlot => 9,
        }
    }

    /// The numeric code of this error (1 to 9, in declaration order).
    pub fn code(&self) -> (c: u32)
        ensures
            c == self.spec_code(),
    {
        match self {
            ChronoPayError::Unauthorized => 1,
            ChronoPayError::InvalidAddress => 2,
            ChronoPayError::TokenAlreadySold => 3,
            ChronoPayError::TokenAlreadyRedeemed => 4,
            ChronoPayError::TokenNotFound => 5,
            ChronoPayError::TokenNotOwned => 6,
            ChronoPayError::TransferFailed => 7,
            ChronoPayError::InsufficientBalance => 8,
            ChronoPayError::InvalidTimeSlot => 9,
        }
    }

    /// The error with the given code, if any.
    pub fn from_code(code: u32) -> (r: Option<ChronoPayError>)
        ensures
            r matches Some(e) ==> e.spec_code() == code,
            r is None <==> !(1 <= code <= 9),
    {
        match code {
            1 => Some(ChronoPayError::Unauthorized),
            2 => Some(ChronoPayError::InvalidAddress),
            3 => Some(ChronoPayError::TokenAlreadySold),
            4 => Some(ChronoPayError::TokenAlreadyRedeemed),
            5 => Some(ChronoPayError::TokenNotFound),
            6 => Some(ChronoPayError::TokenNotOwned),
            7 => Some(ChronoPayError::TransferFailed),
            8 => Some(ChronoPayError::InsufficientBalance),
            9 => Some(ChronoPayError::InvalidTimeSlot),
            _ => None,
        }
    }

    /// Reads a ChronoPay error back from a Soroban error by converting it to
    /// a `Val` and reading that as a `u32` code. Since an error's `Val` is
    /// never a `u32`, the error is always handed back unchanged.
    pub fn try_from_error(e: Error) -> (r: Result<ChronoPayError, Error>)
        ensures
            r == Err::<ChronoPayError, Error>(e),
    {
        match error_val_as_u32(e) {
            Some(code) => match ChronoPayError::from_code(code) {
                Some(err) => Ok(err),
                None => Err(e),
            },
            None => Err(e),
        }
    }
}

impl From<ChronoPayError> for Error {
    fn from(e: ChronoPayError) -> (r: Error) {
        sdk_contract_error(e.code())
    }
}

impl vstd::std_specs::convert::FromSpecImpl<ChronoPayError> for Error {
    open spec fn obeys_from_spec() -> bool {
        true
    }

    open spec fn from_spec(e: ChronoPayError) -> Error {
        contract_error(e.spec_code())
    }
}

impl From<&ChronoPayError> for Error {
    fn from(e: &ChronoPayError) -> (r: Error) {
        sdk_contract_error(e.code())
    }
}

impl vstd::std_specs::convert::FromSpecImpl<&ChronoPayError> for Error {
    open spec fn obeys_from_spec() -> bool {
        true
    }

    open spec fn from_spec(e: &ChronoPayError) -> Error {
        contract_error(e.spec_code())
    }
}

impl TryFrom<Error> for ChronoPayError {
    type Error = Error;

    fn try_from(e: Error) -> (r: Result<ChronoPayError, Error>) {
        ChronoPayError::try_from_error(e)
    }
}

impl vstd::std_specs::convert::TryFromSpecImpl<Error> for ChronoPayError {
    open spec fn obeys_try_from_spec() -> bool {
        true
    }

    open spec fn try_from_spec(e: Error) -> Result<ChronoPayError, Error> {
        Err(e)
    }
}

} // verus!
