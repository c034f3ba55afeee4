//! The entry points of a collateral record, and the check on maintenance notes.

use vstd::prelude::*;
use vstd::string::StringSliceAdditionalSpecFns;

use crate::validation::{
    length_rule, reports, require_length, ValidationError, DEFAULT_MAX_STRING_LEN,
};

verus! {

/// Errors that may occur during operations on a collateral record.
#[derive(Clone, Copy, Debug, PartialEq, Eq, PartialOrd, Ord, Structural)]
pub enum ContractError {
    /// There is no maintenance record for the given number.
    NotFound,
    /// The caller may not modify the state.
    Unauthorized,
    /// The score cannot be reset in this state.
    InvalidReset,
}

impl ContractError {
    /// The number under which the error is reported.
    pub fn code(self) -> (n: u32)
        ensures
            n == match self {
                ContractError::NotFound => 1u32,
                ContractError::Unauthorized => 2u32,
                ContractError::InvalidReset => 3u32,
            },
    {
        match self {
            ContractError::NotFound => 1,
            ContractError::Unauthorized => 2,
            ContractError::InvalidReset => 3,
        }
    }
}

/// Accepts a maintenance submission for any collateral record.
pub fn submit_maintenance(_e: soroban_sdk::Env, _collateral_id: u64) -> (r: Result<
    (),
    ContractError,
>)
    ensures
        r is Ok,
{
    Ok(())
}

/// The score of a collateral record, which is zero until scoring takes place.
pub fn get_collateral_score(_e: soroban_sdk::Env, _collateral_id: u64) -> (score: i128)
    ensures
        score == 0,
{
    0
}

/// Checks the notes of a maintenance submission: they are neither empty nor longer than
/// [`DEFAULT_MAX_STRING_LEN`] bytes.
pub fn submit_maintenance_internal(notes: &str) -> (r: Result<(), ValidationError>)
    ensures
        reports(r, length_rule(notes.spec_bytes().len(), DEFAULT_MAX_STRING_LEN), "notes"@),
{
    require_length(notes.as_bytes().len(), "notes", DEFAULT_MAX_STRING_LEN)
}

} // verus!
