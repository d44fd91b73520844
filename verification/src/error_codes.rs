use vstd::prelude::*;

verus! {

/// Shared error codes used by the math, governance, staking and migration
/// helpers.
#[derive(Clone, Copy, Debug, PartialEq, Eq, Structural)]
pub enum ContractError {
    /// An argument was out of range or otherwise malformed.
    InvalidInput,
    /// An arithmetic result does not fit its integer type.
    Overflow,
    /// A divisor was zero.
    DivisionByZero,
    /// The caller may not perform the operation (also: re-entrant call).
    Unauthorized,
}

} // verus!
