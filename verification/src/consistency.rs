//! Data consistency checks, input length validation, standardized error
//! payloads and instruction-budget estimates.
use vstd::prelude::*;
use crate::error_codes::ContractError;

verus! {

/// Result of a consistency check run; any `false` field is an inconsistency.
#[derive(Clone, Copy, Debug, PartialEq, Eq, Structural)]
pub struct ConsistencyReport {
    /// Config struct was found in storage.
    pub config_present: bool,
    /// Total-staked counter is non-negative.
    pub total_staked_non_negative: bool,
    /// Admin / threshold settings are internally consistent.
    pub admin_threshold_valid: bool,
    /// All checks passed.
    pub ok: bool,
}

impl ConsistencyReport {
    /// Builds a report; `ok` holds exactly when all three checks hold.
    pub fn new(
        config_present: bool,
        total_staked_non_negative: bool,
        admin_threshold_valid: bool,
    ) -> (r: Self)
        ensures
            r.config_present == config_present,
            r.total_staked_non_negative == total_staked_non_negative,
            r.admin_threshold_valid == admin_threshold_valid,
            r.ok == (config_present && total_staked_non_negative && admin_threshold_valid),
    {
        let ok = config_present && total_staked_non_negative && admin_threshold_valid;
        ConsistencyReport { config_present, total_staked_non_negative, admin_threshold_valid, ok }
    }
}

/// `Ok` when `value >= 0`, else `InvalidInput`.
pub fn assert_non_negative(value: i128) -> (r: Result<(), ContractError>)
    ensures
        r == (if value >= 0 {
            Ok::<(), ContractError>(())
        } else {
            Err::<(), ContractError>(ContractError::InvalidInput)
        }),
{
    if value < 0 {
        return Err(ContractError::InvalidInput);
    }
    Ok(())
}

/// `Ok` when `a <= b`, else `InvalidInput`.
pub fn assert_lte(a: i128, b: i128) -> (r: Result<(), ContractError>)
    ensures
        r == (if a <= b {
            Ok::<(), ContractError>(())
        } else {
            Err::<(), ContractError>(ContractError::InvalidInput)
        }),
{
    if a > b {
        return Err(ContractError::InvalidInput);
    }
    Ok(())
}

/// `Ok` when `admin_count >= threshold`, else `InvalidInput`.
pub fn assert_threshold_satisfiable(admin_count: u32, threshold: u32) -> (r: Result<
    (),
    ContractError,
>)
    ensures
        r == (if admin_count >= threshold {
            Ok::<(), ContractError>(())
        } else {
            Err::<(), ContractError>(ContractError::InvalidInput)
        }),
{
    if admin_count < threshold {
        return Err(ContractError::InvalidInput);
    }
    Ok(())
}

/// Maximum byte length for a proposal title.
pub const MAX_TITLE_BYTES: u32 = 256;
/// Maximum byte length for a proposal description.
pub const MAX_DESCRIPTION_BYTES: u32 = 4096;
/// Maximum number of addresses in a single argument.
pub const MAX_ADDRESS_LIST: u32 = 50;
/// Maximum byte length for any generic string parameter.
pub const MAX_STRING_BYTES: u32 = 1024;

/// `Ok` when the string (given by its bytes) is non-empty and at most
/// `max_bytes` long, else `InvalidInput`.
pub fn validate_string_len(s: &Vec<u8>, max_bytes: u32) -> (r: Result<(), ContractError>)
    ensures
        r == (if 0 < s@.len() <= max_bytes {
            Ok::<(), ContractError>(())
        } else {
            Err::<(), ContractError>(ContractError::InvalidInput)
        }),
{
    let len = s.len();
    if len == 0 || len > max_bytes as usize {
        return Err(ContractError::InvalidInput);
    }
    Ok(())
}

/// `Ok` when the vector is non-empty and has at most `max_len` entries, else
/// `InvalidInput`.
pub fn validate_vec_len<T>(v: &Vec<T>, max_len: u32) -> (r: Result<(), ContractError>)
    ensures
        r == (if 0 < v@.len() <= max_len {
            Ok::<(), ContractError>(())
        } else {
            Err::<(), ContractError>(ContractError::InvalidInput)
        }),
{
    let len = v.len();
    if len == 0 || len > max_len as usize {
        return Err(ContractError::InvalidInput);
    }
    Ok(())
}

/// The stable numeric code of an error.
pub open spec fn error_code(err: ContractError) -> u32 {
    match err {
        ContractError::InvalidInput => 1,
        ContractError::Overflow => 2,
        ContractError::DivisionByZero => 3,
        ContractError::Unauthorized => 4,
    }
}

/// A standardized `(code, message)` error payload.
#[derive(Debug)]
pub struct ErrorPayload {
    /// Stable numeric code of the error.
    pub code: u32,
    /// Human-readable description.
    pub message: String,
}

impl ErrorPayload {
    /// The payload for `err` with the given message.
    pub fn from_error(err: ContractError, message: String) -> (r: Self)
        ensures
            r.code == error_code(err),
            r.message@ == message@,
    {
        let code: u32 = match err {
            ContractError::InvalidInput => 1,
            ContractError::Overflow => 2,
            ContractError::DivisionByZero => 3,
            ContractError::Unauthorized => 4,
        };
        ErrorPayload { code, message }
    }
}

/// Approximate instruction cost of a single token transfer.
pub const INSTRUCTIONS_PER_TRANSFER: u64 = 200_000;
/// Approximate instruction cost of a single storage read.
pub const INSTRUCTIONS_PER_READ: u64 = 10_000;
/// Approximate instruction cost of a single storage write.
pub const INSTRUCTIONS_PER_WRITE: u64 = 20_000;
/// Percentage of the budget above which an operation should be split.
pub const BUDGET_WARN_THRESHOLD: u64 = 80;

/// `x` capped at `u64::MAX`.
pub open spec fn sat(x: int) -> int {
    if x > u64::MAX {
        u64::MAX as int
    } else {
        x
    }
}

/// `a * b`, saturating at `u64::MAX`.
fn sat_mul(a: u64, b: u64) -> (r: u64)
    ensures
        r == sat(a * b),
{
    match a.checked_mul(b) {
        Some(v) => v,
        None => u64::MAX,
    }
}

/// Estimated instruction count of `transfers` transfers, `reads` reads and
/// `writes` writes, each step saturating at `u64::MAX`.
pub fn estimate_instructions(transfers: u64, reads: u64, writes: u64) -> (r: u64)
    ensures
        r == sat(
            sat(sat(transfers * 200_000) + sat(reads * 10_000)) + sat(writes * 20_000),
        ),
{
    let t = sat_mul(transfers, INSTRUCTIONS_PER_TRANSFER);
    let r = sat_mul(reads, INSTRUCTIONS_PER_READ);
    let w = sat_mul(writes, INSTRUCTIONS_PER_WRITE);
    t.saturating_add(r).saturating_add(w)
}

/// `Overflow` when `estimated` exceeds 80% of `total_budget`, else `Ok`. The
/// limit is computed in 128 bits, so it is exact for every budget.
pub fn assert_budget_headroom(estimated: u64, total_budget: u64) -> (r: Result<
    (),
    ContractError,
>)
    ensures
        r == (if estimated as int * 100 > total_budget as int * 80 {
            Err::<(), ContractError>(ContractError::Overflow)
        } else {
            Ok::<(), ContractError>(())
        }),
{
    let threshold: u128 = (total_budget as u128) * (BUDGET_WARN_THRESHOLD as u128) / 100;
    assert(estimated as int * 100 > total_budget as int * 80 <==> estimated > threshold) by (
    nonlinear_arith)
        requires
            threshold == (total_budget as int * 80) / 100,
    ;
    if (estimated as u128) > threshold {
        return Err(ContractError::Overflow);
    }
    Ok(())
}

} // verus!
