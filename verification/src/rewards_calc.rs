//! Staking reward arithmetic: ledger-sequence validation for time inputs,
//! the accrual window of the compounding multiplier, and the application of
//! a multiplier to a staker's balance.
//!
//! Accrued rewards grow as `R_new = (S + R_old) * multiplier - S` for a staked
//! amount `S`, with the multiplier an 18-decimal fixed-point value.
use vstd::prelude::*;
use crate::error_codes::ContractError;
use crate::decimal_norm::{abs_spec, max_divisor, mul_div_u128, unsigned_abs};

verus! {

/// 18-decimal fixed-point unit.
pub const SCALE: i128 = 1_000_000_000_000_000_000;

/// Largest ledger sequence accepted for time-based inputs (`u32::MAX / 2`).
pub const MAX_LEDGER_SEQUENCE: u32 = 2_147_483_647;

/// An 18-decimal fixed-point number (`1.0 == Fixed(SCALE)`).
#[derive(Clone, Copy, Debug, PartialEq, Eq, Structural)]
pub struct Fixed(pub i128);

impl Fixed {
    /// `1.0`.
    pub fn one() -> (r: Fixed)
        ensures
            r.0 == SCALE,
    {
        Fixed(SCALE)
    }
}

/// Inputs of the reward-rate schedule.
#[derive(Clone, Copy, Debug, PartialEq, Eq, Structural)]
pub struct RewardParams {
    /// Initial reward rate `r0`.
    pub initial_rate: Fixed,
    /// Decay rate `d` (`alpha = 1 - d`).
    pub decay_rate: Fixed,
    /// Ledger at which rewards start accruing.
    pub start_block: u32,
}

/// The accrual window of the compounding multiplier over the ledgers
/// `[t1, t2]`, counted from `start_block`: `Ok(None)` when the window is empty
/// (the multiplier is exactly `1.0`), else `Ok(Some((k1, k2)))` with
/// `k1 < k2`. With a nonzero decay rate `d`, `alpha = 1 - d` must fit
/// (`Overflow` otherwise) and lie in `[0, 1]` (`InvalidInput` otherwise).
pub open spec fn window_spec(params: RewardParams, t1: u32, t2: u32) -> Result<
    Option<(u32, u32)>,
    ContractError,
> {
    let s = params.start_block;
    let e1: u32 = if t1 >= s { t1 } else { s };
    let e2: u32 = if t2 >= s { t2 } else { s };
    let alpha = SCALE - params.decay_rate.0;
    if t2 <= t1 || e2 <= e1 {
        Ok(None)
    } else if params.decay_rate.0 == 0 {
        Ok(Some(((e1 - s) as u32, (e2 - s) as u32)))
    } else if alpha > i128::MAX {
        Err(ContractError::Overflow)
    } else if alpha < 0 || alpha > SCALE {
        Err(ContractError::InvalidInput)
    } else {
        Ok(Some(((e1 - s) as u32, (e2 - s) as u32)))
    }
}

/// The window and decay checks that open the compounding-multiplier
/// computation (see `window_spec`); the multiplier itself,
/// `exp(r0 * (alpha^k1 - alpha^k2) / d)` or `exp(r0 * (k2 - k1))` without
/// decay, is computed from the offsets returned here.
pub fn multiplier_window(params: &RewardParams, t1: u32, t2: u32) -> (r: Result<
    Option<(u32, u32)>,
    ContractError,
>)
    ensures
        r == window_spec(*params, t1, t2),
        r matches Ok(Some((k1, k2))) ==> k1 < k2 && k2 as int == (if t2 >= params.start_block {
            t2
        } else {
            params.start_block
        }) - params.start_block,
{
    if t2 <= t1 {
        return Ok(None);
    }
    let t_start = params.start_block;
    let t1_eff = if t1 >= t_start { t1 } else { t_start };
    let t2_eff = if t2 >= t_start { t2 } else { t_start };
    if t2_eff <= t1_eff {
        return Ok(None);
    }
    let k1 = t1_eff - t_start;
    let k2 = t2_eff - t_start;
    if params.decay_rate.0 == 0 {
        return Ok(Some((k1, k2)));
    }
    let alpha = match SCALE.checked_sub(params.decay_rate.0) {
        Some(a) => a,
        None => return Err(ContractError::Overflow),
    };
    if alpha < 0 || alpha > SCALE {
        return Err(ContractError::InvalidInput);
    }
    Ok(Some((k1, k2)))
}

/// Whether a ledger sequence is plausible: non-zero and at most
/// `MAX_LEDGER_SEQUENCE`.
pub open spec fn ledger_ok(seq: u32) -> bool {
    seq != 0 && seq <= MAX_LEDGER_SEQUENCE
}

/// Rounds toward zero, as Rust's signed `/`: the magnitude is floored and the
/// sign is negative when an odd number of operands are.
pub open spec fn mul_div_spec(a: int, b: int, d: int) -> Option<i128> {
    if d == 0 {
        None
    } else {
        let q = (abs_spec(a) * abs_spec(b)) / abs_spec(d);
        if q > i128::MAX {
            None
        } else if ((a < 0) != (b < 0)) != (d < 0) {
            Some((-q) as i128)
        } else {
            Some(q as i128)
        }
    }
}

/// What `apply_multiplier(staked, accrued, multiplier)` evaluates to.
pub open spec fn apply_multiplier_spec(staked: int, accrued: int, multiplier: int) -> Result<
    i128,
    ContractError,
> {
    let v_old = staked + accrued;
    if v_old < i128::MIN || v_old > i128::MAX {
        Err(ContractError::Overflow)
    } else {
        match mul_div_spec(v_old, multiplier, SCALE as int) {
            None => Err(ContractError::Overflow),
            Some(v_new) => {
                let r = v_new - staked;
                if r < i128::MIN || r > i128::MAX {
                    Err(ContractError::Overflow)
                } else {
                    Ok(r as i128)
                }
            },
        }
    }
}

/// Validates a ledger sequence given as an argument: zero and values past
/// `MAX_LEDGER_SEQUENCE` are `InvalidInput`.
pub fn validate_ledger_sequence(seq: u32) -> (r: Result<(), ContractError>)
    ensures
        r == (if ledger_ok(seq) {
            Ok::<(), ContractError>(())
        } else {
            Err(ContractError::InvalidInput)
        }),
{
    if seq == 0 {
        return Err(ContractError::InvalidInput);
    }
    if seq > MAX_LEDGER_SEQUENCE {
        return Err(ContractError::InvalidInput);
    }
    Ok(())
}

/// Requires `expiry > now`.
pub fn require_not_expired(now: u32, expiry: u32) -> (r: Result<(), ContractError>)
    ensures
        r == (if expiry > now {
            Ok::<(), ContractError>(())
        } else {
            Err(ContractError::InvalidInput)
        }),
{
    if expiry <= now {
        return Err(ContractError::InvalidInput);
    }
    Ok(())
}

/// Requires a well-formed window `start <= end` with `start <= now < end`.
pub fn require_in_window(now: u32, start: u32, end: u32) -> (r: Result<(), ContractError>)
    ensures
        r == (if start <= end && start <= now && now < end {
            Ok::<(), ContractError>(())
        } else {
            Err(ContractError::InvalidInput)
        }),
{
    if start > end {
        return Err(ContractError::InvalidInput);
    }
    if now < start || now >= end {
        return Err(ContractError::InvalidInput);
    }
    Ok(())
}

/// `a * b / d` through a 256-bit intermediate, truncated toward zero; `None`
/// for a zero divisor or a result outside `i128`.
pub fn mul_div(a: i128, b: i128, d: i128) -> (r: Option<i128>)
    ensures
        r == mul_div_spec(a as int, b as int, d as int),
{
    if d == 0 {
        return None;
    }
    let a_abs = unsigned_abs(a);
    let b_abs = unsigned_abs(b);
    let d_abs = unsigned_abs(d);
    assert(d_abs as int <= max_divisor());
    let (res_abs, overflow) = mul_div_u128(a_abs, b_abs, d_abs);
    if overflow || res_abs > 0x7fff_ffff_ffff_ffff_ffff_ffff_ffff_ffffu128 {
        return None;
    }
    let res = res_abs as i128;
    if ((a < 0) != (b < 0)) != (d < 0) {
        Some(-res)
    } else {
        Some(res)
    }
}

/// New accrued rewards after compounding: `(staked + accrued) * multiplier
/// / SCALE - staked`, with every step checked (`Overflow` otherwise).
pub fn apply_multiplier(staked: i128, accrued: i128, multiplier: Fixed) -> (r: Result<
    i128,
    ContractError,
>)
    ensures
        r == apply_multiplier_spec(staked as int, accrued as int, multiplier.0 as int),
{
    let v_old = match staked.checked_add(accrued) {
        Some(v) => v,
        None => return Err(ContractError::Overflow),
    };
    let v_new = match mul_div(v_old, multiplier.0, SCALE) {
        Some(v) => v,
        None => return Err(ContractError::Overflow),
    };
    match v_new.checked_sub(staked) {
        Some(v) => Ok(v),
        None => Err(ContractError::Overflow),
    }
}

/// A multiplier of exactly `1.0` leaves accrued rewards unchanged, whenever
/// the staker's virtual balance `staked + accrued` is an `i128` other than
/// `i128::MIN`.
pub proof fn law_unit_multiplier_keeps_rewards(staked: i128, accrued: i128)
    requires
        i128::MIN < staked + accrued <= i128::MAX,
    ensures
        apply_multiplier_spec(staked as int, accrued as int, SCALE as int) == Ok::<
            i128,
            ContractError,
        >(accrued),
{
    let v = staked + accrued;
    let x = abs_spec(v);
    let sc = SCALE as int;
    vstd::arithmetic::div_mod::lemma_div_multiples_vanish(x, sc);
    assert(x * sc == sc * x) by (nonlinear_arith);
    assert((abs_spec(v) * abs_spec(sc)) / abs_spec(sc) == x);
}

} // verus!
