use perigee::error_codes::ContractError;
use perigee::rewards_calc::{
    multiplier_window, RewardParams,
    apply_multiplier, mul_div, require_in_window, require_not_expired, validate_ledger_sequence,
    Fixed, MAX_LEDGER_SEQUENCE, SCALE,
};

#[test]
fn test_validate_ledger_sequence_rejects_zero() {
    assert_eq!(validate_ledger_sequence(0), Err(ContractError::InvalidInput));
}

#[test]
fn test_validate_ledger_sequence_rejects_overflow() {
    assert_eq!(validate_ledger_sequence(u32::MAX), Err(ContractError::InvalidInput));
}

#[test]
fn test_validate_ledger_sequence_accepts_valid() {
    assert!(validate_ledger_sequence(1_000_000).is_ok());
    assert!(validate_ledger_sequence(MAX_LEDGER_SEQUENCE).is_ok());
}

#[test]
fn test_require_not_expired_ok() {
    assert!(require_not_expired(100, 200).is_ok());
}

#[test]
fn test_require_not_expired_err() {
    assert!(require_not_expired(200, 100).is_err());
    assert!(require_not_expired(200, 200).is_err());
}

#[test]
fn test_apply_multiplier_no_growth() {
    let m = Fixed::one();
    let r = apply_multiplier(1000, 0, m).unwrap();
    assert_eq!(r, 0);
}

#[test]
fn windows_and_ledger_bounds() {
    assert_eq!(MAX_LEDGER_SEQUENCE, u32::MAX / 2);
    assert!(validate_ledger_sequence(MAX_LEDGER_SEQUENCE + 1).is_err());
    assert_eq!(require_in_window(10, 10, 20), Ok(()));
    assert_eq!(require_in_window(20, 10, 20), Err(ContractError::InvalidInput));
    assert_eq!(require_in_window(9, 10, 20), Err(ContractError::InvalidInput));
    assert_eq!(require_in_window(15, 20, 10), Err(ContractError::InvalidInput));
}

#[test]
fn multiplier_compounds_the_virtual_balance() {
    // 1.1x on (1000 + 100): 1210 - 1000 = 210.
    assert_eq!(apply_multiplier(1000, 100, Fixed(SCALE + SCALE / 10)), Ok(210));
    // A unit multiplier keeps the accrued rewards.
    assert_eq!(apply_multiplier(1000, 55, Fixed(SCALE)), Ok(55));
    assert_eq!(apply_multiplier(i128::MAX, 1, Fixed(SCALE)), Err(ContractError::Overflow));
}

#[test]
fn mul_div_signs_and_failures() {
    assert_eq!(mul_div(6, 7, 4), Some(10));
    assert_eq!(mul_div(-6, 7, 4), Some(-10));
    assert_eq!(mul_div(-6, -7, -4), Some(-10));
    assert_eq!(mul_div(1, 1, 0), None);
    assert_eq!(mul_div(i128::MAX, i128::MAX, 1), None);
    assert_eq!(mul_div(i128::MAX, i128::MAX, i128::MAX), Some(i128::MAX));
}

#[test]
fn multiplier_window_empty_windows_and_decay_checks() {
    let no_decay = RewardParams { initial_rate: Fixed(SCALE / 100), decay_rate: Fixed(0), start_block: 100 };
    // An empty or reversed window: the multiplier is exactly one.
    assert_eq!(multiplier_window(&no_decay, 50, 50), Ok(None));
    assert_eq!(multiplier_window(&no_decay, 60, 50), Ok(None));
    // A window ending before the start.
    assert_eq!(multiplier_window(&no_decay, 10, 90), Ok(None));
    // Offsets from the start block, clamped at the start.
    assert_eq!(multiplier_window(&no_decay, 10, 150), Ok(Some((0, 50))));
    assert_eq!(multiplier_window(&no_decay, 120, 150), Ok(Some((20, 50))));
    let decaying = RewardParams { decay_rate: Fixed(SCALE / 10), ..no_decay.clone() };
    assert_eq!(multiplier_window(&decaying, 120, 150), Ok(Some((20, 50))));
    // alpha = 1 - d outside [0, 1].
    let too_fast = RewardParams { decay_rate: Fixed(2 * SCALE), ..no_decay.clone() };
    assert_eq!(multiplier_window(&too_fast, 120, 150), Err(ContractError::InvalidInput));
    let negative = RewardParams { decay_rate: Fixed(-1), ..no_decay.clone() };
    assert_eq!(multiplier_window(&negative, 120, 150), Err(ContractError::InvalidInput));
    let overflowing = RewardParams { decay_rate: Fixed(i128::MIN), ..no_decay.clone() };
    assert_eq!(multiplier_window(&overflowing, 120, 150), Err(ContractError::Overflow));
    // The decay checks only run on a non-empty window.
    assert_eq!(multiplier_window(&too_fast, 150, 120), Ok(None));
}
