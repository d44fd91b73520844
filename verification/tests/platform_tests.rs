use perigee::address::Addr;
use perigee::audit_trail::{evict_expired_vaults, AuditTrail, PolicyChangeDescriptor};
use perigee::consistency::{
    assert_budget_headroom, assert_lte, assert_non_negative, assert_threshold_satisfiable,
    estimate_instructions, validate_string_len, validate_vec_len, ConsistencyReport, ErrorPayload,
};
use perigee::error_codes::ContractError;
use perigee::migrations::{get_version, run_migration, MigrationVersion};
use perigee::reentrancy::ReentrancyGuard;
use perigee::typed_args::{BatchTransferArgs, CreateProposalArgs, StakeArgs};
use soroban_sdk::testutils::EnvTestConfig;
use soroban_sdk::xdr::ToXdr;
use soroban_sdk::Env;

fn env() -> Env {
    Env::new_with_config(EnvTestConfig { capture_snapshot_at_drop: false })
}

fn addr(s: &str) -> Addr {
    Addr::new(s.as_bytes().to_vec())
}

#[test]
fn migrations_bring_any_old_schema_to_the_current_version() {
    assert_eq!(MigrationVersion::current(), 3);
    assert_eq!(get_version(None), 1);
    assert_eq!(get_version(Some(2)), 2);
    assert_eq!(run_migration(1), Ok(vec![2, 3]));
    assert_eq!(run_migration(2), Ok(vec![3]));
    assert_eq!(run_migration(3), Ok(vec![]));
    assert_eq!(run_migration(9), Ok(vec![]));
    assert_eq!(MigrationVersion::from_u32(2), Some(MigrationVersion::V2));
    assert_eq!(MigrationVersion::from_u32(4), None);
    assert_eq!(MigrationVersion::V3.as_u32(), 3);
}

#[test]
fn consistency_checks_and_budget_estimates() {
    let r = ConsistencyReport::new(true, true, false);
    assert!(!r.ok);
    assert!(ConsistencyReport::new(true, true, true).ok);
    assert_eq!(assert_non_negative(-1), Err(ContractError::InvalidInput));
    assert_eq!(assert_lte(3, 2), Err(ContractError::InvalidInput));
    assert_eq!(assert_lte(2, 2), Ok(()));
    assert_eq!(assert_threshold_satisfiable(3, 4), Err(ContractError::InvalidInput));
    assert_eq!(assert_threshold_satisfiable(3, 0), Ok(()));
    assert_eq!(assert_threshold_satisfiable(3, 3), Ok(()));
    assert_eq!(validate_string_len(&vec![0u8; 5], 4), Err(ContractError::InvalidInput));
    assert_eq!(validate_vec_len(&vec![1, 2], 2), Ok(()));
    assert_eq!(estimate_instructions(2, 3, 4), 2 * 200_000 + 3 * 10_000 + 4 * 20_000);
    assert_eq!(estimate_instructions(u64::MAX, 1, 1), u64::MAX);
    assert_eq!(assert_budget_headroom(80, 100), Ok(()));
    assert_eq!(assert_budget_headroom(81, 100), Err(ContractError::Overflow));
    // The limit stays at 80% for budgets whose 80-fold product exceeds 64 bits.
    assert_eq!(assert_budget_headroom(184_467_440_737_095_517, u64::MAX), Ok(()));
    assert_eq!(assert_budget_headroom(14_757_395_258_967_641_292, u64::MAX), Ok(()));
    assert_eq!(assert_budget_headroom(14_757_395_258_967_641_293, u64::MAX), Err(ContractError::Overflow));
    let p = ErrorPayload::from_error(ContractError::DivisionByZero, "zero".to_string());
    assert_eq!(p.code, 3);
    assert_eq!(p.message, "zero");
}

#[test]
fn audit_trail_chains_hashes_of_changes() {
    let env = env();
    let mut trail = AuditTrail::new();
    assert_eq!(trail.get_trail_head(), vec![0u8; 32]);
    assert_eq!(trail.get_trail_length(), 0);
    let change = PolicyChangeDescriptor { change_type: b"add_signer".to_vec(), vault: addr("CVAULT"), ledger: 7 };
    let head = trail.record_policy_change(&env, &change);
    // Expected head: sha256(zeros || be32(7) || xdr("add_signer")).
    let mut pre = vec![0u8; 32];
    pre.extend_from_slice(&7u32.to_be_bytes());
    let xdr = soroban_sdk::String::from_str(&env, "add_signer").to_xdr(&env);
    pre.extend(xdr.iter());
    let expected = env.crypto().sha256(&soroban_sdk::Bytes::from_slice(&env, &pre)).to_array().to_vec();
    assert_eq!(head, expected);
    assert_eq!(trail.get_trail_head(), head);
    assert_eq!(trail.get_trail_length(), 1);
    let head2 = trail.record_policy_change(&env, &change);
    assert_ne!(head2, head);
    assert_eq!(trail.get_trail_length(), 2);
}

#[test]
fn string_xdr_is_tag_length_bytes_and_padding() {
    let env = env();
    let got = perigee::crypto::string_xdr(&env, &b"add_signer".to_vec());
    let mut expected = vec![0, 0, 0, 14, 0, 0, 0, 10];
    expected.extend_from_slice(b"add_signer");
    expected.extend_from_slice(&[0, 0]);
    assert_eq!(got, expected);
    let four = perigee::crypto::string_xdr(&env, &b"abcd".to_vec());
    assert_eq!(four, vec![0, 0, 0, 14, 0, 0, 0, 4, b'a', b'b', b'c', b'd']);
    let empty = perigee::crypto::string_xdr(&env, &Vec::new());
    assert_eq!(empty, vec![0, 0, 0, 14, 0, 0, 0, 0]);
    let host: Vec<u8> = soroban_sdk::String::from_str(&env, "add_signer").to_xdr(&env).iter().collect();
    assert_eq!(got, host);
}

#[test]
fn sweep_evicts_expired_vaults_once() {
    let vaults = vec![addr("CA"), addr("CB"), addr("CA"), addr("CC"), addr("CD")];
    let expiries = vec![10, 20, 10, 0, 5];
    let (mask, count) = evict_expired_vaults(15, &vaults, &expiries);
    assert_eq!(mask, vec![true, false, false, false, true]);
    assert_eq!(count, 2);
    let mut t = AuditTrail::new();
    assert_eq!(t.get_vault_expiry(), 0);
    t.set_vault_expiry(99);
    assert_eq!(t.get_vault_expiry(), 99);
}

#[test]
fn reentrant_calls_are_refused_until_release() {
    let mut g = ReentrancyGuard { locked: None };
    assert_eq!(g.acquire(), Ok(()));
    assert_eq!(g.acquire(), Err(ContractError::Unauthorized));
    g.release();
    assert_eq!(g.acquire(), Ok(()));
}

#[test]
fn typed_argument_sets_validate_before_use() {
    let ok = BatchTransferArgs { sender: addr("GS"), recipients_count: 100, total_amount: 1 };
    assert_eq!(ok.validate(), Ok(()));
    let too_many = BatchTransferArgs { sender: addr("GS"), recipients_count: 101, total_amount: 1 };
    assert_eq!(too_many.validate(), Err(ContractError::InvalidInput));
    let too_many = BatchTransferArgs { sender: addr("GS"), recipients_count: 500, total_amount: 1 };
    assert_eq!(too_many.validate(), Err(ContractError::InvalidInput));
    let none = BatchTransferArgs { sender: addr("GS"), recipients_count: 0, total_amount: 1 };
    assert_eq!(none.validate(), Err(ContractError::InvalidInput));
    assert_eq!(StakeArgs { user: addr("GU"), amount: 0 }.validate(), Err(ContractError::InvalidInput));
    assert_eq!(StakeArgs { user: addr("GU"), amount: 1 }.validate(), Ok(()));
    let p = CreateProposalArgs { title_len: 256, description_len: 4096, voting_ends_at: 11, current_ledger: 10 };
    assert_eq!(p.validate(), Ok(()));
    let late = CreateProposalArgs { voting_ends_at: 10, ..p };
    assert_eq!(late.validate(), Err(ContractError::InvalidInput));
    let long = CreateProposalArgs { title_len: 257, ..p };
    assert_eq!(long.validate(), Err(ContractError::InvalidInput));
}
