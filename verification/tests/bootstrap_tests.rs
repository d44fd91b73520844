use perigee::bootstrap::{
    entry_point_registered, Bootstrap, BootstrapError, CheckKind, CheckStatus, InvokeOutcome,
};

fn self_report() -> perigee::bootstrap::BootstrapReport {
    let mut bootstrap = Bootstrap::new("fixture");
    bootstrap.storage_default("config_written", true);
    bootstrap.admin_access("admins_registered", false);
    bootstrap.invariant_check("supply_non_negative", true);
    bootstrap.not_applicable("fee_surface", CheckKind::AdminAccess);
    bootstrap.report()
}

#[test]
fn probe_finds_registered_entry_point() {
    assert!(entry_point_registered(InvokeOutcome::Returned));
}

#[test]
fn probe_reports_missing_entry_point() {
    assert!(!entry_point_registered(InvokeOutcome::Aborted));
}

#[test]
fn probe_treats_contract_error_as_registered() {
    assert!(entry_point_registered(InvokeOutcome::ContractError));
}

#[test]
fn probe_accepts_arguments() {
    assert!(entry_point_registered(InvokeOutcome::Returned));
    assert!(!entry_point_registered(InvokeOutcome::Aborted));
    assert!(!entry_point_registered(InvokeOutcome::Undecodable));
}

#[test]
fn report_passes_only_when_no_check_fails() {
    let report = self_report();
    assert!(!report.passed);
    assert_eq!(report.contract, "fixture");
    assert_eq!(report.passed_count, 2);
    assert_eq!(report.failed_count, 1);
    assert_eq!(report.checks.len(), 4);
}

#[test]
fn entry_point_checks_are_recorded_per_dimension() {
    let mut bootstrap = Bootstrap::new("fixture");
    bootstrap.entry_point("ping", entry_point_registered(InvokeOutcome::Returned));
    bootstrap.entry_point("not_an_entry_point", entry_point_registered(InvokeOutcome::Aborted));
    let report = bootstrap.report();
    assert!(!report.passed);
    assert_eq!(report.failed_count, 1);
    assert_eq!(report.checks[0].kind, CheckKind::EntryPoint);
    assert_eq!(report.checks[0].status, CheckStatus::Passed);
    assert_eq!(bootstrap.failed_checks()[0], "not_an_entry_point");
}

#[test]
fn not_applicable_checks_never_fail_a_report() {
    let mut bootstrap = Bootstrap::new("fixture");
    bootstrap.not_applicable("admin_surface", CheckKind::AdminAccess);
    bootstrap.pass("config_written", CheckKind::StorageDefault);
    let report = bootstrap.report();
    assert!(report.passed);
    assert_eq!(report.failed_count, 0);
    assert_eq!(report.passed_count, 1);
    assert!(bootstrap.require_ok().is_ok());
}

#[test]
fn require_ok_reports_failed_deployments() {
    let mut bootstrap = Bootstrap::new("fixture");
    bootstrap.invariant_check("threshold_satisfiable", false);
    assert!(matches!(bootstrap.require_ok(), Err(BootstrapError::Failed)));
    assert!(!bootstrap.passed());
    assert_eq!(bootstrap.failed_checks().len(), 1);
}

#[test]
fn failed_checks_are_listed_in_recording_order() {
    let mut bootstrap = Bootstrap::new("fixture");
    bootstrap.invariant_check("first", false);
    bootstrap.pass("second", CheckKind::Invariant);
    bootstrap.admin_access("third", false);
    let failed = bootstrap.failed_checks();
    assert_eq!(failed.len(), 2);
    assert_eq!(failed[0], "first");
    assert_eq!(failed[1], "third");
}

#[test]
fn builder_calls_chain_and_explicit_failures_count() {
    let mut bootstrap = Bootstrap::new("token");
    bootstrap
        .pass("a", CheckKind::EntryPoint)
        .fail("b", CheckKind::StorageDefault)
        .require("c", CheckKind::Invariant, true);
    let report = bootstrap.report();
    assert_eq!(report.checks.len(), 3);
    assert_eq!(report.passed_count, 2);
    assert_eq!(report.failed_count, 1);
    assert_eq!(report.checks[1].name, "b");
    assert_eq!(report.checks[1].status, CheckStatus::Failed);
}
