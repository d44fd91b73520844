use perigee::address::Addr;
use perigee::guards::{Guard, GuardError, PauseType};

fn addr(s: &str) -> Addr {
    Addr::new(s.as_bytes().to_vec())
}

fn admin_names(n: u32) -> Vec<String> {
    (0..n).map(|i| format!("GADMIN{}", i)).collect()
}

fn setup(threshold: u32, n_admins: u32) -> (Guard, Vec<String>) {
    let names = admin_names(n_admins);
    let mut g = Guard::new();
    g.init_guard(names.iter().map(|n| addr(n)).collect(), threshold).unwrap();
    (g, names)
}

fn list(names: &[&str]) -> Vec<Addr> {
    names.iter().map(|n| addr(n)).collect()
}

fn admins_of(g: &Guard) -> Vec<Vec<u8>> {
    g.get_admins().iter().map(|a| a.as_bytes().clone()).collect()
}

fn contains(g: &Guard, name: &str) -> bool {
    admins_of(g).contains(&name.as_bytes().to_vec())
}

// ── guards core ──────────────────────────────────────────────────────────────

#[test]
fn test_pause_type_granular_bitmask() {
    let mut pause = PauseType::new(0);
    pause.set_paused(PauseType::SWAP, true);
    assert!(pause.is_paused(PauseType::SWAP));
    assert!(!pause.is_paused(PauseType::DEPOSIT));
    pause.set_paused(PauseType::DEPOSIT, true);
    assert!(pause.is_paused(PauseType::SWAP));
    assert!(pause.is_paused(PauseType::DEPOSIT));
    pause.set_paused(PauseType::SWAP, false);
    assert!(!pause.is_paused(PauseType::SWAP));
    assert!(pause.is_paused(PauseType::DEPOSIT));
    pause.set_paused(PauseType::MINT, true);
    assert!(pause.is_paused(PauseType::MINT));
    pause.pause_all();
    assert!(pause.is_paused(PauseType::WITHDRAW));
    assert!(pause.is_paused(PauseType::TRANSFER));
    pause.unpause_all();
    assert_eq!(pause.as_u32(), 0);
}

#[test]
fn test_pause_type_bitmask_combination() {
    let mut pause = PauseType::new(0);
    let combined = PauseType::SWAP | PauseType::DEPOSIT | PauseType::MINT;
    pause.set_paused(combined, true);
    assert!(pause.is_paused(PauseType::SWAP));
    assert!(pause.is_paused(PauseType::DEPOSIT));
    assert!(pause.is_paused(PauseType::MINT));
    assert!(!pause.is_paused(PauseType::WITHDRAW));
}

#[test]
fn test_init_guard_stores_admins_and_threshold() {
    let (g, names) = setup(2, 3);
    assert_eq!(g.get_admins().len(), names.len());
    assert_eq!(g.get_threshold(), 2);
    assert!(!g.is_paused(PauseType::SWAP));
    assert!(!g.is_admin(&addr("GOUTSIDER")));
}

#[test]
fn test_init_guard_rejects_zero_threshold() {
    let mut g = Guard::new();
    assert_eq!(g.init_guard(list(&["GA", "GB"]), 0), Err(GuardError::InvalidThreshold));
}

#[test]
fn test_init_guard_rejects_threshold_greater_than_admin_count() {
    let mut g = Guard::new();
    assert_eq!(g.init_guard(list(&["GA", "GB"]), 3), Err(GuardError::InvalidThreshold));
}

#[test]
fn test_init_guard_cannot_be_called_twice() {
    let mut g = Guard::new();
    g.init_guard(list(&["GA", "GB"]), 1).unwrap();
    assert_eq!(g.init_guard(list(&["GA", "GB"]), 1), Err(GuardError::AlreadyInitialized));
}

#[test]
fn test_multisig_exactly_threshold_approvers_succeeds() {
    let (mut g, names) = setup(2, 3);
    g.add_admin(&list(&[&names[0], &names[1]]), addr("GNEW")).unwrap();
    assert_eq!(g.get_admins().len(), names.len() + 1);
    assert!(contains(&g, "GNEW"));
}

#[test]
fn test_multisig_one_below_threshold_fails() {
    let (g, names) = setup(2, 3);
    assert_eq!(g.validate_multi_sig(&list(&[&names[0]])), Err(GuardError::InsufficientSignatures));
}

#[test]
fn test_multisig_duplicate_approvers_not_double_counted() {
    let (g, names) = setup(2, 3);
    assert_eq!(
        g.validate_multi_sig(&list(&[&names[0], &names[0]])),
        Err(GuardError::InsufficientSignatures)
    );
}

#[test]
fn test_multisig_non_admin_approver_is_unauthorized() {
    let (g, _names) = setup(1, 2);
    assert_eq!(g.validate_multi_sig(&list(&["GOUTSIDER"])), Err(GuardError::Unauthorized));
}

#[test]
fn single_outsider_is_unauthorized_before_counting() {
    let (g, names) = setup(2, 3);
    assert_eq!(g.validate_multi_sig(&list(&["GOUTSIDER"])), Err(GuardError::Unauthorized));
    assert_eq!(g.validate_multi_sig(&list(&[&names[0], "GOUTSIDER"])), Err(GuardError::Unauthorized));
    assert_eq!(g.validate_multi_sig(&Vec::new()), Err(GuardError::InsufficientSignatures));
}

#[test]
fn init_guard_refuses_duplicate_admins() {
    let mut g = Guard::new();
    assert_eq!(g.init_guard(list(&["GA", "GA"]), 2), Err(GuardError::DuplicateAdmin));
    assert_eq!(g.init_guard(list(&["GA", "GB", "GA"]), 2), Err(GuardError::DuplicateAdmin));
    assert_eq!(g.get_threshold(), 0);
    assert_eq!(g.get_admins().len(), 0);
    // The threshold is checked first.
    assert_eq!(g.init_guard(list(&["GA", "GA"]), 3), Err(GuardError::InvalidThreshold));
    g.init_guard(list(&["GA", "GB"]), 2).unwrap();
    assert_eq!(g.get_admins().len(), 2);
}

#[test]
fn remove_admin_never_drops_below_threshold() {
    let mut g = Guard::new();
    g.init_guard(list(&["GA", "GB", "GC"]), 2).unwrap();
    g.remove_admin(&list(&["GA", "GB"]), &addr("GA")).unwrap();
    assert_eq!(g.get_admins().len(), 2);
    assert_eq!(g.remove_admin(&list(&["GB", "GC"]), &addr("GB")), Err(GuardError::InvalidThreshold));
    assert_eq!(g.get_admins().len(), 2);
}

#[test]
fn test_multisig_without_init_is_not_initialized() {
    let g = Guard::new();
    assert_eq!(g.validate_multi_sig(&list(&["GANYONE"])), Err(GuardError::NotInitialized));
}

#[test]
fn test_set_pause_state_and_is_paused() {
    let (mut g, _names) = setup(1, 2);
    g.set_pause_state(PauseType::DEPOSIT, true).unwrap();
    assert!(g.is_paused(PauseType::DEPOSIT));
    assert!(!g.is_paused(PauseType::SWAP));
    assert_eq!(g.get_pause_state(), PauseType::DEPOSIT);
    assert_eq!(g.check_not_paused(PauseType::DEPOSIT), Err(GuardError::Paused));
    assert!(g.check_not_paused(PauseType::SWAP).is_ok());
    g.set_pause_state(PauseType::DEPOSIT, false).unwrap();
    assert!(!g.is_paused(PauseType::DEPOSIT));
    g.ensure_not_paused(PauseType::DEPOSIT);
}

#[test]
fn test_set_pause_by_admin_rejects_non_admin() {
    let (mut g, _names) = setup(1, 2);
    assert_eq!(g.set_pause_by_admin(&addr("GOUTSIDER"), PauseType::SWAP, true), Err(GuardError::Unauthorized));
}

#[test]
fn test_emergency_pause_and_resume_roundtrip() {
    let (mut g, names) = setup(2, 3);
    let approvers = list(&[&names[0], &names[1]]);
    assert_eq!(g.emergency_pause_all(&list(&[&names[0]])), Err(GuardError::InsufficientSignatures));
    assert!(!g.is_paused(PauseType::SWAP));
    g.emergency_pause_all(&approvers).unwrap();
    assert!(g.is_paused(PauseType::SWAP));
    assert!(g.is_paused(PauseType::BURN));
    assert_eq!(g.get_pause_state(), u32::MAX);
    g.resume_all(&approvers).unwrap();
    assert!(!g.is_paused(PauseType::SWAP));
    assert_eq!(g.get_pause_state(), 0);
}

#[test]
fn test_add_and_remove_admin_lifecycle() {
    let (mut g, names) = setup(2, 3);
    let approvers = list(&[&names[0], &names[1]]);
    g.add_admin(&approvers, addr("GNEW")).unwrap();
    assert_eq!(g.get_admins().len(), names.len() + 1);
    assert!(g.is_admin(&addr("GNEW")));
    g.add_admin(&approvers, addr("GNEW")).unwrap();
    assert_eq!(g.get_admins().len(), names.len() + 1);
    g.remove_admin(&approvers, &addr("GNEW")).unwrap();
    assert!(!g.is_admin(&addr("GNEW")));
}

#[test]
fn test_remove_admin_cannot_drop_below_threshold() {
    let (mut g, names) = setup(2, 2);
    assert_eq!(
        g.remove_admin(&list(&[&names[0], &names[1]]), &addr(&names[1])),
        Err(GuardError::InvalidThreshold)
    );
}

#[test]
fn test_rotate_admin_replaces_old() {
    let (mut g, names) = setup(2, 3);
    g.rotate_admin(&list(&[&names[0], &names[1]]), &addr(&names[2]), addr("GNEW")).unwrap();
    assert_eq!(g.get_admins().len(), names.len());
    assert!(!contains(&g, &names[2]));
    assert!(contains(&g, "GNEW"));
}

#[test]
fn test_rotate_admin_deduplicates_existing_target() {
    let (mut g, names) = setup(2, 3);
    g.rotate_admin(&list(&[&names[0], &names[1]]), &addr(&names[2]), addr(&names[1])).unwrap();
    assert_eq!(g.get_admins().len(), 2);
    assert!(!contains(&g, &names[2]));
    assert!(contains(&g, &names[1]));
}

#[test]
fn test_rotate_unknown_admin_not_found() {
    let (mut g, names) = setup(2, 2);
    assert_eq!(
        g.rotate_admin(&list(&[&names[0], &names[1]]), &addr("GOUTSIDER"), addr(&names[0])),
        Err(GuardError::AdminNotFound)
    );
}

#[test]
fn test_guards_are_isolated_between_envs() {
    let mut a = Guard::new();
    let mut b = Guard::new();
    a.init_guard(list(&["GA0", "GA1"]), 1).unwrap();
    b.init_guard(list(&["GB0", "GB1"]), 2).unwrap();
    a.set_pause_state(PauseType::SWAP, true).unwrap();
    assert!(a.is_paused(PauseType::SWAP));
    assert!(!b.is_paused(PauseType::SWAP));
    assert_eq!(a.get_threshold(), 1);
    assert_eq!(b.get_threshold(), 2);
    let c = Guard::new();
    assert!(c.signature_threshold.is_none());
}

#[test]
fn test_trait_surface_delegates_to_core() {
    let (mut g, names) = setup(1, 2);
    let approvers = list(&[&names[0]]);
    assert!(g.check_not_paused(PauseType::SWAP).is_ok());
    g.set_pause_state(PauseType::SWAP, true).unwrap();
    assert_eq!(g.check_not_paused(PauseType::SWAP), Err(GuardError::Paused));
    assert!(g.is_admin(&addr(&names[0])));
    assert_eq!(g.get_pause_state(), PauseType::SWAP);
    assert_eq!(g.get_admins().len(), 2);
    assert_eq!(g.get_threshold(), 1);
    g.emergency_pause_all(&approvers).unwrap();
    assert_eq!(g.get_pause_state(), u32::MAX);
    g.resume_all(&approvers).unwrap();
    assert_eq!(g.get_pause_state(), 0);
    g.set_pause_state(PauseType::MINT | PauseType::BURN, true).unwrap();
    g.unpause(PauseType::MINT).unwrap();
    assert_eq!(g.get_pause_state(), PauseType::BURN);
    g.unpause_all().unwrap();
    assert_eq!(g.get_pause_state(), 0);
}

#[test]
fn signers_to_authorize_lists_distinct_committee_approvers() {
    let (g, names) = setup(2, 3);
    let signers = g.signers_to_authorize(&list(&[&names[0], &names[1], &names[0]]));
    let got: Vec<Vec<u8>> = signers.iter().map(|a| a.as_bytes().clone()).collect();
    assert_eq!(got, vec![names[0].as_bytes().to_vec(), names[1].as_bytes().to_vec()]);
    // Stops at the first outsider.
    let signers = g.signers_to_authorize(&list(&[&names[2], "GOUTSIDER", &names[0]]));
    assert_eq!(signers.len(), 1);
}

// ── emergency guard permission model ─────────────────────────────────────────

#[test]
fn spec_t1_single_admin_tier_scope() {
    let (mut g, names) = setup(2, 3);
    for a in names.iter() {
        g.set_pause_by_admin(&addr(a), PauseType::SWAP, true).unwrap();
        assert!(g.is_paused(PauseType::SWAP));
        g.set_pause_by_admin(&addr(a), PauseType::SWAP, false).unwrap();
    }
    assert_eq!(g.set_pause_by_admin(&addr("GOUTSIDER"), PauseType::SWAP, true), Err(GuardError::Unauthorized));
    assert!(!g.is_paused(PauseType::SWAP));
}

#[test]
fn spec_t1_committee_tier_scope() {
    let (mut g, names) = setup(2, 3);
    let two = list(&[&names[0], &names[1]]);
    assert_eq!(g.emergency_pause_all(&two), Ok(()));
    assert!(g.is_paused(PauseType::SWAP));
    assert_eq!(g.resume_all(&two), Ok(()));
    assert_eq!(g.add_admin(&two, addr("GNEWBIE")), Ok(()));
    assert!(contains(&g, "GNEWBIE"));
    assert_eq!(g.remove_admin(&two, &addr("GNEWBIE")), Ok(()));
    assert!(!contains(&g, "GNEWBIE"));
    assert_eq!(g.rotate_admin(&two, &addr(&names[2]), addr("GNEWBIE")), Ok(()));
    assert!(contains(&g, "GNEWBIE"));
    assert_eq!(g.validate_multi_sig(&two), Ok(()));
}

#[test]
fn spec_t1_below_threshold_is_rejected_across_committee_tier() {
    let (mut g, names) = setup(2, 3);
    let one = list(&[&names[0]]);
    assert_eq!(g.emergency_pause_all(&one), Err(GuardError::InsufficientSignatures));
    assert_eq!(g.resume_all(&one), Err(GuardError::InsufficientSignatures));
    assert_eq!(g.add_admin(&one, addr("GNEWBIE")), Err(GuardError::InsufficientSignatures));
    assert_eq!(g.remove_admin(&one, &addr(&names[2])), Err(GuardError::InsufficientSignatures));
    assert_eq!(
        g.rotate_admin(&one, &addr(&names[2]), addr("GNEWBIE")),
        Err(GuardError::InsufficientSignatures)
    );
    assert_eq!(g.validate_multi_sig(&one), Err(GuardError::InsufficientSignatures));
    assert!(!g.is_paused(PauseType::SWAP));
    assert_eq!(g.get_admins().len(), 3);
}

#[test]
fn spec_t1_duplicate_signer_cannot_meet_threshold() {
    let (mut g, names) = setup(2, 3);
    let dup = list(&[&names[0], &names[0]]);
    assert_eq!(g.emergency_pause_all(&dup), Err(GuardError::InsufficientSignatures));
    assert_eq!(g.validate_multi_sig(&dup), Err(GuardError::InsufficientSignatures));
}

#[test]
fn spec_t1_non_admin_in_mixed_quorum_short_circuits_unauthorized() {
    let (mut g, names) = setup(2, 3);
    let mixed = list(&[&names[0], "GOUTSIDER"]);
    assert_eq!(g.emergency_pause_all(&mixed), Err(GuardError::Unauthorized));
    assert_eq!(g.add_admin(&mixed, addr("GOTHER")), Err(GuardError::Unauthorized));
    assert_eq!(g.validate_multi_sig(&mixed), Err(GuardError::Unauthorized));
}

#[test]
fn spec_t1_read_only_services_are_permissionless() {
    let (g, names) = setup(1, 2);
    let _ = g.is_paused(PauseType::MINT);
    let _ = g.get_pause_state();
    assert_eq!(g.get_admins().len(), 2);
    assert_eq!(g.get_threshold(), 1);
    assert!(g.is_admin(&addr(&names[0])));
    assert!(!g.is_admin(&addr("GOUTSIDER")));
}

#[test]
fn spec_t2_revoked_admin_cannot_act_nor_contribute_to_quorum() {
    let (mut g, names) = setup(1, 3);
    assert_eq!(g.remove_admin(&list(&[&names[1]]), &addr(&names[2])), Ok(()));
    assert_eq!(g.set_pause_by_admin(&addr(&names[2]), PauseType::SWAP, true), Err(GuardError::Unauthorized));
    assert_eq!(g.emergency_pause_all(&list(&[&names[2]])), Err(GuardError::Unauthorized));
    assert_eq!(g.validate_multi_sig(&list(&[&names[2]])), Err(GuardError::Unauthorized));
    assert!(!g.is_admin(&addr(&names[2])));
    assert_eq!(
        g.remove_admin(&list(&[&names[0], &names[1]]), &addr(&names[2])),
        Err(GuardError::AdminNotFound)
    );
}

#[test]
fn spec_t2_revoked_signer_at_threshold_two_cannot_form_quorum() {
    let (mut g, names) = setup(2, 3);
    assert_eq!(g.remove_admin(&list(&[&names[0], &names[1]]), &addr(&names[2])), Ok(()));
    let revoked_mix = list(&[&names[0], &names[2]]);
    assert_eq!(g.emergency_pause_all(&revoked_mix), Err(GuardError::Unauthorized));
    assert_eq!(g.validate_multi_sig(&revoked_mix), Err(GuardError::Unauthorized));
}

#[test]
fn spec_t3_rejected_calls_leave_state_unchanged() {
    let (mut g, names) = setup(2, 3);
    let snapshot = admins_of(&g);
    let _ = g.emergency_pause_all(&list(&[&names[0]]));
    let _ = g.set_pause_by_admin(&addr("GOUTSIDER"), PauseType::WITHDRAW, true);
    let _ = g.remove_admin(&list(&[&names[0], &names[1]]), &addr("GOUTSIDER"));
    assert!(!g.is_paused(PauseType::SWAP));
    assert!(!g.is_paused(PauseType::WITHDRAW));
    assert_eq!(g.get_pause_state(), 0);
    assert_eq!(admins_of(&g), snapshot);
    assert_eq!(g.get_threshold(), 2);
}

#[test]
fn spec_t4_committee_invariants_hold_after_every_mutation() {
    let (mut g, names) = setup(2, 3);
    let quorum = list(&[&names[0], &names[1]]);
    let check = |g: &Guard| {
        let a = admins_of(g);
        assert!(a.len() as u32 >= g.get_threshold());
        for i in 0..a.len() {
            for j in (i + 1)..a.len() {
                assert_ne!(a[i], a[j]);
            }
        }
    };
    assert_eq!(g.emergency_pause_all(&quorum), Ok(()));
    check(&g);
    assert_eq!(g.resume_all(&quorum), Ok(()));
    check(&g);
    assert_eq!(g.add_admin(&quorum, addr("GNEWBIE")), Ok(()));
    check(&g);
    assert_eq!(g.remove_admin(&quorum, &addr("GNEWBIE")), Ok(()));
    check(&g);
    assert_eq!(g.rotate_admin(&quorum, &addr(&names[2]), addr("GNEWBIE")), Ok(()));
    check(&g);
}

#[test]
fn spec_t5_initialize_is_one_shot() {
    let (mut g, _names) = setup(1, 2);
    assert_eq!(g.init_guard(Vec::new(), 1), Err(GuardError::AlreadyInitialized));
    assert_eq!(g.get_threshold(), 1);
}

#[test]
fn spec_entry_point_tier_map_matches_contract() {
    let (mut g, names) = setup(1, 1);
    let one = list(&[&names[0]]);
    let _ = g.init_guard(one.iter().map(|a| a.duplicate()).collect(), 1);
    let _ = g.get_pause_state();
    let _ = g.is_paused(PauseType::SWAP);
    let _ = g.set_pause_by_admin(&addr(&names[0]), PauseType::SWAP, true);
    let _ = g.emergency_pause_all(&one);
    let _ = g.resume_all(&one);
    let _ = g.is_admin(&addr(&names[0]));
    let _ = g.get_admins();
    let _ = g.get_threshold();
    let _ = g.validate_multi_sig(&one);
}
