use volatility_shield::{
    ActionType, Error, MockStrategySet, Principal, VolatilityShield,
};

fn vault_with_guardians(guardians: Vec<Principal>, threshold: u32) -> VolatilityShield {
    VolatilityShield::init(
        Principal(1),
        Principal(2),
        Principal(3),
        Principal(4),
        0,
        guardians,
        threshold,
    )
}

#[test]
fn test_propose_requires_guardian() {
    let mut vault = vault_with_guardians(vec![Principal(11)], 1);
    let mut port = MockStrategySet::new();
    assert_eq!(
        vault.propose_action(Principal(99), ActionType::SetPaused(true), 0, &mut port),
        Err(Error::Unauthorized)
    );
    assert!(!vault.is_paused());
}

#[test]
fn test_threshold_gates_execution() {
    let g1 = Principal(11);
    let g2 = Principal(12);
    let g3 = Principal(13);
    let mut vault = vault_with_guardians(vec![g1, g2, g3], 2);
    let mut port = MockStrategySet::new();

    // Below the threshold the proposal stays pending and nothing executes.
    let id = vault.propose_action(g1, ActionType::SetPaused(true), 0, &mut port).unwrap();
    assert_eq!(id, 1);
    assert!(!vault.is_paused());

    // The proposer's own approval is already counted.
    assert_eq!(vault.approve_action(g1, id, 0, &mut port), Err(Error::AlreadyApproved));

    // A second guardian reaches the threshold; the action executes.
    assert_eq!(vault.approve_action(g2, id, 0, &mut port), Ok(()));
    assert!(vault.is_paused());

    // An executed proposal rejects further approvals.
    assert_eq!(vault.approve_action(g3, id, 0, &mut port), Err(Error::ProposalExecuted));
}

#[test]
fn test_approve_validation() {
    let g1 = Principal(11);
    let g2 = Principal(12);
    let mut vault = vault_with_guardians(vec![g1, g2], 2);
    let mut port = MockStrategySet::new();
    let id = vault.propose_action(g1, ActionType::SetPaused(true), 0, &mut port).unwrap();
    assert_eq!(vault.approve_action(Principal(99), id, 0, &mut port), Err(Error::Unauthorized));
    assert_eq!(vault.approve_action(g2, 77, 0, &mut port), Err(Error::ProposalNotFound));
}

#[test]
fn test_proposal_ids_are_monotonic() {
    let g1 = Principal(11);
    let g2 = Principal(12);
    let mut vault = vault_with_guardians(vec![g1, g2], 2);
    let mut port = MockStrategySet::new();
    let a = vault.propose_action(g1, ActionType::SetPaused(true), 0, &mut port).unwrap();
    let b = vault.propose_action(g2, ActionType::SetPaused(false), 0, &mut port).unwrap();
    assert_eq!(a, 1);
    assert_eq!(b, 2);
}

#[test]
fn test_timelock_blocks_then_allows_execution() {
    let g1 = Principal(11);
    let g2 = Principal(12);
    let g3 = Principal(13);
    let mut vault = vault_with_guardians(vec![g1, g2, g3], 2);
    let admin = Principal(1);
    let mut port = MockStrategySet::new();
    vault.set_timelock_duration(admin, 100).unwrap();

    let id = vault.propose_action(g1, ActionType::SetPaused(true), 50, &mut port).unwrap();

    // Approvals reach the threshold before the timelock elapsed: the call
    // surfaces the violation but keeps the accumulated approval.
    assert_eq!(vault.approve_action(g2, id, 100, &mut port), Err(Error::TimelockNotElapsed));
    assert!(!vault.is_paused());
    assert_eq!(vault.approve_action(g2, id, 200, &mut port), Err(Error::AlreadyApproved));

    // Once the timelock has elapsed, the next approval executes it — once.
    assert_eq!(vault.approve_action(g3, id, 150, &mut port), Ok(()));
    assert!(vault.is_paused());
    assert_eq!(vault.approve_action(g3, id, 200, &mut port), Err(Error::ProposalExecuted));
}

#[test]
fn test_timelock_boundary() {
    let g1 = Principal(11);
    let g2 = Principal(12);
    let mut vault = vault_with_guardians(vec![g1, g2], 2);
    let admin = Principal(1);
    let mut port = MockStrategySet::new();
    vault.set_timelock_duration(admin, 100).unwrap();
    let id = vault.propose_action(g1, ActionType::SetPaused(true), 50, &mut port).unwrap();
    // An elapsed time of exactly the duration is enough.
    assert_eq!(vault.approve_action(g2, id, 150, &mut port), Ok(()));
    assert!(vault.is_paused());
}

#[test]
fn test_single_guardian_immediate_execution() {
    let g1 = Principal(11);
    let mut vault = vault_with_guardians(vec![g1], 1);
    let mut port = MockStrategySet::new();
    let id = vault.propose_action(g1, ActionType::SetPaused(true), 0, &mut port).unwrap();
    assert_eq!(id, 1);
    assert!(vault.is_paused());
}

#[test]
fn test_single_guardian_timelock_defers_execution() {
    let g1 = Principal(11);
    let mut vault = vault_with_guardians(vec![g1], 1);
    let admin = Principal(1);
    let mut port = MockStrategySet::new();
    vault.set_timelock_duration(admin, 100).unwrap();
    // The proposal is stored approved-but-unexecuted instead of failing.
    let id = vault.propose_action(g1, ActionType::SetPaused(true), 0, &mut port).unwrap();
    assert_eq!(id, 1);
    assert!(!vault.is_paused());
}

#[test]
fn test_add_strategy_via_governance() {
    let g1 = Principal(11);
    let mut vault = vault_with_guardians(vec![g1], 1);
    let mut port = MockStrategySet::new();
    let strategy = Principal(50);

    vault.propose_action(g1, ActionType::AddStrategy(strategy), 0, &mut port).unwrap();
    assert_eq!(vault.get_strategies(), vec![strategy]);

    // A duplicate registration aborts the proposing call entirely.
    assert_eq!(
        vault.propose_action(g1, ActionType::AddStrategy(strategy), 0, &mut port),
        Err(Error::AlreadyInitialized)
    );
    assert_eq!(vault.get_strategies(), vec![strategy]);
}

#[test]
fn test_guardian_management() {
    let g1 = Principal(11);
    let g2 = Principal(12);
    let mut vault = vault_with_guardians(vec![g1], 1);
    let admin = Principal(1);

    assert_eq!(vault.add_guardian(Principal(99), g2), Err(Error::Unauthorized));
    assert_eq!(vault.add_guardian(admin, g2), Ok(()));
    assert_eq!(vault.get_guardians(), vec![g1, g2]);

    // Adding a serving guardian changes nothing.
    assert_eq!(vault.add_guardian(admin, g2), Ok(()));
    assert_eq!(vault.get_guardians(), vec![g1, g2]);

    // The threshold must stay between one and the number of guardians.
    assert_eq!(vault.set_threshold(admin, 0), Err(Error::Unauthorized));
    assert_eq!(vault.set_threshold(admin, 3), Err(Error::Unauthorized));
    assert_eq!(vault.set_threshold(admin, 2), Ok(()));
    assert_eq!(vault.get_threshold(), 2);

    // A removal may not leave fewer guardians than the threshold requires.
    assert_eq!(vault.remove_guardian(admin, g2), Err(Error::Unauthorized));
    assert_eq!(vault.set_threshold(admin, 1), Ok(()));
    assert_eq!(vault.remove_guardian(Principal(99), g2), Err(Error::Unauthorized));
    assert_eq!(vault.remove_guardian(admin, Principal(77)), Err(Error::Unauthorized));
    assert_eq!(vault.remove_guardian(admin, g2), Ok(()));
    assert_eq!(vault.get_guardians(), vec![g1]);
}
