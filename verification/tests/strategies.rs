use volatility_shield::pmap::PrincipalMap;
use volatility_shield::rebalance::slippage_within;
use volatility_shield::{
    ActionType, Error, MockStrategy, MockStrategySet, Principal, StrategyHealth, StrategyTrait,
    VolatilityShield,
};

fn fresh_vault() -> VolatilityShield {
    let admin = Principal(1);
    VolatilityShield::init(admin, Principal(2), Principal(3), Principal(4), 0, vec![admin], 1)
}

fn register_strategy(vault: &mut VolatilityShield, port: &mut MockStrategySet, s: Principal) {
    let admin = Principal(1);
    vault.propose_action(admin, ActionType::AddStrategy(s), 0, port).unwrap();
}

fn allocations_of(entries: &[(Principal, i128)]) -> PrincipalMap<i128> {
    let mut m = PrincipalMap::new();
    for (p, v) in entries {
        m.set(*p, *v);
    }
    m
}

#[test]
fn test_rebalance_admin_auth_accepted() {
    let mut vault = fresh_vault();
    let admin = Principal(1);
    let oracle = Principal(3);
    let mut port = MockStrategySet::new();

    let allocations = PrincipalMap::new();
    vault.set_oracle_data(oracle, allocations, 1, 1).unwrap();
    assert_eq!(vault.rebalance(admin, &mut port, 0, 1), Ok(()));
}

#[test]
fn test_rebalance_oracle_auth_accepted() {
    let mut vault = fresh_vault();
    let oracle = Principal(3);
    let mut port = MockStrategySet::new();
    vault.set_oracle_data(oracle, PrincipalMap::new(), 1, 1).unwrap();
    assert_eq!(vault.rebalance(oracle, &mut port, 0, 1), Ok(()));
}

#[test]
fn test_rebalance_rejects_other_callers() {
    let mut vault = fresh_vault();
    let oracle = Principal(3);
    let mut port = MockStrategySet::new();
    vault.set_oracle_data(oracle, PrincipalMap::new(), 1, 1).unwrap();
    assert_eq!(vault.rebalance(Principal(99), &mut port, 0, 1), Err(Error::Unauthorized));
}

#[test]
fn test_rebalance_without_oracle_data() {
    let vault = fresh_vault();
    let mut port = MockStrategySet::new();
    assert_eq!(vault.rebalance(Principal(1), &mut port, 0, 1), Err(Error::NotInitialized));
}

#[test]
fn test_rebalance_staleness_boundary() {
    let mut vault = fresh_vault();
    let admin = Principal(1);
    let oracle = Principal(3);
    let mut port = MockStrategySet::new();
    vault.set_oracle_data(oracle, PrincipalMap::new(), 1000, 1000).unwrap();
    assert_eq!(vault.max_staleness(), 3600);

    // An age of exactly the staleness bound is accepted.
    assert_eq!(vault.rebalance(admin, &mut port, 0, 4600), Ok(()));
    // One second beyond it is rejected.
    assert_eq!(vault.rebalance(admin, &mut port, 0, 4601), Err(Error::StaleOracleData));
}

#[test]
fn test_set_oracle_data_validation() {
    let mut vault = fresh_vault();
    let oracle = Principal(3);
    assert_eq!(
        vault.set_oracle_data(Principal(99), PrincipalMap::new(), 1, 1),
        Err(Error::Unauthorized)
    );
    // Future-dated updates are rejected.
    assert_eq!(
        vault.set_oracle_data(oracle, PrincipalMap::new(), 5, 4),
        Err(Error::InvalidTimestamp)
    );
    assert_eq!(vault.set_oracle_data(oracle, PrincipalMap::new(), 5, 10), Ok(()));
    // Updates must be strictly newer than the last recorded one.
    assert_eq!(
        vault.set_oracle_data(oracle, PrincipalMap::new(), 5, 10),
        Err(Error::InvalidTimestamp)
    );
    assert_eq!(
        vault.set_oracle_data(oracle, PrincipalMap::new(), 4, 10),
        Err(Error::InvalidTimestamp)
    );
}

#[test]
fn test_rebalance_moves_strategies_to_targets() {
    let mut vault = fresh_vault();
    let admin = Principal(1);
    let oracle = Principal(3);
    let s1 = Principal(50);
    let s2 = Principal(51);
    let mut port = MockStrategySet::new();
    register_strategy(&mut vault, &mut port, s1);
    register_strategy(&mut vault, &mut port, s2);
    port.set_balance(s1, 30);
    port.set_balance(s2, 80);

    let allocations = allocations_of(&[(s1, 100), (s2, 50)]);
    vault.set_oracle_data(oracle, allocations, 1, 1).unwrap();

    assert_eq!(vault.rebalance(admin, &mut port, 0, 1), Ok(()));
    assert_eq!(port.balance_of(s1), 100);
    assert_eq!(port.balance_of(s2), 50);
    // Rebalancing never touches the vault's own accounting.
    assert_eq!(vault.total_assets(), 0);
    assert_eq!(vault.total_shares(), 0);
}

#[test]
fn test_calc_rebalance_delta() {
    assert_eq!(VolatilityShield::calc_rebalance_delta(30, 100), 70);
    assert_eq!(VolatilityShield::calc_rebalance_delta(100, 30), -70);
    assert_eq!(VolatilityShield::calc_rebalance_delta(50, 50), 0);
}

#[test]
fn test_slippage_audit() {
    // A deviation of 10 on a target of 100 is 1000 basis points.
    assert_eq!(slippage_within(100, 90, 999), Ok(false));
    assert_eq!(slippage_within(100, 90, 1000), Ok(true));
    assert_eq!(slippage_within(100, 110, 999), Ok(false));
    assert_eq!(slippage_within(100, 100, 0), Ok(true));
    // A non-positive target is never audited.
    assert_eq!(slippage_within(0, 12345, 0), Ok(true));
    assert_eq!(slippage_within(-5, 12345, 0), Ok(true));
}

#[test]
fn test_harvest_credits_yield_without_minting() {
    let mut vault = fresh_vault();
    let admin = Principal(1);
    let s1 = Principal(50);
    let s2 = Principal(51);
    let mut port = MockStrategySet::new();
    register_strategy(&mut vault, &mut port, s1);
    register_strategy(&mut vault, &mut port, s2);
    vault.set_total_shares(10).unwrap();
    vault.set_total_assets(1000).unwrap();
    port.set_balance(s1, 100);
    port.set_balance(s2, 200);

    let price_before = vault.convert_to_assets(1).unwrap();
    assert_eq!(vault.harvest(admin, &port), Ok(300));
    assert_eq!(vault.total_assets(), 1300);
    assert_eq!(vault.total_shares(), 10);
    let price_after = vault.convert_to_assets(1).unwrap();
    assert!(price_after >= price_before);
    assert_eq!(price_before, 100);
    assert_eq!(price_after, 130);
}

#[test]
fn test_harvest_validation() {
    let mut vault = fresh_vault();
    let admin = Principal(1);
    let port = MockStrategySet::new();
    assert_eq!(vault.harvest(Principal(99), &port), Err(Error::Unauthorized));
    assert_eq!(vault.harvest(admin, &port), Err(Error::NoStrategies));
}

#[test]
fn test_harvest_zero_yield() {
    let mut vault = fresh_vault();
    let admin = Principal(1);
    let s1 = Principal(50);
    let mut port = MockStrategySet::new();
    register_strategy(&mut vault, &mut port, s1);
    vault.set_total_assets(1000).unwrap();
    assert_eq!(vault.harvest(admin, &port), Ok(0));
    assert_eq!(vault.total_assets(), 1000);
}

#[test]
fn test_check_strategy_health() {
    let mut vault = fresh_vault();
    let admin = Principal(1);
    let oracle = Principal(3);
    let s1 = Principal(50);
    let s2 = Principal(51);
    let s3 = Principal(52);
    let mut port = MockStrategySet::new();
    register_strategy(&mut vault, &mut port, s1);
    register_strategy(&mut vault, &mut port, s2);
    register_strategy(&mut vault, &mut port, s3);
    let allocations = allocations_of(&[(s1, 100), (s2, 100)]);
    vault.set_oracle_data(oracle, allocations, 1, 1).unwrap();

    // s1 deviates by 5 of an expected 100: within the 10% band, healthy.
    // s2 deviates by 20: unhealthy.  s3 has no allocation: any balance is
    // healthy.
    port.set_balance(s1, 105);
    port.set_balance(s2, 120);
    port.set_balance(s3, 77);

    let unhealthy = vault.check_strategy_health(admin, 50, &port).unwrap();
    assert_eq!(unhealthy, vec![s2]);

    assert_eq!(
        vault.get_strategy_health(s1),
        Some(StrategyHealth { last_known_balance: 105, last_check_timestamp: 50, is_healthy: true })
    );
    assert_eq!(
        vault.get_strategy_health(s2),
        Some(StrategyHealth {
            last_known_balance: 120,
            last_check_timestamp: 50,
            is_healthy: false,
        })
    );
    assert_eq!(
        vault.get_strategy_health(s3),
        Some(StrategyHealth { last_known_balance: 77, last_check_timestamp: 50, is_healthy: true })
    );
}

#[test]
fn test_check_strategy_health_boundary() {
    let mut vault = fresh_vault();
    let admin = Principal(1);
    let oracle = Principal(3);
    let s1 = Principal(50);
    let mut port = MockStrategySet::new();
    register_strategy(&mut vault, &mut port, s1);
    let allocations = allocations_of(&[(s1, 100)]);
    vault.set_oracle_data(oracle, allocations, 1, 1).unwrap();

    // A deviation of exactly a tenth of the expectation is still healthy.
    port.set_balance(s1, 110);
    assert_eq!(vault.check_strategy_health(admin, 10, &port).unwrap(), vec![]);
    // One more is not.
    port.set_balance(s1, 111);
    assert_eq!(vault.check_strategy_health(admin, 20, &port).unwrap(), vec![s1]);
}

#[test]
fn test_check_strategy_health_validation() {
    let mut vault = fresh_vault();
    let admin = Principal(1);
    let port = MockStrategySet::new();
    assert_eq!(vault.check_strategy_health(Principal(99), 0, &port), Err(Error::Unauthorized));
    assert_eq!(vault.check_strategy_health(admin, 0, &port), Err(Error::NoStrategies));
}

#[test]
fn test_flag_strategy() {
    let mut vault = fresh_vault();
    let admin = Principal(1);
    let s1 = Principal(50);
    let mut port = MockStrategySet::new();
    register_strategy(&mut vault, &mut port, s1);

    assert_eq!(vault.flag_strategy(Principal(99), s1, 5), Err(Error::Unauthorized));
    assert_eq!(vault.flag_strategy(admin, Principal(77), 5), Err(Error::NotInitialized));
    assert_eq!(vault.flag_strategy(admin, s1, 5), Ok(()));
    assert_eq!(
        vault.get_strategy_health(s1),
        Some(StrategyHealth { last_known_balance: 0, last_check_timestamp: 5, is_healthy: false })
    );
}

#[test]
fn test_remove_strategy_recovers_funds() {
    let mut vault = fresh_vault();
    let admin = Principal(1);
    let s1 = Principal(50);
    let mut port = MockStrategySet::new();
    register_strategy(&mut vault, &mut port, s1);
    vault.flag_strategy(admin, s1, 5).unwrap();
    vault.set_total_assets(1000).unwrap();
    port.set_balance(s1, 500);

    assert_eq!(vault.remove_strategy(Principal(99), s1, &mut port), Err(Error::Unauthorized));
    assert_eq!(vault.remove_strategy(admin, Principal(77), &mut port), Err(Error::NotInitialized));
    assert_eq!(vault.remove_strategy(admin, s1, &mut port), Ok(()));
    assert_eq!(vault.total_assets(), 1500);
    assert!(vault.get_strategies().is_empty());
    assert_eq!(vault.get_strategy_health(s1), None);
    assert_eq!(port.balance_of(s1), 0);
}

#[test]
fn test_rebalance_via_governance() {
    let mut vault = fresh_vault();
    let admin = Principal(1);
    let oracle = Principal(3);
    let s1 = Principal(50);
    let mut port = MockStrategySet::new();
    register_strategy(&mut vault, &mut port, s1);
    port.set_balance(s1, 40);
    let allocations = allocations_of(&[(s1, 100)]);
    vault.set_oracle_data(oracle, allocations, 1, 1).unwrap();

    // The admin is the sole guardian, so the proposal executes on the spot.
    vault.propose_action(admin, ActionType::Rebalance(0), 1, &mut port).unwrap();
    assert_eq!(port.balance_of(s1), 100);
}

#[test]
fn test_rebalance_via_governance_stale_oracle_fails() {
    let mut vault = fresh_vault();
    let admin = Principal(1);
    let oracle = Principal(3);
    let s1 = Principal(50);
    let mut port = MockStrategySet::new();
    register_strategy(&mut vault, &mut port, s1);
    vault.set_oracle_data(oracle, allocations_of(&[(s1, 100)]), 1, 1).unwrap();

    // Executing the proposal after the oracle data went stale aborts the
    // whole proposing call.
    assert_eq!(
        vault.propose_action(admin, ActionType::Rebalance(0), 5000, &mut port),
        Err(Error::StaleOracleData)
    );
    assert_eq!(port.balance_of(s1), 0);
}

#[test]
fn test_mock_strategy() {
    let mut m = MockStrategy::new();
    assert_eq!(m.balance(), 0);
    m.deposit(50);
    assert_eq!(m.balance(), 50);
    m.withdraw(20);
    assert_eq!(m.balance(), 30);
    m.simulate_price_drift(77);
    assert_eq!(m.balance(), 77);
}
