use volatility_shield::{Error, Principal, VolatilityShield, WithdrawOutcome};

fn fresh_vault(fee_percentage: u32) -> VolatilityShield {
    let admin = Principal(1);
    let asset = Principal(2);
    let oracle = Principal(3);
    let treasury = Principal(4);
    VolatilityShield::init(admin, asset, oracle, treasury, fee_percentage, vec![admin], 1)
}

#[test]
fn test_init_stores_roles() {
    let admin = Principal(1);
    let asset = Principal(2);
    let oracle = Principal(3);
    let treasury = Principal(4);
    let vault = VolatilityShield::init(admin, asset, oracle, treasury, 500, vec![admin], 1);

    assert_eq!(vault.read_admin(), admin);
    assert_eq!(vault.get_oracle(), oracle);
    assert_eq!(vault.get_asset(), asset);
    assert_eq!(vault.treasury(), treasury);
    assert_eq!(vault.fee_percentage(), 500);
}

#[test]
fn test_init_defaults() {
    let vault = fresh_vault(0);
    assert_eq!(vault.total_assets(), 0);
    assert_eq!(vault.total_shares(), 0);
    assert!(!vault.is_paused());
    assert_eq!(vault.version(), 1);
    assert_eq!(vault.max_staleness(), 3600);
    assert_eq!(vault.get_withdraw_queue_threshold(), i128::MAX);
    assert_eq!(vault.get_guardians(), vec![Principal(1)]);
    assert_eq!(vault.get_threshold(), 1);
    assert!(vault.get_pending_withdrawals().is_empty());
    assert!(vault.get_strategies().is_empty());
}

#[test]
fn test_withdraw_success() {
    let mut vault = fresh_vault(0);
    vault.set_total_shares(1000).unwrap();
    vault.set_total_assets(5000).unwrap();

    let user = Principal(10);
    vault.set_balance(user, 100).unwrap();

    assert_eq!(vault.withdraw(user, 50, 0), Ok(WithdrawOutcome::Settled(250)));

    assert_eq!(vault.balance(user), 50);
    assert_eq!(vault.total_shares(), 950);
    assert_eq!(vault.total_assets(), 4750);
}

#[test]
fn test_deposit_conserves_value() {
    let mut vault = fresh_vault(0);
    let user = Principal(10);

    // Bootstrap deposit mints one share per asset.
    assert_eq!(vault.deposit(user, 1000), Ok(()));
    assert_eq!(vault.total_assets(), 1000);
    assert_eq!(vault.total_shares(), 1000);
    assert_eq!(vault.balance(user), 1000);

    // After the share price doubles, a deposit mints proportionally fewer
    // shares, computed against the pre-deposit totals.
    vault.set_total_assets(2000).unwrap();
    assert_eq!(vault.deposit(user, 500), Ok(()));
    assert_eq!(vault.total_assets(), 2500);
    assert_eq!(vault.total_shares(), 1250);
    assert_eq!(vault.balance(user), 1250);
}

#[test]
fn test_withdraw_is_inverse_of_conversion() {
    let mut vault = fresh_vault(0);
    vault.set_total_shares(1000).unwrap();
    vault.set_total_assets(3000).unwrap();
    let user = Principal(10);
    vault.set_balance(user, 300).unwrap();

    // Assets released equal the conversion at the pre-withdrawal totals;
    // shares burned equal shares requested.
    assert_eq!(vault.withdraw(user, 100, 0), Ok(WithdrawOutcome::Settled(300)));
    assert_eq!(vault.balance(user), 200);
    assert_eq!(vault.total_shares(), 900);
    assert_eq!(vault.total_assets(), 2700);
}

#[test]
fn test_deposit_per_user_cap() {
    let mut vault = fresh_vault(0);
    let admin = Principal(1);
    let user = Principal(10);
    vault.set_deposit_cap(admin, 100, i128::MAX).unwrap();
    assert_eq!(vault.deposit(user, 150), Err(Error::DepositCapExceeded));
    assert_eq!(vault.balance(user), 0);
    assert_eq!(vault.deposit(user, 100), Ok(()));
}

#[test]
fn test_deposit_global_cap() {
    let mut vault = fresh_vault(0);
    let admin = Principal(1);
    vault.set_deposit_cap(admin, i128::MAX, 100).unwrap();
    assert_eq!(vault.deposit(Principal(10), 150), Err(Error::DepositCapExceeded));
    assert_eq!(vault.deposit(Principal(10), 60), Ok(()));
    assert_eq!(vault.deposit(Principal(11), 60), Err(Error::DepositCapExceeded));
}

#[test]
fn test_withdraw_per_tx_cap() {
    let mut vault = fresh_vault(0);
    let admin = Principal(1);
    let user = Principal(10);
    vault.set_total_shares(100).unwrap();
    vault.set_total_assets(100).unwrap();
    vault.set_balance(user, 50).unwrap();
    vault.set_withdraw_cap(admin, 10).unwrap();
    assert_eq!(vault.withdraw(user, 20, 0), Err(Error::WithdrawalCapExceeded));
    assert_eq!(vault.withdraw(user, 10, 0), Ok(WithdrawOutcome::Settled(10)));
}

#[test]
fn test_paused_rejects_mutations() {
    let mut vault = fresh_vault(0);
    let admin = Principal(1);
    let user = Principal(10);
    vault.set_balance(user, 100).unwrap();
    vault.set_total_shares(100).unwrap();
    vault.set_total_assets(100).unwrap();
    vault.set_paused(admin, true).unwrap();
    assert!(vault.is_paused());
    assert_eq!(vault.deposit(user, 10), Err(Error::ContractPaused));
    assert_eq!(vault.withdraw(user, 10, 0), Err(Error::ContractPaused));
    assert_eq!(vault.queue_withdraw(user, 10, 0), Err(Error::ContractPaused));
    vault.set_paused(admin, false).unwrap();
    assert_eq!(vault.deposit(user, 10), Ok(()));
}

#[test]
fn test_set_paused_requires_admin() {
    let mut vault = fresh_vault(0);
    assert_eq!(vault.set_paused(Principal(99), true), Err(Error::Unauthorized));
    assert!(!vault.is_paused());
}

#[test]
fn test_non_positive_amounts_rejected() {
    let mut vault = fresh_vault(0);
    let user = Principal(10);
    assert_eq!(vault.deposit(user, 0), Err(Error::NegativeAmount));
    assert_eq!(vault.deposit(user, -5), Err(Error::NegativeAmount));
    assert_eq!(vault.withdraw(user, 0, 0), Err(Error::NegativeAmount));
    assert_eq!(vault.withdraw(user, -5, 0), Err(Error::NegativeAmount));
}

#[test]
fn test_insufficient_shares() {
    let mut vault = fresh_vault(0);
    let user = Principal(10);
    vault.set_balance(user, 10).unwrap();
    vault.set_total_shares(10).unwrap();
    vault.set_total_assets(10).unwrap();
    assert_eq!(vault.withdraw(user, 20, 0), Err(Error::InsufficientShares));
}

#[test]
fn test_version_gate_and_migrate() {
    let mut vault = fresh_vault(0);
    let admin = Principal(1);
    let user = Principal(10);
    assert_eq!(vault.check_version(1), Ok(()));
    assert_eq!(vault.migrate(Principal(99), 2), Err(Error::Unauthorized));
    assert_eq!(vault.migrate(admin, 1), Err(Error::VersionMismatch));
    assert_eq!(vault.migrate(admin, 2), Ok(()));
    assert_eq!(vault.version(), 2);
    assert_eq!(vault.check_version(1), Err(Error::VersionMismatch));
    assert_eq!(vault.deposit(user, 10), Err(Error::VersionMismatch));
    assert_eq!(vault.withdraw(user, 10, 0), Err(Error::VersionMismatch));
}

#[test]
fn test_raw_setters_reject_negative_totals() {
    let mut vault = fresh_vault(0);
    assert_eq!(vault.set_total_assets(-1), Err(Error::NegativeAmount));
    assert_eq!(vault.set_total_shares(-1), Err(Error::NegativeAmount));
    assert_eq!(vault.set_withdraw_queue_threshold(Principal(1), -1), Err(Error::NegativeAmount));
}

#[test]
fn test_deposit_overflow_refused() {
    let mut vault = fresh_vault(0);
    let user = Principal(10);
    vault.set_balance(user, i128::MAX - 10).unwrap();
    assert_eq!(vault.deposit(user, 100), Err(Error::Overflow));
    assert_eq!(vault.balance(user), i128::MAX - 10);
    assert_eq!(vault.total_assets(), 0);
}

#[test]
fn test_set_token_and_balance() {
    let mut vault = fresh_vault(0);
    vault.set_token(Principal(77));
    vault.set_balance(Principal(10), 42).unwrap();
    assert_eq!(vault.balance(Principal(10)), 42);
    assert_eq!(vault.balance(Principal(11)), 0);
}
