use volatility_shield::{Error, Principal, VolatilityShield, WithdrawOutcome};

fn fresh_vault() -> VolatilityShield {
    let admin = Principal(1);
    VolatilityShield::init(admin, Principal(2), Principal(3), Principal(4), 0, vec![admin], 1)
}

#[test]
fn test_queue_threshold_boundary() {
    let mut vault = fresh_vault();
    let admin = Principal(1);
    let user = Principal(10);
    vault.set_total_shares(1000).unwrap();
    vault.set_total_assets(1000).unwrap();
    vault.set_balance(user, 500).unwrap();
    vault.set_withdraw_queue_threshold(admin, 100).unwrap();

    // An asset value exactly at the threshold settles immediately.
    assert_eq!(vault.withdraw(user, 100, 7), Ok(WithdrawOutcome::Settled(100)));
    assert_eq!(vault.balance(user), 400);
    assert!(vault.get_pending_withdrawals().is_empty());

    // One above the threshold is queued: no funds move, no balance changes.
    assert_eq!(vault.withdraw(user, 101, 7), Ok(WithdrawOutcome::Queued));
    assert_eq!(vault.balance(user), 400);
    assert_eq!(vault.total_shares(), 900);
    assert_eq!(vault.total_assets(), 900);
    let pending = vault.get_pending_withdrawals();
    assert_eq!(pending.len(), 1);
    assert_eq!(pending[0].user, user);
    assert_eq!(pending[0].shares, 101);
    assert_eq!(pending[0].timestamp, 7);
}

#[test]
fn test_queue_withdraw_below_threshold_rejected() {
    let mut vault = fresh_vault();
    let admin = Principal(1);
    let user = Principal(10);
    vault.set_total_shares(1000).unwrap();
    vault.set_total_assets(1000).unwrap();
    vault.set_balance(user, 500).unwrap();
    vault.set_withdraw_queue_threshold(admin, 100).unwrap();
    assert_eq!(vault.queue_withdraw(user, 100, 0), Err(Error::BelowQueueThreshold));
    assert_eq!(vault.queue_withdraw(user, 101, 0), Ok(()));
}

#[test]
fn test_queue_withdraw_validation() {
    let mut vault = fresh_vault();
    let user = Principal(10);
    vault.set_balance(user, 5).unwrap();
    assert_eq!(vault.queue_withdraw(user, 0, 0), Err(Error::NegativeAmount));
    assert_eq!(vault.queue_withdraw(user, 10, 0), Err(Error::InsufficientShares));
}

#[test]
fn test_process_queued_withdrawals() {
    let mut vault = fresh_vault();
    let admin = Principal(1);
    let a = Principal(10);
    let b = Principal(11);
    let c = Principal(12);
    vault.set_total_shares(1000).unwrap();
    vault.set_total_assets(1000).unwrap();
    vault.set_balance(a, 500).unwrap();
    vault.set_balance(b, 500).unwrap();
    vault.set_balance(c, 500).unwrap();
    vault.set_withdraw_queue_threshold(admin, 10).unwrap();

    assert_eq!(vault.withdraw(a, 20, 1), Ok(WithdrawOutcome::Queued));
    assert_eq!(vault.withdraw(b, 30, 2), Ok(WithdrawOutcome::Queued));
    assert_eq!(vault.withdraw(c, 40, 3), Ok(WithdrawOutcome::Queued));
    assert_eq!(vault.get_pending_withdrawals().len(), 3);

    // Oldest first, up to the limit; conversions at the totals of this call.
    let settlements = vault.process_queued_withdrawals(admin, 2).unwrap();
    assert_eq!(settlements, vec![(a, 20), (b, 30)]);
    assert_eq!(vault.total_shares(), 950);
    assert_eq!(vault.total_assets(), 950);

    // The entry beyond the limit is preserved verbatim.
    let pending = vault.get_pending_withdrawals();
    assert_eq!(pending.len(), 1);
    assert_eq!(pending[0].user, c);
    assert_eq!(pending[0].shares, 40);
    assert_eq!(pending[0].timestamp, 3);

    // Settlement burns each settled user's shares, as an immediate
    // withdrawal would; the unprocessed user keeps theirs.
    assert_eq!(vault.balance(a), 480);
    assert_eq!(vault.balance(b), 470);
    assert_eq!(vault.balance(c), 500);
}

#[test]
fn test_process_requires_admin() {
    let mut vault = fresh_vault();
    assert_eq!(vault.process_queued_withdrawals(Principal(99), 5), Err(Error::Unauthorized));
}

#[test]
fn test_process_empty_queue() {
    let mut vault = fresh_vault();
    let settlements = vault.process_queued_withdrawals(Principal(1), 5).unwrap();
    assert!(settlements.is_empty());
}

#[test]
fn test_cancel_queued_withdrawal() {
    let mut vault = fresh_vault();
    let admin = Principal(1);
    let user = Principal(10);
    vault.set_total_shares(1000).unwrap();
    vault.set_total_assets(1000).unwrap();
    vault.set_balance(user, 500).unwrap();
    vault.set_withdraw_queue_threshold(admin, 10).unwrap();
    assert_eq!(vault.withdraw(user, 20, 1), Ok(WithdrawOutcome::Queued));

    // Queuing left the balance untouched, so removing the entry fully
    // reverses it: the balance after queue-then-cancel equals the balance
    // before, and nothing else moves.
    assert_eq!(vault.balance(user), 500);
    assert_eq!(vault.cancel_queued_withdrawal(user), Ok(()));
    assert!(vault.get_pending_withdrawals().is_empty());
    assert_eq!(vault.balance(user), 500);
    assert_eq!(vault.total_shares(), 1000);
    assert_eq!(vault.total_assets(), 1000);

    assert_eq!(vault.cancel_queued_withdrawal(user), Err(Error::WithdrawalNotFound));
}

#[test]
fn test_process_refuses_when_balance_cannot_cover() {
    let mut vault = fresh_vault();
    let admin = Principal(1);
    let user = Principal(10);
    vault.set_total_shares(1000).unwrap();
    vault.set_total_assets(1000).unwrap();
    vault.set_balance(user, 500).unwrap();
    vault.set_withdraw_queue_threshold(admin, 10).unwrap();
    assert_eq!(vault.withdraw(user, 20, 1), Ok(WithdrawOutcome::Queued));

    // If the user's shares were spent after queuing, settlement cannot burn
    // them: the whole call refuses and nothing changes.
    vault.set_balance(user, 10).unwrap();
    assert_eq!(vault.process_queued_withdrawals(admin, 5), Err(Error::InsufficientShares));
    assert_eq!(vault.balance(user), 10);
    assert_eq!(vault.total_shares(), 1000);
    assert_eq!(vault.get_pending_withdrawals().len(), 1);
}

#[test]
fn test_process_refuses_when_totals_cannot_cover() {
    let mut vault = fresh_vault();
    let admin = Principal(1);
    let user = Principal(10);
    vault.set_total_shares(1000).unwrap();
    vault.set_total_assets(1000).unwrap();
    vault.set_balance(user, 500).unwrap();
    vault.set_withdraw_queue_threshold(admin, 10).unwrap();
    assert_eq!(vault.withdraw(user, 20, 1), Ok(WithdrawOutcome::Queued));

    // With the totals drained below the queued request, settling it would
    // break the books: the whole call refuses and nothing changes.
    vault.set_total_shares(5).unwrap();
    assert_eq!(vault.process_queued_withdrawals(admin, 5), Err(Error::Overflow));
    assert_eq!(vault.total_shares(), 5);
    assert_eq!(vault.get_pending_withdrawals().len(), 1);
}

#[test]
fn test_cancel_removes_first_entry_only() {
    let mut vault = fresh_vault();
    let admin = Principal(1);
    let user = Principal(10);
    vault.set_total_shares(1000).unwrap();
    vault.set_total_assets(1000).unwrap();
    vault.set_balance(user, 500).unwrap();
    vault.set_withdraw_queue_threshold(admin, 10).unwrap();
    assert_eq!(vault.withdraw(user, 20, 1), Ok(WithdrawOutcome::Queued));
    assert_eq!(vault.withdraw(user, 30, 2), Ok(WithdrawOutcome::Queued));

    assert_eq!(vault.cancel_queued_withdrawal(user), Ok(()));
    let pending = vault.get_pending_withdrawals();
    assert_eq!(pending.len(), 1);
    assert_eq!(pending[0].shares, 30);
}
