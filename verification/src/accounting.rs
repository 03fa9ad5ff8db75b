//! Share/asset conversion math, fee extraction, and the deposit and withdraw
//! entrypoints.  Conversions round down (truncating division), favoring the
//! vault over the depositor and the withdrawer; arithmetic that would leave
//! the accounting range refuses the call instead of wrapping.

use vstd::prelude::*;

use crate::errors::Error;
use crate::principal::Principal;
use crate::state::{
    lemma_balance_nonneg, lemma_balances_nonneg_after_set, VolatilityShield, CURRENT_VERSION,
};
use crate::types::{QueuedWithdrawal, WithdrawOutcome};

verus! {

/// Ten thousand basis points make a whole.
pub const BPS_DENOMINATOR: i128 = 10000;

/// How many shares an asset amount is worth: one-to-one while either total is
/// zero (the bootstrap case), otherwise `floor(amount * totalShares /
/// totalAssets)`.
pub open spec fn spec_convert_to_shares(total_shares: int, total_assets: int, amount: int) -> int {
    if total_shares == 0 || total_assets == 0 {
        amount
    } else {
        amount * total_shares / total_assets
    }
}

/// How many assets a share amount is worth: one-to-one while either total is
/// zero, otherwise `floor(shares * totalAssets / totalShares)`.
pub open spec fn spec_convert_to_assets(total_shares: int, total_assets: int, shares: int) -> int {
    if total_shares == 0 || total_assets == 0 {
        shares
    } else {
        shares * total_assets / total_shares
    }
}

/// Whether the conversion's intermediate product stays in range.  The totals
/// are never negative, so only the upper bound can fail.
pub open spec fn convert_fits(total: int, amount: int) -> bool {
    amount * total <= i128::MAX
}

/// What `convert_to_shares` returns, for every state and input.
pub open spec fn shares_result(total_shares: int, total_assets: int, amount: int) -> Result<
    i128,
    Error,
> {
    if amount < 0 {
        Err(Error::NegativeAmount)
    } else if total_shares == 0 || total_assets == 0 {
        Ok(amount as i128)
    } else if !convert_fits(total_shares, amount) {
        Err(Error::Overflow)
    } else {
        Ok(spec_convert_to_shares(total_shares, total_assets, amount) as i128)
    }
}

/// What `convert_to_assets` returns, for every state and input.
pub open spec fn assets_result(total_shares: int, total_assets: int, shares: int) -> Result<
    i128,
    Error,
> {
    if shares < 0 {
        Err(Error::NegativeAmount)
    } else if total_shares == 0 || total_assets == 0 {
        Ok(shares as i128)
    } else if !convert_fits(total_assets, shares) {
        Err(Error::Overflow)
    } else {
        Ok(spec_convert_to_assets(total_shares, total_assets, shares) as i128)
    }
}

/// The fee carved out of `amount` at `fee_bps` basis points:
/// `floor(amount * feeBps / 10000)`.
pub open spec fn spec_fee(fee_bps: int, amount: int) -> int {
    amount * fee_bps / (BPS_DENOMINATOR as int)
}

/// What `take_fees` returns, for every state and input.
pub open spec fn fees_result(fee_bps: int, amount: int) -> Result<i128, Error> {
    if amount < 0 {
        Err(Error::NegativeAmount)
    } else if fee_bps == 0 {
        Ok(amount as i128)
    } else if amount * fee_bps > i128::MAX {
        Err(Error::Overflow)
    } else {
        Ok((amount - spec_fee(fee_bps, amount)) as i128)
    }
}

/// The floor of a non-negative quotient is at most the dividend and never
/// negative.
proof fn lemma_div_bounds(p: int, d: int)
    requires
        p >= 0,
        d >= 1,
    ensures
        0 <= p / d <= p,
{
    assert(0 <= p / d <= p) by (nonlinear_arith)
        requires
            p >= 0,
            d >= 1,
    ;
}

/// A product of non-negative factors is non-negative.
proof fn lemma_mul_nonneg(a: int, b: int)
    requires
        a >= 0,
        b >= 0,
    ensures
        a * b >= 0,
{
    assert(a * b >= 0) by (nonlinear_arith)
        requires
            a >= 0,
            b >= 0,
    ;
}

/// What `deposit` returns, for every state and input: the reason the call is
/// refused, in the order the checks run, or success.
pub open spec fn deposit_result(s: VolatilityShield, from: Principal, amount: int) -> Result<
    (),
    Error,
> {
    let ts = s.total_shares as int;
    let ta = s.total_assets as int;
    let shares = spec_convert_to_shares(ts, ta, amount);
    let bal = s.spec_balance(from);
    if s.version != CURRENT_VERSION {
        Err(Error::VersionMismatch)
    } else if s.paused {
        Err(Error::ContractPaused)
    } else if amount <= 0 {
        Err(Error::NegativeAmount)
    } else if ts != 0 && ta != 0 && !convert_fits(ts, amount) {
        Err(Error::Overflow)
    } else if bal + shares > i128::MAX {
        Err(Error::Overflow)
    } else if bal + shares > s.max_deposit_per_user {
        Err(Error::DepositCapExceeded)
    } else if ta + amount > i128::MAX {
        Err(Error::Overflow)
    } else if ta + amount > s.max_total_assets {
        Err(Error::DepositCapExceeded)
    } else if ts + shares > i128::MAX {
        Err(Error::Overflow)
    } else {
        Ok(())
    }
}

/// What `withdraw` returns, for every state and input.
pub open spec fn withdraw_result(s: VolatilityShield, from: Principal, shares: int) -> Result<
    WithdrawOutcome,
    Error,
> {
    let ts = s.total_shares as int;
    let ta = s.total_assets as int;
    let assets = spec_convert_to_assets(ts, ta, shares);
    let bal = s.spec_balance(from);
    if s.version != CURRENT_VERSION {
        Err(Error::VersionMismatch)
    } else if s.paused {
        Err(Error::ContractPaused)
    } else if shares <= 0 {
        Err(Error::NegativeAmount)
    } else if bal < shares {
        Err(Error::InsufficientShares)
    } else if ts != 0 && ta != 0 && !convert_fits(ta, shares) {
        Err(Error::Overflow)
    } else if assets > s.max_withdraw_per_tx {
        Err(Error::WithdrawalCapExceeded)
    } else if assets > s.withdraw_queue_threshold {
        Ok(WithdrawOutcome::Queued)
    } else if shares > ts || assets > ta {
        Err(Error::Overflow)
    } else {
        Ok(WithdrawOutcome::Settled(assets as i128))
    }
}

impl VolatilityShield {
    /// Converts an asset amount to the shares it is worth at the current
    /// totals, rounding down.  Rejects negative amounts; refuses amounts
    /// whose intermediate product leaves the accounting range.
    pub fn convert_to_shares(&self, amount: i128) -> (r: Result<i128, Error>)
        requires
            self.wf(),
        ensures
            r == shares_result(self.total_shares as int, self.total_assets as int, amount as int),
    {
        if amount < 0 {
            return Err(Error::NegativeAmount);
        }
        let total_shares = self.total_shares;
        let total_assets = self.total_assets;
        if total_shares == 0 || total_assets == 0 {
            return Ok(amount);
        }
        match amount.checked_mul(total_shares) {
            None => {
                proof {
                    lemma_mul_nonneg(amount as int, total_shares as int);
                }
                Err(Error::Overflow)
            },
            Some(product) => {
                proof {
                    lemma_div_bounds(product as int, total_assets as int);
                }
                match product.checked_div(total_assets) {
                    Some(q) => Ok(q),
                    None => Err(Error::Overflow),
                }
            },
        }
    }

    /// Converts a share amount to the assets it is worth at the current
    /// totals, rounding down.  Rejects negative amounts; refuses amounts
    /// whose intermediate product leaves the accounting range.
    pub fn convert_to_assets(&self, shares: i128) -> (r: Result<i128, Error>)
        requires
            self.wf(),
        ensures
            r == assets_result(self.total_shares as int, self.total_assets as int, shares as int),
    {
        if shares < 0 {
            return Err(Error::NegativeAmount);
        }
        let total_shares = self.total_shares;
        let total_assets = self.total_assets;
        if total_shares == 0 || total_assets == 0 {
            return Ok(shares);
        }
        match shares.checked_mul(total_assets) {
            None => {
                proof {
                    lemma_mul_nonneg(shares as int, total_assets as int);
                }
                Err(Error::Overflow)
            },
            Some(product) => {
                proof {
                    lemma_div_bounds(product as int, total_shares as int);
                }
                match product.checked_div(total_shares) {
                    Some(q) => Ok(q),
                    None => Err(Error::Overflow),
                }
            },
        }
    }

    /// Deducts the configured fee from `amount` and returns what remains; a
    /// zero fee rate hands the amount back unchanged.
    pub fn take_fees(&self, amount: i128) -> (r: Result<i128, Error>)
        requires
            self.wf(),
        ensures
            r == fees_result(self.fee_bps as int, amount as int),
    {
        if amount < 0 {
            return Err(Error::NegativeAmount);
        }
        if self.fee_bps == 0 {
            return Ok(amount);
        }
        match amount.checked_mul(self.fee_bps as i128) {
            None => {
                proof {
                    lemma_mul_nonneg(amount as int, self.fee_bps as int);
                }
                Err(Error::Overflow)
            },
            Some(product) => {
                proof {
                    lemma_div_bounds(product as int, BPS_DENOMINATOR as int);
                }
                let fee = product / BPS_DENOMINATOR;
                Ok(amount - fee)
            },
        }
    }

    /// Accepts a deposit of `amount` assets from an authenticated `from` and
    /// mints the shares it is worth at the current totals.  Value is
    /// conserved: on success the totals grow by exactly the deposit and the
    /// minted shares.  The caller verifies `from`'s authorization and, on
    /// success, moves `amount` of the base asset from `from` to the vault; on
    /// any error the state is unchanged and nothing may move.
    pub fn deposit(&mut self, from: Principal, amount: i128) -> (r: Result<(), Error>)
        requires
            old(self).wf(),
        ensures
            final(self).wf(),
            r == deposit_result(*old(self), from, amount as int),
            r.is_err() ==> *final(self) == *old(self),
            r.is_ok() ==> final(self).total_assets == old(self).total_assets + amount
                && final(self).total_shares == old(self).total_shares + spec_convert_to_shares(
                old(self).total_shares as int,
                old(self).total_assets as int,
                amount as int,
            )
                && final(self).spec_balance(from) == old(self).spec_balance(from)
                + spec_convert_to_shares(
                old(self).total_shares as int,
                old(self).total_assets as int,
                amount as int,
            )
                && (forall|q: Principal| q != from ==> final(self).spec_balance(q) == old(
                self,
            ).spec_balance(q))
                && final(self).eq_roles(old(self)) && final(self).eq_limits(old(self))
                && final(self).eq_operational(old(self)) && final(self).eq_strategies(old(self))
                && final(self).eq_governance(old(self)) && final(self).eq_queue(old(self)),
    {
        if self.version != CURRENT_VERSION {
            return Err(Error::VersionMismatch);
        }
        if self.paused {
            return Err(Error::ContractPaused);
        }
        if amount <= 0 {
            return Err(Error::NegativeAmount);
        }
        let shares_to_mint = match self.convert_to_shares(amount) {
            Ok(s) => s,
            Err(e) => {
                return Err(e);
            },
        };
        proof {
            if self.total_shares != 0 && self.total_assets != 0 {
                lemma_mul_nonneg(amount as int, self.total_shares as int);
                lemma_div_bounds(amount as int * self.total_shares as int, self.total_assets as int);
            }
        }
        let current_balance = self.balance(from);
        let new_user_balance = match current_balance.checked_add(shares_to_mint) {
            Some(v) => v,
            None => {
                return Err(Error::Overflow);
            },
        };
        if new_user_balance > self.max_deposit_per_user {
            return Err(Error::DepositCapExceeded);
        }
        let new_total_assets = match self.total_assets.checked_add(amount) {
            Some(v) => v,
            None => {
                return Err(Error::Overflow);
            },
        };
        if new_total_assets > self.max_total_assets {
            return Err(Error::DepositCapExceeded);
        }
        let new_total_shares = match self.total_shares.checked_add(shares_to_mint) {
            Some(v) => v,
            None => {
                return Err(Error::Overflow);
            },
        };
        proof {
            lemma_balance_nonneg(self.balances@, from);
        }
        let ghost b0 = self.balances@;
        self.balances.set(from, new_user_balance);
        proof {
            lemma_balances_nonneg_after_set(b0, self.balances@, from, new_user_balance);
        }
        self.total_shares = new_total_shares;
        self.total_assets = new_total_assets;
        Ok(())
    }

    /// Burns `shares` of an authenticated `from`'s balance.  A request whose
    /// asset value stays within the queue threshold settles immediately:
    /// shares burned equal shares requested, assets released equal the
    /// conversion at the pre-withdrawal totals, and the caller then moves
    /// that many assets from the vault to `from`.  A request strictly above
    /// the threshold is queued instead, with `now` as its timestamp, and
    /// touches no balance.  On any error the state is unchanged.
    pub fn withdraw(&mut self, from: Principal, shares: i128, now: u64) -> (r: Result<
        WithdrawOutcome,
        Error,
    >)
        requires
            old(self).wf(),
        ensures
            final(self).wf(),
            r == withdraw_result(*old(self), from, shares as int),
            match r {
                Ok(WithdrawOutcome::Settled(a)) => {
                    &&& a == spec_convert_to_assets(
                        old(self).total_shares as int,
                        old(self).total_assets as int,
                        shares as int,
                    )
                    &&& final(self).total_shares == old(self).total_shares - shares
                    &&& final(self).total_assets == old(self).total_assets - a
                    &&& final(self).spec_balance(from) == old(self).spec_balance(from) - shares
                    &&& forall|q: Principal|
                        q != from ==> final(self).spec_balance(q) == old(self).spec_balance(q)
                    &&& final(self).eq_roles(old(self))
                    &&& final(self).eq_limits(old(self))
                    &&& final(self).eq_operational(old(self))
                    &&& final(self).eq_strategies(old(self))
                    &&& final(self).eq_governance(old(self))
                    &&& final(self).eq_queue(old(self))
                },
                Ok(WithdrawOutcome::Queued) => {
                    &&& final(self).pending_withdrawals@ == old(self).pending_withdrawals@.push(
                        (QueuedWithdrawal { user: from, shares, timestamp: now }),
                    )
                    &&& final(self).eq_accounting(old(self))
                    &&& final(self).eq_roles(old(self))
                    &&& final(self).eq_limits(old(self))
                    &&& final(self).eq_operational(old(self))
                    &&& final(self).eq_strategies(old(self))
                    &&& final(self).eq_governance(old(self))
                },
                Err(_) => *final(self) == *old(self),
            },
    {
        if self.version != CURRENT_VERSION {
            return Err(Error::VersionMismatch);
        }
        if self.paused {
            return Err(Error::ContractPaused);
        }
        if shares <= 0 {
            return Err(Error::NegativeAmount);
        }
        let current_balance = self.balance(from);
        if current_balance < shares {
            return Err(Error::InsufficientShares);
        }
        let assets_to_withdraw = match self.convert_to_assets(shares) {
            Ok(a) => a,
            Err(e) => {
                return Err(e);
            },
        };
        proof {
            if self.total_shares != 0 && self.total_assets != 0 {
                lemma_mul_nonneg(shares as int, self.total_assets as int);
                lemma_div_bounds(shares as int * self.total_assets as int, self.total_shares as int);
            }
        }
        if assets_to_withdraw > self.max_withdraw_per_tx {
            return Err(Error::WithdrawalCapExceeded);
        }
        if assets_to_withdraw > self.withdraw_queue_threshold {
            self.pending_withdrawals.push(
                QueuedWithdrawal { user: from, shares, timestamp: now },
            );
            return Ok(WithdrawOutcome::Queued);
        }
        if shares > self.total_shares || assets_to_withdraw > self.total_assets {
            return Err(Error::Overflow);
        }
        self.total_shares = self.total_shares - shares;
        self.total_assets = self.total_assets - assets_to_withdraw;
        let ghost b0 = self.balances@;
        self.balances.set(from, current_balance - shares);
        proof {
            lemma_balances_nonneg_after_set(b0, self.balances@, from, (current_balance - shares) as i128);
        }
        Ok(WithdrawOutcome::Settled(assets_to_withdraw))
    }
}

} // verus!
