//! Oracle-driven reallocation.  The oracle replaces the target-allocation map
//! wholesale, under a monotonic-timestamp rule; rebalancing moves each
//! strategy toward its target through the strategy port and then audits the
//! outcome against a slippage bound.  The strategy calls commit one by one
//! and cannot be undone, so a slippage violation is detected after the fact,
//! not prevented: the vault's own accounting never changes in either case.

use vstd::prelude::*;

use crate::errors::Error;
use crate::pmap::PrincipalMap;
use crate::principal::Principal;
use crate::state::{VolatilityShield, CURRENT_VERSION};
use crate::strategy::StrategyTrait;

verus! {

/// What `set_oracle_data` returns, for every state and input.
pub open spec fn oracle_data_result(
    s: VolatilityShield,
    caller: Principal,
    timestamp: u64,
    now: u64,
) -> Result<(), Error> {
    if caller != s.oracle {
        Err(Error::Unauthorized)
    } else if timestamp > now {
        Err(Error::InvalidTimestamp)
    } else if timestamp <= s.oracle_last_update {
        Err(Error::InvalidTimestamp)
    } else {
        Ok(())
    }
}

/// Whether the oracle's data is too old to act on at time `now`.  An age of
/// exactly the staleness bound is still fresh.
pub open spec fn oracle_stale(s: VolatilityShield, now: u64) -> bool {
    now > s.oracle_last_update + s.max_staleness
}

/// The checks a rebalance makes before touching any strategy: layout
/// version, oracle freshness, and the presence of target allocations.
pub open spec fn rebalance_gate(s: VolatilityShield, now: u64) -> Result<(), Error> {
    if s.version != CURRENT_VERSION {
        Err(Error::VersionMismatch)
    } else if oracle_stale(s, now) {
        Err(Error::StaleOracleData)
    } else if s.allocations is None {
        Err(Error::NotInitialized)
    } else {
        Ok(())
    }
}

/// The absolute deviation of a final balance from its target.
pub open spec fn spec_deviation(target: int, final_balance: int) -> int {
    if final_balance >= target {
        final_balance - target
    } else {
        target - final_balance
    }
}

/// Slippage in basis points against a positive target:
/// `floor(|final - target| * 10000 / target)`.
pub open spec fn spec_slippage_bps(target: int, final_balance: int) -> int {
    spec_deviation(target, final_balance) * 10000 / target
}

/// Whether the slippage arithmetic stays in the accounting range.
pub open spec fn slippage_fits(target: int, final_balance: int) -> bool {
    target <= 0 || (spec_deviation(target, final_balance) <= i128::MAX && spec_deviation(
        target,
        final_balance,
    ) * 10000 <= i128::MAX)
}

/// Decides whether a strategy's final balance is within the allowed slippage
/// of its target: true outright when the target is not positive, otherwise
/// true exactly when the deviation, in basis points of the target, does not
/// exceed the bound.
pub fn slippage_within(target: i128, final_balance: i128, max_slippage_bps: u32) -> (r: Result<
    bool,
    Error,
>)
    ensures
        r == (if !slippage_fits(target as int, final_balance as int) {
            Err::<bool, Error>(Error::Overflow)
        } else if target <= 0 {
            Ok::<bool, Error>(true)
        } else {
            Ok::<bool, Error>(
                spec_slippage_bps(target as int, final_balance as int) <= max_slippage_bps as int,
            )
        }),
{
    if target <= 0 {
        return Ok(true);
    }
    let deviation = if final_balance >= target {
        final_balance - target
    } else {
        match target.checked_sub(final_balance) {
            Some(d) => d,
            None => {
                return Err(Error::Overflow);
            },
        }
    };
    let scaled = match deviation.checked_mul(10000) {
        Some(v) => v,
        None => {
            proof {
                assert(deviation as int * 10000 >= 0) by (nonlinear_arith)
                    requires
                        deviation >= 0,
                ;
            }
            return Err(Error::Overflow);
        },
    };
    proof {
        assert(0 <= scaled as int / target as int <= scaled) by (nonlinear_arith)
            requires
                scaled >= 0,
                target >= 1,
        ;
    }
    let bps = scaled / target;
    Ok(bps <= max_slippage_bps as i128)
}

/// What the audit of entry `k` finds: deviation arithmetic out of range, a
/// positive target exceeded beyond the bound, or nothing.
pub open spec fn audit_entry_error(
    targets: Seq<(Principal, i128)>,
    finals: Seq<i128>,
    max_slippage_bps: u32,
    k: int,
) -> Option<Error> {
    let t = targets[k].1 as int;
    let f = finals[k] as int;
    if !slippage_fits(t, f) {
        Some(Error::Overflow)
    } else if t > 0 && spec_slippage_bps(t, f) > max_slippage_bps as int {
        Some(Error::SlippageExceeded)
    } else {
        None
    }
}

/// Audits every strategy's final balance against its target, in allocation
/// order: accepts exactly when every positive target is within the slippage
/// bound, and otherwise refuses with the first offending entry's error.
pub fn rebalance_audit(
    targets: &PrincipalMap<i128>,
    finals: &Vec<i128>,
    max_slippage_bps: u32,
) -> (r: Result<(), Error>)
    requires
        finals@.len() == targets@.len(),
    ensures
        r matches Ok(_) || r == Err::<(), Error>(Error::SlippageExceeded) || r == Err::<(), Error>(
            Error::Overflow,
        ),
        (r matches Ok(_)) <==> (forall|k: int|
            0 <= k < targets@.len() ==> #[trigger] audit_entry_error(
                targets@,
                finals@,
                max_slippage_bps,
                k,
            ) is None),
        forall|k: int|
            0 <= k < targets@.len() && (#[trigger] audit_entry_error(
                targets@,
                finals@,
                max_slippage_bps,
                k,
            )) is Some && (forall|j: int|
                0 <= j < k ==> audit_entry_error(targets@, finals@, max_slippage_bps, j) is None)
                ==> r == Err::<(), Error>(
                audit_entry_error(targets@, finals@, max_slippage_bps, k)->Some_0,
            ),
{
    let n = targets.len();
    let mut k: usize = 0;
    while k < n
        invariant
            n == targets@.len(),
            finals@.len() == n,
            k <= n,
            forall|j: int|
                0 <= j < k ==> #[trigger] audit_entry_error(
                    targets@,
                    finals@,
                    max_slippage_bps,
                    j,
                ) is None,
        decreases n - k,
    {
        let entry = targets.at(k);
        match slippage_within(entry.1, finals[k], max_slippage_bps) {
            Ok(true) => {},
            Ok(false) => {
                proof {
                    assert(audit_entry_error(targets@, finals@, max_slippage_bps, k as int)
                        == Some(Error::SlippageExceeded));
                }
                return Err(Error::SlippageExceeded);
            },
            Err(e) => {
                proof {
                    assert(audit_entry_error(targets@, finals@, max_slippage_bps, k as int)
                        == Some(Error::Overflow));
                }
                return Err(e);
            },
        }
        k = k + 1;
    }
    Ok(())
}

impl VolatilityShield {
    /// Stores a fresh target-allocation map from the oracle, replacing the
    /// previous one wholesale, and advances the oracle clock.  Only the
    /// oracle may call; the update must not be future-dated and must be
    /// strictly newer than the last recorded one.
    pub fn set_oracle_data(
        &mut self,
        caller: Principal,
        allocations: PrincipalMap<i128>,
        timestamp: u64,
        now: u64,
    ) -> (r: Result<(), Error>)
        requires
            old(self).wf(),
            allocations.wf(),
        ensures
            final(self).wf(),
            r == oracle_data_result(*old(self), caller, timestamp, now),
            r.is_err() ==> *final(self) == *old(self),
            r.is_ok() ==> final(self).allocations == Some(allocations)
                && final(self).oracle_last_update == timestamp
                && final(self).strategies@ == old(self).strategies@
                && final(self).health@ == old(self).health@
                && final(self).paused == old(self).paused
                && final(self).version == old(self).version
                && final(self).max_staleness == old(self).max_staleness
                && final(self).timelock_duration == old(self).timelock_duration
                && final(self).eq_roles(old(self)) && final(self).eq_limits(old(self))
                && final(self).eq_accounting(old(self)) && final(self).eq_governance(old(self))
                && final(self).eq_queue(old(self)),
    {
        if caller != self.oracle {
            return Err(Error::Unauthorized);
        }
        if timestamp > now {
            return Err(Error::InvalidTimestamp);
        }
        if timestamp <= self.oracle_last_update {
            return Err(Error::InvalidTimestamp);
        }
        self.oracle_last_update = timestamp;
        self.allocations = Some(allocations);
        Ok(())
    }

    /// The transfer a strategy needs to reach its target: positive to move
    /// value from the vault into the strategy, negative to pull value back.
    pub fn calc_rebalance_delta(current: i128, target: i128) -> (r: i128)
        requires
            i128::MIN <= target - current <= i128::MAX,
        ensures
            r == target - current,
    {
        target - current
    }

    /// Moves every allocated strategy toward its target balance through the
    /// port — each transfer sized by `calc_rebalance_delta`'s exact contract
    /// over the live balance reading — then audits the final balances by
    /// `rebalance_audit`'s exact contract.  The vault's own accounting never
    /// changes: value only moves between the vault's token account and the
    /// strategies.  The strategy calls commit as they happen, so a slippage
    /// failure is detected, not rolled back.  Reached through an executed
    /// governance proposal, which is its authorization.
    pub(crate) fn internal_rebalance<S: StrategyTrait>(
        &self,
        port: &mut S,
        max_slippage_bps: u32,
        now: u64,
    ) -> (r: Result<(), Error>)
        requires
            self.wf(),
        ensures
            rebalance_gate(*self, now) matches Err(e) ==> r == Err::<(), Error>(e),
            rebalance_gate(*self, now) matches Ok(_) ==> (r matches Ok(_) || r == Err::<(), Error>(
                Error::SlippageExceeded,
            ) || r == Err::<(), Error>(Error::Overflow)),
            self.version == CURRENT_VERSION ==> ((r == Err::<(), Error>(Error::StaleOracleData))
                <==> oracle_stale(*self, now)),
            rebalance_gate(*self, now) matches Ok(_) && (match self.allocations {
                Some(a) => a@.len() == 0,
                None => false,
            }) ==> r matches Ok(_),
    {
        if self.version != CURRENT_VERSION {
            return Err(Error::VersionMismatch);
        }
        let cutoff = match self.oracle_last_update.checked_add(self.max_staleness) {
            Some(v) => v,
            None => u64::MAX,
        };
        if now > cutoff {
            return Err(Error::StaleOracleData);
        }
        let allocations = match &self.allocations {
            Some(a) => a,
            None => {
                return Err(Error::NotInitialized);
            },
        };
        let n = allocations.len();
        let mut i: usize = 0;
        while i < n
            invariant
                rebalance_gate(*self, now) matches Ok(_),
                self.version == CURRENT_VERSION,
                !oracle_stale(*self, now),
                self.allocations == Some(*allocations),
                n == allocations@.len(),
                i <= n,
            decreases n - i,
        {
            let entry = allocations.at(i);
            let target = entry.1;
            let current = port.balance(entry.0);
            if target > current {
                if target.checked_sub(current).is_none() {
                    return Err(Error::Overflow);
                }
                let diff = Self::calc_rebalance_delta(current, target);
                port.deposit(entry.0, diff);
            } else if target < current {
                if current.checked_sub(target).is_none() {
                    return Err(Error::Overflow);
                }
                let diff = Self::calc_rebalance_delta(target, current);
                port.withdraw(entry.0, diff);
            }
            i = i + 1;
        }
        let mut finals: Vec<i128> = Vec::new();
        let mut j: usize = 0;
        while j < n
            invariant
                rebalance_gate(*self, now) matches Ok(_),
                self.version == CURRENT_VERSION,
                !oracle_stale(*self, now),
                self.allocations == Some(*allocations),
                n == allocations@.len(),
                j <= n,
                finals@.len() == j,
            decreases n - j,
        {
            finals.push(port.balance(allocations.at(j).0));
            j = j + 1;
        }
        rebalance_audit(allocations, &finals, max_slippage_bps)
    }

    /// Rebalances on direct invocation, outside the governance flow.  Either
    /// the admin's or the oracle's authorization suffices; the caller
    /// verifies it and passes the authenticated principal.  Refuses stale
    /// oracle data, accepting an age of exactly the staleness bound.
    pub fn rebalance<S: StrategyTrait>(
        &self,
        caller: Principal,
        port: &mut S,
        max_slippage_bps: u32,
        now: u64,
    ) -> (r: Result<(), Error>)
        requires
            self.wf(),
        ensures
            (r == Err::<(), Error>(Error::Unauthorized)) <==> (caller != self.admin && caller
                != self.oracle),
            (caller == self.admin || caller == self.oracle) ==> {
                &&& (rebalance_gate(*self, now) matches Err(e) ==> r == Err::<(), Error>(e))
                &&& (rebalance_gate(*self, now) matches Ok(_) ==> (r matches Ok(_) || r == Err::<
                    (),
                    Error,
                >(Error::SlippageExceeded) || r == Err::<(), Error>(Error::Overflow)))
                &&& (self.version == CURRENT_VERSION ==> ((r == Err::<(), Error>(
                    Error::StaleOracleData,
                )) <==> oracle_stale(*self, now)))
                &&& (rebalance_gate(*self, now) matches Ok(_) && (match self.allocations {
                    Some(a) => a@.len() == 0,
                    None => false,
                }) ==> r matches Ok(_))
            },
    {
        if caller != self.admin && caller != self.oracle {
            return Err(Error::Unauthorized);
        }
        self.internal_rebalance(port, max_slippage_bps, now)
    }
}

} // verus!
