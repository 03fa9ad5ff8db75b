//! Strategy modules: the port through which the vault reaches them, the
//! registry of their addresses, yield harvesting, and health monitoring.
//! Strategy modules are separately deployed collaborators; the vault holds
//! only their addresses and speaks to them through [`StrategyTrait`], so
//! nothing is promised about what a live strategy call returns — every
//! decision taken on such a result is made by a verified function that takes
//! the result as an argument.

use vstd::prelude::*;

use crate::errors::Error;
use crate::pmap::{map_get, PrincipalMap};
use crate::principal::{contains_principal, distinct_principals, find_principal, Principal};
use crate::state::{VolatilityShield, CURRENT_VERSION};
use crate::types::StrategyHealth;

verus! {

/// The port to deployed strategy modules, keyed by strategy address.  The
/// vault instructs a strategy to take or return base-asset value and reads
/// its live balance; implementations move the actual token value.  Live
/// modules answer however they answer, so no method promises anything about
/// its effect or result.
pub trait StrategyTrait {
    /// Instructs `strategy` to take custody of `amount` base-asset units
    /// moved from the vault.
    fn deposit(&mut self, strategy: Principal, amount: i128)
        requires
            amount > 0,
    ;

    /// Instructs `strategy` to release `amount` base-asset units back to the
    /// vault.
    fn withdraw(&mut self, strategy: Principal, amount: i128)
        requires
            amount > 0,
    ;

    /// Reads `strategy`'s live balance.
    fn balance(&self, strategy: Principal) -> i128;
}

/// A single in-memory strategy, holding nothing but a balance.  It accepts
/// deposits, releases withdrawals, and can have its balance overwritten to
/// stand in for external price movement.
#[derive(Clone, Copy, Debug, PartialEq, Eq, Structural)]
pub struct MockStrategy {
    pub balance: i128,
}

impl MockStrategy {
    pub fn new() -> (r: Self)
        ensures
            r.balance == 0,
    {
        MockStrategy { balance: 0 }
    }

    pub fn balance(&self) -> (r: i128)
        ensures
            r == self.balance,
    {
        self.balance
    }

    pub fn deposit(&mut self, amount: i128)
        requires
            i128::MIN <= old(self).balance + amount <= i128::MAX,
        ensures
            final(self).balance == old(self).balance + amount,
    {
        self.balance = self.balance + amount;
    }

    pub fn withdraw(&mut self, amount: i128)
        requires
            i128::MIN <= old(self).balance - amount <= i128::MAX,
        ensures
            final(self).balance == old(self).balance - amount,
    {
        self.balance = self.balance - amount;
    }

    /// Overwrites the balance outright, standing in for external factors
    /// moving the strategy's value.
    pub fn simulate_price_drift(&mut self, new_balance: i128)
        ensures
            final(self).balance == new_balance,
    {
        self.balance = new_balance;
    }
}

/// A bank of [`MockStrategy`] values keyed by address, implementing the
/// strategy port in memory.  Deposits and withdrawals wrap on overflow
/// rather than fail, since the port promises nothing.
pub struct MockStrategySet {
    strategies: PrincipalMap<MockStrategy>,
}

impl MockStrategySet {
    #[verifier::type_invariant]
    spec fn inv(&self) -> bool {
        self.strategies.wf()
    }

    /// The balance this bank reports for `s`; an unknown address reports
    /// zero.
    pub closed spec fn spec_balance_of(&self, s: Principal) -> int {
        match map_get(self.strategies@, s) {
            Some(m) => m.balance as int,
            None => 0,
        }
    }

    pub fn new() -> (r: Self)
        ensures
            forall|p: Principal| r.spec_balance_of(p) == 0,
    {
        MockStrategySet { strategies: PrincipalMap::new() }
    }

    /// Overwrites one strategy's balance, standing in for external price
    /// movement.
    pub fn set_balance(&mut self, s: Principal, b: i128)
        ensures
            final(self).spec_balance_of(s) == b,
            forall|q: Principal| q != s ==> final(self).spec_balance_of(q) == old(self).spec_balance_of(q),
    {
        proof {
            use_type_invariant(&*self);
        }
        let mut m = PrincipalMap::new();
        core::mem::swap(&mut self.strategies, &mut m);
        m.set(s, MockStrategy { balance: b });
        core::mem::swap(&mut self.strategies, &mut m);
    }

    pub fn balance_of(&self, s: Principal) -> (r: i128)
        ensures
            r == self.spec_balance_of(s),
    {
        proof {
            use_type_invariant(&*self);
        }
        match self.strategies.get(s) {
            Some(m) => m.balance,
            None => 0,
        }
    }
}

impl StrategyTrait for MockStrategySet {
    fn deposit(&mut self, strategy: Principal, amount: i128) {
        proof {
            use_type_invariant(&*self);
        }
        let current = match self.strategies.get(strategy) {
            Some(m) => m.balance,
            None => 0,
        };
        let mut m = PrincipalMap::new();
        core::mem::swap(&mut self.strategies, &mut m);
        m.set(strategy, MockStrategy { balance: current.wrapping_add(amount) });
        core::mem::swap(&mut self.strategies, &mut m);
    }

    fn withdraw(&mut self, strategy: Principal, amount: i128) {
        proof {
            use_type_invariant(&*self);
        }
        let current = match self.strategies.get(strategy) {
            Some(m) => m.balance,
            None => 0,
        };
        let mut m = PrincipalMap::new();
        core::mem::swap(&mut self.strategies, &mut m);
        m.set(strategy, MockStrategy { balance: current.wrapping_sub(amount) });
        core::mem::swap(&mut self.strategies, &mut m);
    }

    fn balance(&self, strategy: Principal) -> i128 {
        self.balance_of(strategy)
    }
}

/// The target balance the oracle assigned to `p`, or zero when no allocation
/// covers it.
pub open spec fn spec_alloc_of(s: VolatilityShield, p: Principal) -> int {
    match s.allocations {
        Some(a) => match map_get(a@, p) {
            Some(v) => v as int,
            None => 0,
        },
        None => 0,
    }
}

/// The health rule: with a positive expectation, a strategy is healthy while
/// its live balance deviates by at most a tenth of the expectation; with no
/// positive expectation, any balance is healthy.
pub open spec fn spec_is_healthy(expected: int, actual: int) -> bool {
    if expected > 0 {
        (if actual >= expected {
            actual - expected
        } else {
            expected - actual
        }) <= expected / 10
    } else {
        true
    }
}

/// Whether the deviation `|actual - expected|` stays in the accounting
/// range.
pub open spec fn deviation_fits(expected: int, actual: int) -> bool {
    !(expected > 0 && actual < expected && expected - actual > i128::MAX)
}

/// The health record stored for `p` after an assessment that read the live
/// balance `actual` at time `now`: a fresh record when the status or balance
/// moved, the previous record (or continued absence) otherwise.
pub open spec fn spec_health_record(
    s: VolatilityShield,
    p: Principal,
    actual: int,
    now: u64,
) -> Option<StrategyHealth> {
    let expected = spec_alloc_of(s, p);
    let healthy = spec_is_healthy(expected, actual);
    let prev = match map_get(s.health@, p) {
        Some(h) => h,
        None => StrategyHealth {
            last_known_balance: expected as i128,
            last_check_timestamp: now,
            is_healthy: true,
        },
    };
    if healthy != prev.is_healthy || actual != prev.last_known_balance as int {
        Some(
            StrategyHealth {
                last_known_balance: actual as i128,
                last_check_timestamp: now,
                is_healthy: healthy,
            },
        )
    } else {
        map_get(s.health@, p)
    }
}

/// The total of a batch of per-strategy balance readings.
pub open spec fn sum_readings(s: Seq<i128>) -> int
    decreases s.len(),
{
    if s.len() == 0 {
        0
    } else {
        sum_readings(s.drop_last()) + s.last()
    }
}

/// Every running prefix of the summation stays in the accounting range.
pub open spec fn prefix_sums_fit(s: Seq<i128>) -> bool {
    forall|k: int|
        0 < k <= s.len() ==> i128::MIN <= #[trigger] sum_readings(s.take(k)) <= i128::MAX
}

/// What `internal_add_strategy` returns, for every state and input.
pub open spec fn add_strategy_result(s: VolatilityShield, strategy: Principal) -> Result<
    (),
    Error,
> {
    if s.version != CURRENT_VERSION {
        Err(Error::VersionMismatch)
    } else if s.strategies@.contains(strategy) {
        Err(Error::AlreadyInitialized)
    } else {
        Ok(())
    }
}

impl VolatilityShield {
    /// Registers a strategy address, rejecting duplicates.  Reached only
    /// through an executed governance proposal, which is its authorization.
    pub(crate) fn internal_add_strategy(&mut self, strategy: Principal) -> (r: Result<(), Error>)
        requires
            old(self).wf(),
        ensures
            final(self).wf(),
            r == add_strategy_result(*old(self), strategy),
            r.is_err() ==> *final(self) == *old(self),
            r.is_ok() ==> final(self).strategies@ == old(self).strategies@.push(strategy)
                && final(self).allocations == old(self).allocations && final(self).health@ == old(self).health@ && final(self).eq_roles(old(self)) && final(self).eq_limits(old(self))
                && final(self).eq_operational(old(self)) && final(self).eq_accounting(old(self))
                && final(self).eq_governance(old(self)) && final(self).eq_queue(old(self)),
    {
        if self.version != CURRENT_VERSION {
            return Err(Error::VersionMismatch);
        }
        if contains_principal(&self.strategies, strategy) {
            return Err(Error::AlreadyInitialized);
        }
        self.strategies.push(strategy);
        proof {
            let s1 = self.strategies@;
            assert forall|i: int, j: int| 0 <= i < j < s1.len() implies s1[i] != s1[j] by {
                if j == s1.len() - 1 {
                    assert(!old(self).strategies@.contains(strategy));
                    assert(old(self).strategies@[i] != strategy);
                }
            }
        }
        Ok(())
    }

    /// Credits the yield a harvest observed: sums the given per-strategy
    /// balance readings, running left to right, and adds a positive total to
    /// the vault's assets without minting shares.  Returns the summed yield;
    /// refuses, with nothing changed, when a running sum or the credited
    /// total would leave the accounting range.
    pub fn credit_yield(&mut self, readings: &Vec<i128>) -> (r: Result<i128, Error>)
        requires
            old(self).wf(),
        ensures
            final(self).wf(),
            r.is_err() ==> *final(self) == *old(self) && r == Err::<i128, Error>(Error::Overflow),
            (r matches Ok(_)) <==> (prefix_sums_fit(readings@) && (sum_readings(readings@) > 0
                ==> old(self).total_assets + sum_readings(readings@) <= i128::MAX)),
            match r {
                Ok(y) => {
                    &&& y == sum_readings(readings@)
                    &&& final(self).total_shares == old(self).total_shares
                    &&& (y > 0 ==> final(self).total_assets == old(self).total_assets + y)
                    &&& (y <= 0 ==> final(self).total_assets == old(self).total_assets)
                    &&& final(self).balances@ == old(self).balances@
                    &&& final(self).eq_roles(old(self))
                    &&& final(self).eq_limits(old(self))
                    &&& final(self).eq_operational(old(self))
                    &&& final(self).eq_strategies(old(self))
                    &&& final(self).eq_governance(old(self))
                    &&& final(self).eq_queue(old(self))
                },
                Err(_) => true,
            },
    {
        let mut total_yield: i128 = 0;
        let mut i: usize = 0;
        while i < readings.len()
            invariant
                *self == *old(self),
                self.wf(),
                i <= readings@.len(),
                total_yield as int == sum_readings(readings@.take(i as int)),
                forall|k: int|
                    0 < k <= i ==> i128::MIN <= #[trigger] sum_readings(readings@.take(k))
                        <= i128::MAX,
            decreases readings@.len() - i,
        {
            proof {
                assert(readings@.take(i + 1).drop_last() =~= readings@.take(i as int));
                assert(readings@.take(i + 1).last() == readings@[i as int]);
            }
            total_yield = match total_yield.checked_add(readings[i]) {
                Some(v) => v,
                None => {
                    proof {
                        assert(!prefix_sums_fit(readings@)) by {
                            assert(!(i128::MIN <= sum_readings(readings@.take(i + 1))
                                <= i128::MAX));
                        }
                    }
                    return Err(Error::Overflow);
                },
            };
            i = i + 1;
        }
        proof {
            assert(readings@.take(readings@.len() as int) == readings@);
            assert(prefix_sums_fit(readings@));
        }
        if total_yield > 0 {
            let new_total = match self.total_assets.checked_add(total_yield) {
                Some(v) => v,
                None => {
                    return Err(Error::Overflow);
                },
            };
            self.total_assets = new_total;
        }
        Ok(total_yield)
    }

    /// Sums every registered strategy's live balance as yield and credits a
    /// positive total to the vault's assets without minting shares, which
    /// raises the share price for all holders.  The summing and crediting
    /// are `credit_yield`'s exact contract over the collected readings.
    /// Admin-only; fails when no strategy is registered; returns the yield
    /// credited.
    pub fn harvest<S: StrategyTrait>(&mut self, caller: Principal, port: &S) -> (r: Result<
        i128,
        Error,
    >)
        requires
            old(self).wf(),
        ensures
            final(self).wf(),
            r.is_err() ==> *final(self) == *old(self),
            (r == Err::<i128, Error>(Error::VersionMismatch)) <==> old(self).version
                != CURRENT_VERSION,
            old(self).version == CURRENT_VERSION ==> ((r == Err::<i128, Error>(Error::Unauthorized))
                <==> caller != old(self).admin),
            old(self).version == CURRENT_VERSION && caller == old(self).admin ==> ((r == Err::<
                i128,
                Error,
            >(Error::NoStrategies)) <==> old(self).strategies@.len() == 0),
            match r {
                Ok(y) => {
                    &&& final(self).total_shares == old(self).total_shares
                    &&& (y > 0 ==> final(self).total_assets == old(self).total_assets + y)
                    &&& (y <= 0 ==> final(self).total_assets == old(self).total_assets)
                    &&& final(self).balances@ == old(self).balances@
                    &&& final(self).eq_roles(old(self))
                    &&& final(self).eq_limits(old(self))
                    &&& final(self).eq_operational(old(self))
                    &&& final(self).eq_strategies(old(self))
                    &&& final(self).eq_governance(old(self))
                    &&& final(self).eq_queue(old(self))
                },
                Err(e) => e == Error::VersionMismatch || e == Error::Unauthorized || e
                    == Error::NoStrategies || e == Error::Overflow,
            },
    {
        if self.version != CURRENT_VERSION {
            return Err(Error::VersionMismatch);
        }
        if caller != self.admin {
            return Err(Error::Unauthorized);
        }
        if self.strategies.len() == 0 {
            return Err(Error::NoStrategies);
        }
        let mut readings: Vec<i128> = Vec::new();
        let mut i: usize = 0;
        while i < self.strategies.len()
            invariant
                *self == *old(self),
                self.wf(),
                self.version == CURRENT_VERSION,
                caller == self.admin,
                self.strategies@.len() > 0,
                i <= self.strategies@.len(),
                readings@.len() == i,
            decreases self.strategies@.len() - i,
        {
            readings.push(port.balance(self.strategies[i]));
            i = i + 1;
        }
        self.credit_yield(&readings)
    }

    /// Flags a registered strategy as unhealthy by hand: its health record is
    /// overwritten with an unhealthy one carrying a zeroed balance, to be
    /// refreshed by the next health check.  Admin-only.
    pub fn flag_strategy(&mut self, caller: Principal, strategy: Principal, now: u64) -> (r: Result<
        (),
        Error,
    >)
        requires
            old(self).wf(),
        ensures
            final(self).wf(),
            r.is_err() ==> *final(self) == *old(self),
            r == (if caller != old(self).admin {
                Err::<(), Error>(Error::Unauthorized)
            } else if !old(self).strategies@.contains(strategy) {
                Err::<(), Error>(Error::NotInitialized)
            } else {
                Ok::<(), Error>(())
            }),
            r.is_ok() ==> map_get(final(self).health@, strategy) == Some(
                (StrategyHealth {
                    last_known_balance: 0,
                    last_check_timestamp: now,
                    is_healthy: false,
                }),
            ) && (forall|q: Principal|
                q != strategy ==> map_get(final(self).health@, q) == map_get(old(self).health@, q))
                && final(self).strategies@ == old(self).strategies@
                && final(self).allocations == old(self).allocations
                && final(self).eq_roles(old(self)) && final(self).eq_limits(old(self))
                && final(self).eq_operational(old(self)) && final(self).eq_accounting(old(self))
                && final(self).eq_governance(old(self)) && final(self).eq_queue(old(self)),
    {
        if caller != self.admin {
            return Err(Error::Unauthorized);
        }
        if !contains_principal(&self.strategies, strategy) {
            return Err(Error::NotInitialized);
        }
        self.health.set(
            strategy,
            StrategyHealth { last_known_balance: 0, last_check_timestamp: now, is_healthy: false },
        );
        Ok(())
    }

    /// Credits assets recovered from a strategy: a positive recalled balance
    /// is added to the vault's asset total, with nothing minted; a
    /// non-positive one changes nothing.  Refuses, with nothing changed,
    /// when the credited total would leave the accounting range.
    pub fn credit_recovered(&mut self, amount: i128) -> (r: Result<(), Error>)
        requires
            old(self).wf(),
        ensures
            final(self).wf(),
            r.is_err() ==> *final(self) == *old(self) && r == Err::<(), Error>(Error::Overflow),
            (r matches Ok(_)) <==> (amount <= 0 || old(self).total_assets + amount <= i128::MAX),
            r.is_ok() ==> (amount > 0 ==> final(self).total_assets == old(self).total_assets
                + amount) && (amount <= 0 ==> *final(self) == *old(self)) && final(self).total_shares == old(self).total_shares && final(self).balances@ == old(self).balances@ && final(self).eq_roles(old(self)) && final(self).eq_limits(old(self))
                && final(self).eq_operational(old(self)) && final(self).eq_strategies(old(self))
                && final(self).eq_governance(old(self)) && final(self).eq_queue(old(self)),
    {
        if amount <= 0 {
            return Ok(());
        }
        match self.total_assets.checked_add(amount) {
            Some(v) => {
                self.total_assets = v;
                Ok(())
            },
            None => Err(Error::Overflow),
        }
    }

    /// Unregisters a strategy: first recalls its whole live balance back to
    /// the vault and credits the recovered amount to the asset total — by
    /// `credit_recovered`'s exact contract over the reported balance — then
    /// removes the address and its health record.  Admin-only.
    pub fn remove_strategy<S: StrategyTrait>(
        &mut self,
        caller: Principal,
        strategy: Principal,
        port: &mut S,
    ) -> (r: Result<(), Error>)
        requires
            old(self).wf(),
        ensures
            final(self).wf(),
            r.is_err() ==> *final(self) == *old(self),
            (r == Err::<(), Error>(Error::Unauthorized)) <==> caller != old(self).admin,
            caller == old(self).admin ==> ((r == Err::<(), Error>(Error::NotInitialized)) <==> !old(self).strategies@.contains(strategy)),
            match r {
                Ok(_) => {
                    &&& caller == old(self).admin
                    &&& old(self).strategies@.contains(strategy)
                    &&& forall|i: int|
                        0 <= i < old(self).strategies@.len() && old(self).strategies@[i] == strategy
                            ==> final(self).strategies@ == old(self).strategies@.remove(i)
                    &&& map_get(final(self).health@, strategy) == None::<StrategyHealth>
                    &&& forall|q: Principal|
                        q != strategy ==> map_get(final(self).health@, q) == map_get(
                            old(self).health@,
                            q,
                        )
                    &&& final(self).allocations == old(self).allocations
                    &&& final(self).total_assets >= old(self).total_assets
                    &&& final(self).total_shares == old(self).total_shares
                    &&& final(self).balances@ == old(self).balances@
                    &&& final(self).eq_roles(old(self))
                    &&& final(self).eq_limits(old(self))
                    &&& final(self).eq_operational(old(self))
                    &&& final(self).eq_governance(old(self))
                    &&& final(self).eq_queue(old(self))
                },
                Err(e) => e == Error::Unauthorized || e == Error::NotInitialized || e
                    == Error::Overflow,
            },
    {
        if caller != self.admin {
            return Err(Error::Unauthorized);
        }
        let index = match find_principal(&self.strategies, strategy) {
            Some(i) => i,
            None => {
                return Err(Error::NotInitialized);
            },
        };
        proof {
            assert(old(self).strategies@.contains(strategy)) by {
                assert(old(self).strategies@[index as int] == strategy);
            }
        }
        let strategy_balance = port.balance(strategy);
        if let Err(e) = self.credit_recovered(strategy_balance) {
            return Err(e);
        }
        if strategy_balance > 0 {
            port.withdraw(strategy, strategy_balance);
        }
        let ghost s0 = self.strategies@;
        self.strategies.remove(index);
        self.health.remove(strategy);
        proof {
            let s1 = self.strategies@;
            assert(s1 == s0.remove(index as int));
            assert forall|a: int, b: int| 0 <= a < b < s1.len() implies s1[a] != s1[b] by {
                let a0 = if a < index as int {
                    a
                } else {
                    a + 1
                };
                let b0 = if b < index as int {
                    b
                } else {
                    b + 1
                };
                assert(s1[a] == s0[a0] && s1[b] == s0[b0]);
            }
            assert forall|i: int|
                0 <= i < s0.len() && s0[i] == strategy implies i == index as int by {
                if i != index as int {
                    assert(s0[i] != s0[index as int]);
                }
            }
        }
        Ok(())
    }

    /// Classifies every registered strategy against its target allocation,
    /// given one live balance reading per strategy in registry order; updates
    /// the stored health records — only where the status or the observed
    /// balance moved — and returns the unhealthy strategies.  Refuses, with
    /// nothing changed, if any deviation would leave the accounting range.
    pub fn assess_strategy_health(&mut self, now: u64, readings: &Vec<(Principal, i128)>) -> (r:
        Result<Vec<Principal>, Error>)
        requires
            old(self).wf(),
            readings@.len() == old(self).strategies@.len(),
            forall|i: int|
                0 <= i < readings@.len() ==> (#[trigger] readings@[i]).0 == old(self).strategies@[i],
        ensures
            final(self).wf(),
            r.is_err() ==> *final(self) == *old(self),
            (r == Err::<Vec<Principal>, Error>(Error::Overflow)) <==> exists|i: int|
                0 <= i < readings@.len() && !deviation_fits(
                    spec_alloc_of(*old(self), old(self).strategies@[i]),
                    (#[trigger] readings@[i]).1 as int,
                ),
            match r {
                Ok(unhealthy) => {
                    &&& forall|i: int|
                        0 <= i < old(self).strategies@.len() ==> map_get(
                            final(self).health@,
                            #[trigger] old(self).strategies@[i],
                        ) == spec_health_record(
                            *old(self),
                            old(self).strategies@[i],
                            readings@[i].1 as int,
                            now,
                        )
                    &&& forall|q: Principal|
                        !old(self).strategies@.contains(q) ==> map_get(final(self).health@, q)
                            == map_get(old(self).health@, q)
                    &&& forall|i: int|
                        0 <= i < old(self).strategies@.len() ==> (unhealthy@.contains(
                            #[trigger] old(self).strategies@[i],
                        ) <==> !spec_is_healthy(
                            spec_alloc_of(*old(self), old(self).strategies@[i]),
                            readings@[i].1 as int,
                        ))
                    &&& forall|q: Principal|
                        unhealthy@.contains(q) ==> old(self).strategies@.contains(q)
                    &&& distinct_principals(unhealthy@)
                    &&& final(self).strategies@ == old(self).strategies@
                    &&& final(self).allocations == old(self).allocations
                    &&& final(self).eq_accounting(old(self))
                    &&& final(self).eq_roles(old(self))
                    &&& final(self).eq_limits(old(self))
                    &&& final(self).eq_operational(old(self))
                    &&& final(self).eq_governance(old(self))
                    &&& final(self).eq_queue(old(self))
                },
                Err(e) => e == Error::Overflow,
            },
    {
        let n = self.strategies.len();
        let mut verdicts: Vec<(bool, i128)> = Vec::new();
        let mut i: usize = 0;
        while i < n
            invariant
                *self == *old(self),
                self.wf(),
                n == self.strategies@.len(),
                readings@.len() == n,
                forall|j: int| 0 <= j < n ==> (#[trigger] readings@[j]).0 == self.strategies@[j],
                i <= n,
                verdicts@.len() == i,
                forall|j: int|
                    0 <= j < i ==> (#[trigger] verdicts@[j]).0 == spec_is_healthy(
                        spec_alloc_of(*old(self), self.strategies@[j]),
                        readings@[j].1 as int,
                    ),
                forall|j: int|
                    0 <= j < i ==> (#[trigger] verdicts@[j]).1 as int == spec_alloc_of(
                        *old(self),
                        self.strategies@[j],
                    ),
                forall|j: int|
                    0 <= j < i ==> deviation_fits(
                        spec_alloc_of(*old(self), self.strategies@[j]),
                        (#[trigger] readings@[j]).1 as int,
                    ),
            decreases n - i,
        {
            let s = self.strategies[i];
            let actual = readings[i].1;
            let expected = match &self.allocations {
                Some(a) => match a.get(s) {
                    Some(v) => v,
                    None => 0,
                },
                None => 0,
            };
            let healthy = if expected > 0 {
                let threshold = expected / 10;
                let deviation = if actual >= expected {
                    actual - expected
                } else {
                    match expected.checked_sub(actual) {
                        Some(d) => d,
                        None => {
                            return Err(Error::Overflow);
                        },
                    }
                };
                deviation <= threshold
            } else {
                true
            };
            verdicts.push((healthy, expected));
            i = i + 1;
        }
        let ghost s_old = *old(self);
        let mut unhealthy: Vec<Principal> = Vec::new();
        let mut k: usize = 0;
        while k < n
            invariant
                self.wf(),
                n == self.strategies@.len(),
                readings@.len() == n,
                verdicts@.len() == n,
                k <= n,
                s_old.strategies@ == self.strategies@,
                s_old.allocations == self.allocations,
                self.eq_accounting(&s_old),
                self.eq_roles(&s_old),
                self.eq_limits(&s_old),
                self.eq_operational(&s_old),
                self.eq_governance(&s_old),
                self.eq_queue(&s_old),
                distinct_principals(self.strategies@),
                forall|j: int| 0 <= j < n ==> (#[trigger] readings@[j]).0 == self.strategies@[j],
                forall|j: int|
                    0 <= j < n ==> (#[trigger] verdicts@[j]).0 == spec_is_healthy(
                        spec_alloc_of(s_old, self.strategies@[j]),
                        readings@[j].1 as int,
                    ),
                forall|j: int|
                    0 <= j < n ==> (#[trigger] verdicts@[j]).1 as int == spec_alloc_of(
                        s_old,
                        self.strategies@[j],
                    ),
                forall|j: int|
                    0 <= j < k ==> map_get(self.health@, #[trigger] self.strategies@[j])
                        == spec_health_record(
                        s_old,
                        self.strategies@[j],
                        readings@[j].1 as int,
                        now,
                    ),
                forall|j: int|
                    k <= j < n ==> map_get(self.health@, #[trigger] self.strategies@[j]) == map_get(
                        s_old.health@,
                        self.strategies@[j],
                    ),
                forall|q: Principal|
                    !self.strategies@.contains(q) ==> map_get(self.health@, q) == map_get(
                        s_old.health@,
                        q,
                    ),
                forall|j: int|
                    0 <= j < k ==> (unhealthy@.contains(#[trigger] self.strategies@[j])
                        <==> !verdicts@[j].0),
                forall|q: Principal|
                    unhealthy@.contains(q) ==> exists|j: int|
                        0 <= j < k && self.strategies@[j] == q,
                distinct_principals(unhealthy@),
            decreases n - k,
        {
            let s = self.strategies[k];
            let actual = readings[k].1;
            let healthy = verdicts[k].0;
            let expected = verdicts[k].1;
            let prev = match self.health.get(s) {
                Some(h) => h,
                None => StrategyHealth {
                    last_known_balance: expected,
                    last_check_timestamp: now,
                    is_healthy: true,
                },
            };
            if healthy != prev.is_healthy || actual != prev.last_known_balance {
                self.health.set(
                    s,
                    StrategyHealth {
                        last_known_balance: actual,
                        last_check_timestamp: now,
                        is_healthy: healthy,
                    },
                );
            }
            proof {
                assert(map_get(self.health@, s) == spec_health_record(
                    s_old,
                    s,
                    actual as int,
                    now,
                ));
                assert forall|j: int|
                    0 <= j < k implies map_get(self.health@, #[trigger] self.strategies@[j])
                    == spec_health_record(
                    s_old,
                    self.strategies@[j],
                    readings@[j].1 as int,
                    now,
                ) by {
                    assert(self.strategies@[j] != s);
                }
                assert(!unhealthy@.contains(s)) by {
                    if unhealthy@.contains(s) {
                        let j = choose|j: int| 0 <= j < k && self.strategies@[j] == s;
                        assert(self.strategies@[j] != self.strategies@[k as int]);
                    }
                }
            }
            let ghost unhealthy0 = unhealthy@;
            if !healthy {
                unhealthy.push(s);
                proof {
                    assert(unhealthy@ == unhealthy0.push(s));
                    assert(unhealthy@.contains(s)) by {
                        assert(unhealthy@[unhealthy0.len() as int] == s);
                    }
                    assert forall|q: Principal|
                        unhealthy0.contains(q) implies unhealthy@.contains(q) by {
                        let j = choose|j: int| 0 <= j < unhealthy0.len() && unhealthy0[j] == q;
                        assert(unhealthy@[j] == q);
                    }
                    assert forall|q: Principal|
                        unhealthy@.contains(q) implies unhealthy0.contains(q) || q == s by {
                        let j = choose|j: int|
                            0 <= j < unhealthy@.len() && unhealthy@[j] == q;
                        if j < unhealthy0.len() {
                            assert(unhealthy0[j] == q);
                        }
                    }
                    assert(exists|j: int| 0 <= j < k + 1 && self.strategies@[j] == s) by {
                        assert(self.strategies@[k as int] == s);
                    }
                    assert forall|a: int, b: int|
                        0 <= a < b < unhealthy@.len() implies unhealthy@[a] != unhealthy@[b] by {
                        if b == unhealthy0.len() {
                            assert(unhealthy0.contains(unhealthy0[a]));
                        }
                    }
                }
            }
            proof {
                assert forall|q: Principal|
                    unhealthy@.contains(q) implies exists|j: int|
                    0 <= j < k + 1 && self.strategies@[j] == q by {
                    let j2 = choose|j2: int| 0 <= j2 < unhealthy@.len() && unhealthy@[j2] == q;
                    if j2 < unhealthy0.len() {
                        assert(unhealthy0[j2] == q);
                        assert(unhealthy0.contains(q));
                        let j = choose|j: int| 0 <= j < k && self.strategies@[j] == q;
                        assert(0 <= j < k + 1 && self.strategies@[j] == q);
                    } else {
                        assert(unhealthy@[j2] == s);
                        assert(self.strategies@[k as int] == q);
                    }
                }
            }
            k = k + 1;
        }
        Ok(unhealthy)
    }

    /// Reads every registered strategy's live balance and hands the readings
    /// to the health assessment.  Admin-only; fails when no strategy is
    /// registered; returns the currently-unhealthy strategies.
    pub fn check_strategy_health<S: StrategyTrait>(
        &mut self,
        caller: Principal,
        now: u64,
        port: &S,
    ) -> (r: Result<Vec<Principal>, Error>)
        requires
            old(self).wf(),
        ensures
            final(self).wf(),
            r.is_err() ==> *final(self) == *old(self),
            (r == Err::<Vec<Principal>, Error>(Error::Unauthorized)) <==> caller != old(self).admin,
            caller == old(self).admin ==> ((r == Err::<Vec<Principal>, Error>(Error::NoStrategies))
                <==> old(self).strategies@.len() == 0),
            match r {
                Ok(unhealthy) => {
                    &&& distinct_principals(unhealthy@)
                    &&& forall|q: Principal|
                        unhealthy@.contains(q) ==> old(self).strategies@.contains(q)
                    &&& forall|q: Principal|
                        !old(self).strategies@.contains(q) ==> map_get(final(self).health@, q)
                            == map_get(old(self).health@, q)
                    &&& final(self).strategies@ == old(self).strategies@
                    &&& final(self).allocations == old(self).allocations
                    &&& final(self).eq_accounting(old(self))
                    &&& final(self).eq_roles(old(self))
                    &&& final(self).eq_limits(old(self))
                    &&& final(self).eq_operational(old(self))
                    &&& final(self).eq_governance(old(self))
                    &&& final(self).eq_queue(old(self))
                },
                Err(e) => e == Error::Unauthorized || e == Error::NoStrategies || e
                    == Error::Overflow,
            },
    {
        if caller != self.admin {
            return Err(Error::Unauthorized);
        }
        if self.strategies.len() == 0 {
            return Err(Error::NoStrategies);
        }
        let n = self.strategies.len();
        let mut readings: Vec<(Principal, i128)> = Vec::new();
        let mut i: usize = 0;
        while i < n
            invariant
                *self == *old(self),
                self.wf(),
                n == self.strategies@.len(),
                i <= n,
                readings@.len() == i,
                forall|j: int| 0 <= j < i ==> (#[trigger] readings@[j]).0 == self.strategies@[j],
            decreases n - i,
        {
            let s = self.strategies[i];
            readings.push((s, port.balance(s)));
            i = i + 1;
        }
        self.assess_strategy_health(now, &readings)
    }
}

} // verus!
