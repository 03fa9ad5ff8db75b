//! The vault state itself: one owned value holding every stored field, with
//! its well-formedness invariant, the one-time constructor, the read
//! accessors, the raw bookkeeping setters and the admin-gated configuration
//! switches (pause, caps, staleness, timelock, versioning).

use vstd::prelude::*;

use crate::errors::Error;
use crate::pmap::{has_key, key_index, keys_distinct, lemma_get_at, map_get, PrincipalMap};
use crate::principal::{distinct_principals, Principal};
use crate::types::{Proposal, QueuedWithdrawal, StrategyHealth};

verus! {

/// The storage layout version this code expects.
pub const CURRENT_VERSION: u32 = 1;

/// The default staleness bound for oracle data, in seconds.
pub const DEFAULT_MAX_STALENESS: u64 = 3600;

/// In a well-formed balance book every stored balance is non-negative.
pub proof fn lemma_balance_nonneg(b: Seq<(Principal, i128)>, u: Principal)
    requires
        keys_distinct(b),
        forall|i: int| 0 <= i < b.len() ==> (#[trigger] b[i]).1 >= 0,
    ensures
        match map_get(b, u) {
            Some(v) => v >= 0,
            None => true,
        },
{
    if has_key(b, u) {
        let j = key_index(b, u);
        lemma_get_at(b, u, j);
    }
}

/// Storing a non-negative value in a balance book whose values were all
/// non-negative leaves them all non-negative.
pub proof fn lemma_balances_nonneg_after_set(
    b0: Seq<(Principal, i128)>,
    b1: Seq<(Principal, i128)>,
    user: Principal,
    amount: i128,
)
    requires
        keys_distinct(b0),
        keys_distinct(b1),
        amount >= 0,
        forall|i: int| 0 <= i < b0.len() ==> (#[trigger] b0[i]).1 >= 0,
        map_get(b1, user) == Some(amount),
        forall|q: Principal| q != user ==> map_get(b1, q) == map_get(b0, q),
    ensures
        forall|i: int| 0 <= i < b1.len() ==> (#[trigger] b1[i]).1 >= 0,
{
    assert forall|i: int| 0 <= i < b1.len() implies (#[trigger] b1[i]).1 >= 0 by {
        let k = b1[i].0;
        let v = b1[i].1;
        lemma_get_at(b1, k, i);
        if k != user {
            assert(map_get(b0, k) == Some(v));
            assert(has_key(b0, k));
            let j = key_index(b0, k);
            assert(0 <= j < b0.len() && b0[j].0 == k);
            lemma_get_at(b0, k, j);
            assert(b0[j].1 >= 0);
        }
    }
}

/// The vault: share/asset accounting, strategy registry, withdrawal queue and
/// guardian governance, as one owned state value.  Every mutating operation
/// either completes or returns an error with the state unchanged; the one
/// exception is rebalancing, whose strategy-module calls cannot be undone.
pub struct VolatilityShield {
    pub admin: Principal,
    pub asset: Principal,
    pub oracle: Principal,
    pub treasury: Principal,
    pub token: Principal,
    pub fee_bps: u32,
    pub total_assets: i128,
    pub total_shares: i128,
    pub paused: bool,
    pub version: u32,
    pub max_deposit_per_user: i128,
    pub max_total_assets: i128,
    pub max_withdraw_per_tx: i128,
    pub oracle_last_update: u64,
    pub max_staleness: u64,
    pub timelock_duration: u64,
    pub withdraw_queue_threshold: i128,
    pub balances: PrincipalMap<i128>,
    pub strategies: Vec<Principal>,
    pub allocations: Option<PrincipalMap<i128>>,
    pub health: PrincipalMap<StrategyHealth>,
    pub guardians: Vec<Principal>,
    pub threshold: u32,
    pub proposals: Vec<Proposal>,
    pub next_proposal_id: u64,
    pub pending_withdrawals: Vec<QueuedWithdrawal>,
}

impl VolatilityShield {
    /// The state invariant.  Totals are never negative; the keyed stores have
    /// distinct keys; the strategy registry and the guardian set are
    /// duplicate-free; the threshold always lies between one and the number
    /// of guardians; proposal ids are distinct, increasing and below the next
    /// id to be handed out; queued withdrawals always ask for a positive
    /// number of shares.
    pub open spec fn wf(&self) -> bool {
        &&& self.total_assets >= 0
        &&& self.total_shares >= 0
        &&& self.balances.wf()
        &&& forall|i: int| 0 <= i < self.balances@.len() ==> (#[trigger] self.balances@[i]).1 >= 0
        &&& distinct_principals(self.strategies@)
        &&& match self.allocations {
            Some(a) => keys_distinct(a@),
            None => true,
        }
        &&& self.health.wf()
        &&& distinct_principals(self.guardians@)
        &&& 1 <= self.threshold <= self.guardians@.len()
        &&& self.withdraw_queue_threshold >= 0
        &&& self.next_proposal_id >= 1
        &&& forall|i: int|
            0 <= i < self.proposals@.len() ==> (#[trigger] self.proposals@[i]).wf()
                && self.proposals@[i].id < self.next_proposal_id
        &&& forall|i: int, j: int|
            0 <= i < j < self.proposals@.len() ==> self.proposals@[i].id < self.proposals@[j].id
        &&& forall|i: int|
            0 <= i < self.pending_withdrawals@.len()
                ==> (#[trigger] self.pending_withdrawals@[i]).shares > 0
    }

    /// The identity and role fields agree between two states.
    pub open spec fn eq_roles(&self, other: &Self) -> bool {
        &&& self.admin == other.admin
        &&& self.asset == other.asset
        &&& self.oracle == other.oracle
        &&& self.treasury == other.treasury
        &&& self.token == other.token
        &&& self.fee_bps == other.fee_bps
    }

    /// The caps and queue threshold agree between two states.
    pub open spec fn eq_limits(&self, other: &Self) -> bool {
        &&& self.max_deposit_per_user == other.max_deposit_per_user
        &&& self.max_total_assets == other.max_total_assets
        &&& self.max_withdraw_per_tx == other.max_withdraw_per_tx
        &&& self.withdraw_queue_threshold == other.withdraw_queue_threshold
    }

    /// Pause switch, version counter and the timing configuration agree.
    pub open spec fn eq_operational(&self, other: &Self) -> bool {
        &&& self.paused == other.paused
        &&& self.version == other.version
        &&& self.oracle_last_update == other.oracle_last_update
        &&& self.max_staleness == other.max_staleness
        &&& self.timelock_duration == other.timelock_duration
    }

    /// Version counter and timing configuration agree (the pause switch may
    /// differ).
    pub open spec fn eq_timing(&self, other: &Self) -> bool {
        &&& self.version == other.version
        &&& self.oracle_last_update == other.oracle_last_update
        &&& self.max_staleness == other.max_staleness
        &&& self.timelock_duration == other.timelock_duration
    }

    /// Totals and per-user balances agree.
    pub open spec fn eq_accounting(&self, other: &Self) -> bool {
        &&& self.total_assets == other.total_assets
        &&& self.total_shares == other.total_shares
        &&& self.balances@ == other.balances@
    }

    /// Strategy registry, target allocations and health records agree.
    pub open spec fn eq_strategies(&self, other: &Self) -> bool {
        &&& self.strategies@ == other.strategies@
        &&& self.allocations == other.allocations
        &&& self.health@ == other.health@
    }

    /// Guardian set, threshold and the proposal book agree.
    pub open spec fn eq_governance(&self, other: &Self) -> bool {
        &&& self.guardians@ == other.guardians@
        &&& self.threshold == other.threshold
        &&& self.proposals@ == other.proposals@
        &&& self.next_proposal_id == other.next_proposal_id
    }

    /// The withdrawal queue agrees.
    pub open spec fn eq_queue(&self, other: &Self) -> bool {
        self.pending_withdrawals@ == other.pending_withdrawals@
    }

    /// Creates the vault, storing the roles and configuration and zeroing the
    /// accounting.  Deployment arranges that this runs exactly once per
    /// vault; the guardian set must be duplicate-free and the threshold must
    /// lie between one and the number of guardians.
    pub fn init(
        admin: Principal,
        asset: Principal,
        oracle: Principal,
        treasury: Principal,
        fee_percentage: u32,
        guardians: Vec<Principal>,
        threshold: u32,
    ) -> (r: Self)
        requires
            distinct_principals(guardians@),
            1 <= threshold <= guardians@.len(),
        ensures
            r.wf(),
            r.admin == admin,
            r.asset == asset,
            r.oracle == oracle,
            r.treasury == treasury,
            r.token == asset,
            r.fee_bps == fee_percentage,
            r.total_assets == 0,
            r.total_shares == 0,
            !r.paused,
            r.version == CURRENT_VERSION,
            r.max_deposit_per_user == i128::MAX,
            r.max_total_assets == i128::MAX,
            r.max_withdraw_per_tx == i128::MAX,
            r.oracle_last_update == 0,
            r.max_staleness == DEFAULT_MAX_STALENESS,
            r.timelock_duration == 0,
            r.withdraw_queue_threshold == i128::MAX,
            r.balances@.len() == 0,
            r.strategies@.len() == 0,
            r.allocations is None,
            r.health@.len() == 0,
            r.guardians@ == guardians@,
            r.threshold == threshold,
            r.proposals@.len() == 0,
            r.next_proposal_id == 1,
            r.pending_withdrawals@.len() == 0,
    {
        VolatilityShield {
            admin,
            asset,
            oracle,
            treasury,
            token: asset,
            fee_bps: fee_percentage,
            total_assets: 0,
            total_shares: 0,
            paused: false,
            version: CURRENT_VERSION,
            max_deposit_per_user: i128::MAX,
            max_total_assets: i128::MAX,
            max_withdraw_per_tx: i128::MAX,
            oracle_last_update: 0,
            max_staleness: DEFAULT_MAX_STALENESS,
            timelock_duration: 0,
            withdraw_queue_threshold: i128::MAX,
            balances: PrincipalMap::new(),
            strategies: Vec::new(),
            allocations: None,
            health: PrincipalMap::new(),
            guardians,
            threshold,
            proposals: Vec::new(),
            next_proposal_id: 1,
            pending_withdrawals: Vec::new(),
        }
    }

    // ── Read accessors ────────────────────────

    pub fn read_admin(&self) -> (r: Principal)
        ensures
            r == self.admin,
    {
        self.admin
    }

    pub fn get_oracle(&self) -> (r: Principal)
        ensures
            r == self.oracle,
    {
        self.oracle
    }

    pub fn get_asset(&self) -> (r: Principal)
        ensures
            r == self.asset,
    {
        self.asset
    }

    pub fn treasury(&self) -> (r: Principal)
        ensures
            r == self.treasury,
    {
        self.treasury
    }

    pub fn fee_percentage(&self) -> (r: u32)
        ensures
            r == self.fee_bps,
    {
        self.fee_bps
    }

    pub fn total_assets(&self) -> (r: i128)
        ensures
            r == self.total_assets,
    {
        self.total_assets
    }

    pub fn total_shares(&self) -> (r: i128)
        ensures
            r == self.total_shares,
    {
        self.total_shares
    }

    /// A user's share balance; a user with no record holds zero shares.
    pub fn balance(&self, user: Principal) -> (r: i128)
        requires
            self.wf(),
        ensures
            r == self.spec_balance(user),
    {
        match self.balances.get(user) {
            Some(b) => b,
            None => 0,
        }
    }

    /// A user's share balance, defaulting to zero.
    pub open spec fn spec_balance(&self, user: Principal) -> int {
        match map_get(self.balances@, user) {
            Some(b) => b as int,
            None => 0,
        }
    }

    pub fn get_strategies(&self) -> (r: Vec<Principal>)
        ensures
            r@ == self.strategies@,
    {
        let mut out: Vec<Principal> = Vec::new();
        let mut i: usize = 0;
        while i < self.strategies.len()
            invariant
                i <= self.strategies@.len(),
                out@ == self.strategies@.take(i as int),
            decreases self.strategies@.len() - i,
        {
            out.push(self.strategies[i]);
            proof {
                assert(out@ == self.strategies@.take(i + 1));
            }
            i = i + 1;
        }
        proof {
            assert(out@ == self.strategies@.take(self.strategies@.len() as int));
            assert(self.strategies@.take(self.strategies@.len() as int) == self.strategies@);
        }
        out
    }

    pub fn get_guardians(&self) -> (r: Vec<Principal>)
        ensures
            r@ == self.guardians@,
    {
        let mut out: Vec<Principal> = Vec::new();
        let mut i: usize = 0;
        while i < self.guardians.len()
            invariant
                i <= self.guardians@.len(),
                out@ == self.guardians@.take(i as int),
            decreases self.guardians@.len() - i,
        {
            out.push(self.guardians[i]);
            proof {
                assert(out@ == self.guardians@.take(i + 1));
            }
            i = i + 1;
        }
        proof {
            assert(out@ == self.guardians@.take(self.guardians@.len() as int));
            assert(self.guardians@.take(self.guardians@.len() as int) == self.guardians@);
        }
        out
    }

    pub fn get_threshold(&self) -> (r: u32)
        ensures
            r == self.threshold,
    {
        self.threshold
    }

    pub fn get_withdraw_queue_threshold(&self) -> (r: i128)
        ensures
            r == self.withdraw_queue_threshold,
    {
        self.withdraw_queue_threshold
    }

    pub fn get_pending_withdrawals(&self) -> (r: Vec<QueuedWithdrawal>)
        ensures
            r@ == self.pending_withdrawals@,
    {
        let mut out: Vec<QueuedWithdrawal> = Vec::new();
        let mut i: usize = 0;
        while i < self.pending_withdrawals.len()
            invariant
                i <= self.pending_withdrawals@.len(),
                out@ == self.pending_withdrawals@.take(i as int),
            decreases self.pending_withdrawals@.len() - i,
        {
            out.push(self.pending_withdrawals[i]);
            proof {
                assert(out@ == self.pending_withdrawals@.take(i + 1));
            }
            i = i + 1;
        }
        proof {
            assert(out@ == self.pending_withdrawals@.take(self.pending_withdrawals@.len() as int));
            assert(self.pending_withdrawals@.take(self.pending_withdrawals@.len() as int)
                == self.pending_withdrawals@);
        }
        out
    }

    pub fn get_strategy_health(&self, strategy: Principal) -> (r: Option<StrategyHealth>)
        requires
            self.wf(),
        ensures
            r == map_get(self.health@, strategy),
    {
        self.health.get(strategy)
    }

    pub fn max_staleness(&self) -> (r: u64)
        ensures
            r == self.max_staleness,
    {
        self.max_staleness
    }

    pub fn version(&self) -> (r: u32)
        ensures
            r == self.version,
    {
        self.version
    }

    pub fn is_paused(&self) -> (r: bool)
        ensures
            r == self.paused,
    {
        self.paused
    }

    // ── Versioning ────────────────────────────

    /// Refuses to proceed unless the stored layout version is the expected
    /// one.
    pub fn check_version(&self, expected_version: u32) -> (r: Result<(), Error>)
        ensures
            r == (if self.version == expected_version {
                Ok::<(), Error>(())
            } else {
                Err::<(), Error>(Error::VersionMismatch)
            }),
    {
        if self.version == expected_version {
            Ok(())
        } else {
            Err(Error::VersionMismatch)
        }
    }

    /// Raises the layout version.  Admin-only; the new version must be
    /// strictly greater than the current one.  Version-pair-specific layout
    /// transformations belong here; none are needed for the current layout.
    pub fn migrate(&mut self, caller: Principal, new_version: u32) -> (r: Result<(), Error>)
        requires
            old(self).wf(),
        ensures
            final(self).wf(),
            r == (if caller != old(self).admin {
                Err::<(), Error>(Error::Unauthorized)
            } else if new_version <= old(self).version {
                Err::<(), Error>(Error::VersionMismatch)
            } else {
                Ok::<(), Error>(())
            }),
            r.is_err() ==> *final(self) == *old(self),
            r.is_ok() ==> final(self).version == new_version,
            r.is_ok() ==> final(self).eq_roles(old(self)) && final(self).eq_limits(old(self))
                && final(self).eq_accounting(old(self)) && final(self).eq_strategies(old(self))
                && final(self).eq_governance(old(self)) && final(self).eq_queue(old(self))
                && final(self).paused == old(self).paused
                && final(self).oracle_last_update == old(self).oracle_last_update
                && final(self).max_staleness == old(self).max_staleness
                && final(self).timelock_duration == old(self).timelock_duration,
    {
        if caller != self.admin {
            return Err(Error::Unauthorized);
        }
        if new_version <= self.version {
            return Err(Error::VersionMismatch);
        }
        self.version = new_version;
        Ok(())
    }

    // ── Emergency pause ───────────────────────

    /// Turns the global pause switch on or off.  Admin-only.
    pub fn set_paused(&mut self, caller: Principal, state: bool) -> (r: Result<(), Error>)
        requires
            old(self).wf(),
        ensures
            final(self).wf(),
            r == (if caller == old(self).admin {
                Ok::<(), Error>(())
            } else {
                Err::<(), Error>(Error::Unauthorized)
            }),
            r.is_err() ==> *final(self) == *old(self),
            r.is_ok() ==> final(self).paused == state,
            r.is_ok() ==> final(self).eq_roles(old(self)) && final(self).eq_limits(old(self))
                && final(self).eq_accounting(old(self)) && final(self).eq_strategies(old(self))
                && final(self).eq_governance(old(self)) && final(self).eq_queue(old(self))
                && final(self).version == old(self).version
                && final(self).oracle_last_update == old(self).oracle_last_update
                && final(self).max_staleness == old(self).max_staleness
                && final(self).timelock_duration == old(self).timelock_duration,
    {
        if caller != self.admin {
            return Err(Error::Unauthorized);
        }
        self.paused = state;
        Ok(())
    }

    // ── Caps and limits ───────────────────────

    /// Sets the per-user and global deposit caps.  Admin-only; refuses on a
    /// layout-version mismatch.
    pub fn set_deposit_cap(&mut self, caller: Principal, per_user: i128, global: i128) -> (r:
        Result<(), Error>)
        requires
            old(self).wf(),
        ensures
            final(self).wf(),
            r == (if old(self).version != CURRENT_VERSION {
                Err::<(), Error>(Error::VersionMismatch)
            } else if caller != old(self).admin {
                Err::<(), Error>(Error::Unauthorized)
            } else {
                Ok::<(), Error>(())
            }),
            r.is_err() ==> *final(self) == *old(self),
            r.is_ok() ==> final(self).max_deposit_per_user == per_user
                && final(self).max_total_assets == global
                && final(self).max_withdraw_per_tx == old(self).max_withdraw_per_tx
                && final(self).withdraw_queue_threshold == old(self).withdraw_queue_threshold
                && final(self).eq_roles(old(self)) && final(self).eq_operational(old(self))
                && final(self).eq_accounting(old(self)) && final(self).eq_strategies(old(self))
                && final(self).eq_governance(old(self)) && final(self).eq_queue(old(self)),
    {
        if self.version != CURRENT_VERSION {
            return Err(Error::VersionMismatch);
        }
        if caller != self.admin {
            return Err(Error::Unauthorized);
        }
        self.max_deposit_per_user = per_user;
        self.max_total_assets = global;
        Ok(())
    }

    /// Sets the per-transaction withdrawal cap.  Admin-only.
    pub fn set_withdraw_cap(&mut self, caller: Principal, per_tx: i128) -> (r: Result<(), Error>)
        requires
            old(self).wf(),
        ensures
            final(self).wf(),
            r == (if caller == old(self).admin {
                Ok::<(), Error>(())
            } else {
                Err::<(), Error>(Error::Unauthorized)
            }),
            r.is_err() ==> *final(self) == *old(self),
            r.is_ok() ==> final(self).max_withdraw_per_tx == per_tx
                && final(self).max_deposit_per_user == old(self).max_deposit_per_user
                && final(self).max_total_assets == old(self).max_total_assets
                && final(self).withdraw_queue_threshold == old(self).withdraw_queue_threshold
                && final(self).eq_roles(old(self)) && final(self).eq_operational(old(self))
                && final(self).eq_accounting(old(self)) && final(self).eq_strategies(old(self))
                && final(self).eq_governance(old(self)) && final(self).eq_queue(old(self)),
    {
        if caller != self.admin {
            return Err(Error::Unauthorized);
        }
        self.max_withdraw_per_tx = per_tx;
        Ok(())
    }

    /// Sets the staleness bound on oracle data.  Admin-only.
    pub fn set_max_staleness(&mut self, caller: Principal, seconds: u64) -> (r: Result<(), Error>)
        requires
            old(self).wf(),
        ensures
            final(self).wf(),
            r == (if caller == old(self).admin {
                Ok::<(), Error>(())
            } else {
                Err::<(), Error>(Error::Unauthorized)
            }),
            r.is_err() ==> *final(self) == *old(self),
            r.is_ok() ==> final(self).max_staleness == seconds
                && final(self).eq_roles(old(self)) && final(self).eq_limits(old(self))
                && final(self).eq_accounting(old(self)) && final(self).eq_strategies(old(self))
                && final(self).eq_governance(old(self)) && final(self).eq_queue(old(self))
                && final(self).paused == old(self).paused
                && final(self).version == old(self).version
                && final(self).oracle_last_update == old(self).oracle_last_update
                && final(self).timelock_duration == old(self).timelock_duration,
    {
        if caller != self.admin {
            return Err(Error::Unauthorized);
        }
        self.max_staleness = seconds;
        Ok(())
    }

    /// Sets the mandatory delay between a proposal reaching its approval
    /// threshold and its execution.  Admin-only.
    pub fn set_timelock_duration(&mut self, caller: Principal, duration: u64) -> (r: Result<
        (),
        Error,
    >)
        requires
            old(self).wf(),
        ensures
            final(self).wf(),
            r == (if caller == old(self).admin {
                Ok::<(), Error>(())
            } else {
                Err::<(), Error>(Error::Unauthorized)
            }),
            r.is_err() ==> *final(self) == *old(self),
            r.is_ok() ==> final(self).timelock_duration == duration
                && final(self).eq_roles(old(self)) && final(self).eq_limits(old(self))
                && final(self).eq_accounting(old(self)) && final(self).eq_strategies(old(self))
                && final(self).eq_governance(old(self)) && final(self).eq_queue(old(self))
                && final(self).paused == old(self).paused
                && final(self).version == old(self).version
                && final(self).oracle_last_update == old(self).oracle_last_update
                && final(self).max_staleness == old(self).max_staleness,
    {
        if caller != self.admin {
            return Err(Error::Unauthorized);
        }
        self.timelock_duration = duration;
        Ok(())
    }

    /// Sets the asset-value threshold above which a withdrawal is queued
    /// rather than settled immediately.  Admin-only; the threshold must not
    /// be negative.
    pub fn set_withdraw_queue_threshold(&mut self, caller: Principal, threshold: i128) -> (r:
        Result<(), Error>)
        requires
            old(self).wf(),
        ensures
            final(self).wf(),
            r == (if caller != old(self).admin {
                Err::<(), Error>(Error::Unauthorized)
            } else if threshold < 0 {
                Err::<(), Error>(Error::NegativeAmount)
            } else {
                Ok::<(), Error>(())
            }),
            r.is_err() ==> *final(self) == *old(self),
            r.is_ok() ==> final(self).withdraw_queue_threshold == threshold
                && final(self).max_deposit_per_user == old(self).max_deposit_per_user
                && final(self).max_total_assets == old(self).max_total_assets
                && final(self).max_withdraw_per_tx == old(self).max_withdraw_per_tx
                && final(self).eq_roles(old(self)) && final(self).eq_operational(old(self))
                && final(self).eq_accounting(old(self)) && final(self).eq_strategies(old(self))
                && final(self).eq_governance(old(self)) && final(self).eq_queue(old(self)),
    {
        if caller != self.admin {
            return Err(Error::Unauthorized);
        }
        if threshold < 0 {
            return Err(Error::NegativeAmount);
        }
        self.withdraw_queue_threshold = threshold;
        Ok(())
    }

    // ── Raw bookkeeping setters ───────────────

    /// Overwrites the asset total.  A raw bookkeeping hook with no
    /// authorization gate; the total must not be negative.
    pub fn set_total_assets(&mut self, amount: i128) -> (r: Result<(), Error>)
        requires
            old(self).wf(),
        ensures
            final(self).wf(),
            r == (if amount >= 0 {
                Ok::<(), Error>(())
            } else {
                Err::<(), Error>(Error::NegativeAmount)
            }),
            r.is_err() ==> *final(self) == *old(self),
            r.is_ok() ==> final(self).total_assets == amount
                && final(self).total_shares == old(self).total_shares
                && final(self).balances@ == old(self).balances@
                && final(self).eq_roles(old(self)) && final(self).eq_limits(old(self))
                && final(self).eq_operational(old(self)) && final(self).eq_strategies(old(self))
                && final(self).eq_governance(old(self)) && final(self).eq_queue(old(self)),
    {
        if amount < 0 {
            return Err(Error::NegativeAmount);
        }
        self.total_assets = amount;
        Ok(())
    }

    /// Overwrites the share total.  A raw bookkeeping hook with no
    /// authorization gate; the total must not be negative.
    pub fn set_total_shares(&mut self, amount: i128) -> (r: Result<(), Error>)
        requires
            old(self).wf(),
        ensures
            final(self).wf(),
            r == (if amount >= 0 {
                Ok::<(), Error>(())
            } else {
                Err::<(), Error>(Error::NegativeAmount)
            }),
            r.is_err() ==> *final(self) == *old(self),
            r.is_ok() ==> final(self).total_shares == amount
                && final(self).total_assets == old(self).total_assets
                && final(self).balances@ == old(self).balances@
                && final(self).eq_roles(old(self)) && final(self).eq_limits(old(self))
                && final(self).eq_operational(old(self)) && final(self).eq_strategies(old(self))
                && final(self).eq_governance(old(self)) && final(self).eq_queue(old(self)),
    {
        if amount < 0 {
            return Err(Error::NegativeAmount);
        }
        self.total_shares = amount;
        Ok(())
    }

    /// Overwrites one user's share balance.  A raw bookkeeping hook with no
    /// authorization gate; a share balance is never negative.
    pub fn set_balance(&mut self, user: Principal, amount: i128) -> (r: Result<(), Error>)
        requires
            old(self).wf(),
        ensures
            final(self).wf(),
            r == (if amount >= 0 {
                Ok::<(), Error>(())
            } else {
                Err::<(), Error>(Error::NegativeAmount)
            }),
            r.is_err() ==> *final(self) == *old(self),
            r.is_ok() ==> final(self).spec_balance(user) == amount && (forall|q: Principal|
                q != user ==> final(self).spec_balance(q) == old(self).spec_balance(q)) && final(self).total_assets == old(self).total_assets && final(self).total_shares == old(self).total_shares && final(self).eq_roles(old(self)) && final(self).eq_limits(old(self))
                && final(self).eq_operational(old(self)) && final(self).eq_strategies(old(self))
                && final(self).eq_governance(old(self)) && final(self).eq_queue(old(self)),
    {
        if amount < 0 {
            return Err(Error::NegativeAmount);
        }
        let ghost b0 = self.balances@;
        self.balances.set(user, amount);
        proof {
            lemma_balances_nonneg_after_set(b0, self.balances@, user, amount);
        }
        Ok(())
    }

    /// Overwrites the token address used for settlement transfers.  A raw
    /// bookkeeping hook with no authorization gate.
    pub fn set_token(&mut self, token: Principal)
        requires
            old(self).wf(),
        ensures
            final(self).wf(),
            final(self).token == token,
            final(self).admin == old(self).admin,
            final(self).asset == old(self).asset,
            final(self).oracle == old(self).oracle,
            final(self).treasury == old(self).treasury,
            final(self).fee_bps == old(self).fee_bps,
            final(self).eq_limits(old(self)),
            final(self).eq_operational(old(self)),
            final(self).eq_accounting(old(self)),
            final(self).eq_strategies(old(self)),
            final(self).eq_governance(old(self)),
            final(self).eq_queue(old(self)),
    {
        self.token = token;
    }
}

} // verus!
