//! The guardian multisig: guardian-set management, the timelock rule, and the
//! dispatch of approved actions.  Privileged mutations — pausing, registering
//! a strategy, rebalancing — are reached through proposals that guardians
//! approve up to a threshold and that execute only once the timelock since
//! their creation has elapsed.

use vstd::prelude::*;

use crate::errors::Error;
use crate::principal::{contains_principal, copy_principals, find_principal, Principal};
use crate::rebalance::rebalance_gate;
use crate::state::VolatilityShield;
use crate::strategy::{add_strategy_result, StrategyTrait};
use crate::types::{ActionType, Proposal};

verus! {

/// Whether the timelock allows executing, at time `now`, a proposal created
/// at `proposed_at`.  A zero duration disables the timelock; a clock reading
/// earlier than the proposal counts as no elapsed time.
pub open spec fn timelock_ok(s: VolatilityShield, proposed_at: u64, now: u64) -> bool {
    s.timelock_duration == 0 || (now >= proposed_at && now - proposed_at
        >= s.timelock_duration)
}

/// Some proposal carries the given id.
pub open spec fn has_proposal(s: Seq<Proposal>, id: u64) -> bool {
    exists|i: int| 0 <= i < s.len() && s[i].id == id
}

/// The proposal book of `s1` is that of `s0` with the entry at `i` rewritten:
/// same id, proposer, action and creation time, with the given approvals and
/// executed flag.
pub open spec fn proposal_updated(
    s0: VolatilityShield,
    s1: VolatilityShield,
    i: int,
    approvals: Seq<Principal>,
    executed: bool,
) -> bool {
    &&& s1.proposals@.len() == s0.proposals@.len()
    &&& forall|j: int|
        0 <= j < s0.proposals@.len() && j != i ==> s1.proposals@[j] == s0.proposals@[j]
    &&& s1.proposals@[i].id == s0.proposals@[i].id
    &&& s1.proposals@[i].proposer == s0.proposals@[i].proposer
    &&& s1.proposals@[i].action == s0.proposals@[i].action
    &&& s1.proposals@[i].proposed_at == s0.proposals@[i].proposed_at
    &&& s1.proposals@[i].approvals@ == approvals
    &&& s1.proposals@[i].executed == executed
}

/// Everything outside the proposal book agrees between the two states.
pub open spec fn only_proposals_changed(s0: VolatilityShield, s1: VolatilityShield) -> bool {
    &&& s1.guardians@ == s0.guardians@
    &&& s1.threshold == s0.threshold
    &&& s1.next_proposal_id == s0.next_proposal_id
    &&& s1.eq_roles(&s0)
    &&& s1.eq_limits(&s0)
    &&& s1.eq_operational(&s0)
    &&& s1.eq_accounting(&s0)
    &&& s1.eq_strategies(&s0)
    &&& s1.eq_queue(&s0)
}

/// Everything outside the proposal book and the pause switch agrees.
pub open spec fn only_proposals_and_pause_changed(s0: VolatilityShield, s1: VolatilityShield) -> bool {
    &&& s1.guardians@ == s0.guardians@
    &&& s1.threshold == s0.threshold
    &&& s1.next_proposal_id == s0.next_proposal_id
    &&& s1.eq_roles(&s0)
    &&& s1.eq_limits(&s0)
    &&& s1.eq_timing(&s0)
    &&& s1.eq_accounting(&s0)
    &&& s1.eq_strategies(&s0)
    &&& s1.eq_queue(&s0)
}

/// Everything outside the proposal book and the strategy registry agrees.
pub open spec fn only_proposals_and_registry_changed(
    s0: VolatilityShield,
    s1: VolatilityShield,
) -> bool {
    &&& s1.guardians@ == s0.guardians@
    &&& s1.threshold == s0.threshold
    &&& s1.next_proposal_id == s0.next_proposal_id
    &&& s1.eq_roles(&s0)
    &&& s1.eq_limits(&s0)
    &&& s1.eq_operational(&s0)
    &&& s1.eq_accounting(&s0)
    &&& s1.allocations == s0.allocations
    &&& s1.health@ == s0.health@
    &&& s1.eq_queue(&s0)
}

/// What one approval does to the proposal at position `i` and to the rest of
/// the state, for a guardian whose membership was already checked.
pub open spec fn approve_outcome(
    s0: VolatilityShield,
    s1: VolatilityShield,
    r: Result<(), Error>,
    guardian: Principal,
    i: int,
    now: u64,
) -> bool {
    let p = s0.proposals@[i];
    let grown = p.approvals@.push(guardian);
    if p.executed {
        r == Err::<(), Error>(Error::ProposalExecuted) && s1 == s0
    } else if p.approvals@.contains(guardian) {
        r == Err::<(), Error>(Error::AlreadyApproved) && s1 == s0
    } else if grown.len() < s0.threshold {
        r == Ok::<(), Error>(()) && proposal_updated(s0, s1, i, grown, false)
            && only_proposals_changed(s0, s1)
    } else if !timelock_ok(s0, p.proposed_at, now) {
        r == Err::<(), Error>(Error::TimelockNotElapsed) && proposal_updated(s0, s1, i, grown, false)
            && only_proposals_changed(s0, s1)
    } else {
        match p.action {
            ActionType::SetPaused(b) => r == Ok::<(), Error>(()) && proposal_updated(
                s0,
                s1,
                i,
                grown,
                true,
            ) && s1.paused == b && only_proposals_and_pause_changed(s0, s1),
            ActionType::AddStrategy(q) => {
                &&& (add_strategy_result(s0, q) == Ok::<(), Error>(()) ==> r == Ok::<(), Error>(())
                    && proposal_updated(s0, s1, i, grown, true) && s1.strategies@
                    == s0.strategies@.push(q) && only_proposals_and_registry_changed(s0, s1))
                &&& (add_strategy_result(s0, q) matches Err(e) ==> r == Err::<(), Error>(e) && s1
                    == s0)
            },
            ActionType::Rebalance(_) => {
                &&& (rebalance_gate(s0, now) matches Err(e) ==> r == Err::<(), Error>(e) && s1
                    == s0)
                &&& (rebalance_gate(s0, now) matches Ok(_) ==> ((r == Ok::<(), Error>(())
                    && proposal_updated(s0, s1, i, grown, true) && only_proposals_changed(s0, s1))
                    || ((r == Err::<(), Error>(Error::SlippageExceeded) || r == Err::<(), Error>(
                    Error::Overflow,
                )) && s1 == s0)))
            },
        }
    }
}

impl VolatilityShield {
    /// Adds a guardian; adding one who already serves changes nothing.
    /// Admin-only.
    pub fn add_guardian(&mut self, caller: Principal, guardian: Principal) -> (r: Result<
        (),
        Error,
    >)
        requires
            old(self).wf(),
        ensures
            final(self).wf(),
            r == (if caller == old(self).admin {
                Ok::<(), Error>(())
            } else {
                Err::<(), Error>(Error::Unauthorized)
            }),
            r.is_err() ==> *final(self) == *old(self),
            r.is_ok() && old(self).guardians@.contains(guardian) ==> *final(self) == *old(self),
            r.is_ok() && !old(self).guardians@.contains(guardian) ==> final(self).guardians@ == old(self).guardians@.push(guardian) && final(self).threshold == old(self).threshold && final(self).proposals@ == old(self).proposals@ && final(self).next_proposal_id == old(self).next_proposal_id && final(self).eq_roles(old(self)) && final(self).eq_limits(
                old(self),
            ) && final(self).eq_operational(old(self)) && final(self).eq_accounting(old(self))
                && final(self).eq_strategies(old(self)) && final(self).eq_queue(old(self)),
    {
        if caller != self.admin {
            return Err(Error::Unauthorized);
        }
        if contains_principal(&self.guardians, guardian) {
            return Ok(());
        }
        self.guardians.push(guardian);
        proof {
            let g1 = self.guardians@;
            assert forall|i: int, j: int| 0 <= i < j < g1.len() implies g1[i] != g1[j] by {
                if j == g1.len() - 1 {
                    assert(old(self).guardians@[i] != guardian);
                }
            }
        }
        Ok(())
    }

    /// Removes a guardian.  Admin-only; refuses an unknown guardian, and
    /// refuses a removal that would leave fewer guardians than the approval
    /// threshold requires.
    pub fn remove_guardian(&mut self, caller: Principal, guardian: Principal) -> (r: Result<
        (),
        Error,
    >)
        requires
            old(self).wf(),
        ensures
            final(self).wf(),
            r.is_err() ==> *final(self) == *old(self),
            r == (if caller != old(self).admin {
                Err::<(), Error>(Error::Unauthorized)
            } else if !old(self).guardians@.contains(guardian) {
                Err::<(), Error>(Error::Unauthorized)
            } else if old(self).threshold > old(self).guardians@.len() - 1 {
                Err::<(), Error>(Error::Unauthorized)
            } else {
                Ok::<(), Error>(())
            }),
            r.is_ok() ==> (forall|i: int|
                0 <= i < old(self).guardians@.len() && old(self).guardians@[i] == guardian
                    ==> final(self).guardians@ == old(self).guardians@.remove(i)) && final(self).threshold == old(self).threshold && final(self).proposals@ == old(self).proposals@
                && final(self).next_proposal_id == old(self).next_proposal_id && final(self).eq_roles(old(self)) && final(self).eq_limits(old(self)) && final(self).eq_operational(old(self)) && final(self).eq_accounting(old(self)) && final(self).eq_strategies(old(self)) && final(self).eq_queue(old(self)),
    {
        if caller != self.admin {
            return Err(Error::Unauthorized);
        }
        let index = match find_principal(&self.guardians, guardian) {
            Some(i) => i,
            None => {
                return Err(Error::Unauthorized);
            },
        };
        if self.threshold as usize > self.guardians.len() - 1 {
            return Err(Error::Unauthorized);
        }
        let ghost g0 = self.guardians@;
        self.guardians.remove(index);
        proof {
            let g1 = self.guardians@;
            assert(g1 == g0.remove(index as int));
            assert forall|a: int, b: int| 0 <= a < b < g1.len() implies g1[a] != g1[b] by {
                let a0 = if a < index as int {
                    a
                } else {
                    a + 1
                };
                let b0 = if b < index as int {
                    b
                } else {
                    b + 1
                };
                assert(g1[a] == g0[a0] && g1[b] == g0[b0]);
            }
            assert forall|i: int| 0 <= i < g0.len() && g0[i] == guardian implies i == index as int by {
                if i != index as int {
                    assert(g0[i] != g0[index as int]);
                }
            }
            assert(g0.contains(guardian)) by {
                assert(g0[index as int] == guardian);
            }
        }
        Ok(())
    }

    /// Sets the approval threshold, which must lie between one and the number
    /// of guardians.  Admin-only.
    pub fn set_threshold(&mut self, caller: Principal, threshold: u32) -> (r: Result<(), Error>)
        requires
            old(self).wf(),
        ensures
            final(self).wf(),
            r.is_err() ==> *final(self) == *old(self),
            r == (if caller != old(self).admin {
                Err::<(), Error>(Error::Unauthorized)
            } else if threshold == 0 || threshold > old(self).guardians@.len() {
                Err::<(), Error>(Error::Unauthorized)
            } else {
                Ok::<(), Error>(())
            }),
            r.is_ok() ==> final(self).threshold == threshold && final(self).guardians@ == old(self).guardians@ && final(self).proposals@ == old(self).proposals@ && final(self).next_proposal_id == old(self).next_proposal_id && final(self).eq_roles(old(self))
                && final(self).eq_limits(old(self)) && final(self).eq_operational(old(self))
                && final(self).eq_accounting(old(self)) && final(self).eq_strategies(old(self))
                && final(self).eq_queue(old(self)),
    {
        if caller != self.admin {
            return Err(Error::Unauthorized);
        }
        if threshold == 0 || (threshold as usize) > self.guardians.len() {
            return Err(Error::Unauthorized);
        }
        self.threshold = threshold;
        Ok(())
    }

    /// Whether the timelock since `proposed_at` has elapsed at `now`.
    fn assert_timelock_elapsed(&self, proposed_at: u64, now: u64) -> (r: Result<(), Error>)
        ensures
            r == (if timelock_ok(*self, proposed_at, now) {
                Ok::<(), Error>(())
            } else {
                Err::<(), Error>(Error::TimelockNotElapsed)
            }),
    {
        if self.timelock_duration == 0 {
            return Ok(());
        }
        let elapsed = if now >= proposed_at {
            now - proposed_at
        } else {
            0
        };
        if elapsed < self.timelock_duration {
            return Err(Error::TimelockNotElapsed);
        }
        Ok(())
    }

    /// Dispatches an approved action, first holding it to the timelock.
    /// Pausing and strategy registration mutate the vault state; a rebalance
    /// works entirely through the port and leaves the state as it was.
    fn execute_action<S: StrategyTrait>(
        &mut self,
        action: ActionType,
        proposed_at: u64,
        now: u64,
        port: &mut S,
    ) -> (r: Result<(), Error>)
        requires
            old(self).wf(),
        ensures
            final(self).wf(),
            r.is_err() ==> *final(self) == *old(self),
            (r == Err::<(), Error>(Error::TimelockNotElapsed)) <==> !timelock_ok(
                *old(self),
                proposed_at,
                now,
            ),
            timelock_ok(*old(self), proposed_at, now) ==> match action {
                ActionType::SetPaused(b) => r.is_ok() && final(self).paused == b && final(self).version == old(self).version && final(self).oracle_last_update == old(self).oracle_last_update && final(self).max_staleness == old(self).max_staleness
                    && final(self).timelock_duration == old(self).timelock_duration && final(self).eq_roles(old(self)) && final(self).eq_limits(old(self)) && final(self).eq_accounting(old(self)) && final(self).eq_strategies(old(self)) && final(self).eq_governance(old(self)) && final(self).eq_queue(old(self)),
                ActionType::AddStrategy(p) => r == add_strategy_result(*old(self), p) && (r.is_ok()
                    ==> final(self).strategies@ == old(self).strategies@.push(p) && final(self).allocations == old(self).allocations && final(self).health@ == old(self).health@
                    && final(self).eq_roles(old(self)) && final(self).eq_limits(old(self)) && final(self).eq_operational(old(self)) && final(self).eq_accounting(old(self)) && final(self).eq_governance(old(self)) && final(self).eq_queue(old(self))),
                ActionType::Rebalance(_) => *final(self) == *old(self) && (rebalance_gate(
                    *old(self),
                    now,
                ) matches Err(e) ==> r == Err::<(), Error>(e)) && (rebalance_gate(
                    *old(self),
                    now,
                ) matches Ok(_) ==> (r matches Ok(_) || r == Err::<(), Error>(
                    Error::SlippageExceeded,
                ) || r == Err::<(), Error>(Error::Overflow))),
            },
    {
        if let Err(e) = self.assert_timelock_elapsed(proposed_at, now) {
            return Err(e);
        }
        match action {
            ActionType::SetPaused(state) => {
                self.paused = state;
                Ok(())
            },
            ActionType::AddStrategy(strategy) => self.internal_add_strategy(strategy),
            ActionType::Rebalance(max_slippage) => self.internal_rebalance(
                port,
                max_slippage,
                now,
            ),
        }
    }

    /// The position of the proposal carrying `id`, if any.
    fn find_proposal(&self, id: u64) -> (r: Option<usize>)
        ensures
            match r {
                Some(i) => i < self.proposals@.len() && self.proposals@[i as int].id == id,
                None => !has_proposal(self.proposals@, id),
            },
    {
        let mut i: usize = 0;
        while i < self.proposals.len()
            invariant
                i <= self.proposals@.len(),
                forall|j: int| 0 <= j < i ==> self.proposals@[j].id != id,
            decreases self.proposals@.len() - i,
        {
            if self.proposals[i].id == id {
                return Some(i);
            }
            i = i + 1;
        }
        None
    }

    /// Creates a proposal for `action`, already carrying its proposer's
    /// approval, under the next monotonic id.  Only a guardian may propose;
    /// the caller verifies the proposer's authorization.  With a threshold of
    /// one the proposal is executed on the spot, except that an unelapsed
    /// timelock leaves it stored as approved-but-unexecuted rather than
    /// failing the call; any other execution failure aborts the proposal
    /// entirely.  Returns the new proposal's id.
    pub fn propose_action<S: StrategyTrait>(
        &mut self,
        proposer: Principal,
        action: ActionType,
        now: u64,
        port: &mut S,
    ) -> (r: Result<u64, Error>)
        requires
            old(self).wf(),
        ensures
            final(self).wf(),
            r.is_err() ==> *final(self) == *old(self),
            (r == Err::<u64, Error>(Error::Unauthorized)) <==> !old(self).guardians@.contains(
                proposer,
            ),
            old(self).guardians@.contains(proposer) && old(self).next_proposal_id == u64::MAX ==> r
                == Err::<u64, Error>(Error::Overflow),
            old(self).guardians@.contains(proposer) && old(self).next_proposal_id < u64::MAX && (
            old(self).threshold > 1 || action matches ActionType::SetPaused(_) || !timelock_ok(
                *old(self),
                now,
                now,
            )) ==> r matches Ok(_),
            old(self).guardians@.contains(proposer) && old(self).next_proposal_id < u64::MAX
                && old(self).threshold == 1 && timelock_ok(*old(self), now, now) ==> (match action {
                ActionType::AddStrategy(p) => (r matches Ok(_)) <==> (add_strategy_result(
                    *old(self),
                    p,
                ) matches Ok(_)),
                _ => true,
            }),
            match r {
                Ok(id) => {
                    &&& id == old(self).next_proposal_id
                    &&& final(self).next_proposal_id == old(self).next_proposal_id + 1
                    &&& final(self).proposals@.len() == old(self).proposals@.len() + 1
                    &&& final(self).proposals@.drop_last() == old(self).proposals@
                    &&& final(self).proposals@.last().id == id
                    &&& final(self).proposals@.last().proposer == proposer
                    &&& final(self).proposals@.last().action == action
                    &&& final(self).proposals@.last().proposed_at == now
                    &&& final(self).proposals@.last().approvals@ == seq![proposer]
                    &&& (old(self).threshold > 1 ==> !final(self).proposals@.last().executed)
                    &&& (old(self).threshold == 1 ==> (final(self).proposals@.last().executed
                        <==> timelock_ok(*old(self), now, now)))
                    &&& final(self).guardians@ == old(self).guardians@
                    &&& final(self).threshold == old(self).threshold
                    &&& final(self).eq_roles(old(self))
                    &&& final(self).eq_limits(old(self))
                    &&& final(self).eq_accounting(old(self))
                    &&& final(self).eq_queue(old(self))
                    &&& (!final(self).proposals@.last().executed ==> final(self).paused == old(self).paused && final(self).eq_strategies(old(self)) && final(self).eq_timing(
                        old(self),
                    ))
                    &&& (final(self).proposals@.last().executed ==> match action {
                        ActionType::SetPaused(b) => final(self).paused == b && final(self).eq_strategies(old(self)) && final(self).eq_timing(old(self)),
                        ActionType::AddStrategy(p) => final(self).strategies@ == old(self).strategies@.push(p) && final(self).allocations == old(self).allocations
                            && final(self).health@ == old(self).health@ && final(self).paused
                            == old(self).paused && final(self).eq_timing(old(self)),
                        ActionType::Rebalance(_) => final(self).paused == old(self).paused && final(self).eq_strategies(old(self)) && final(self).eq_timing(old(self)),
                    })
                },
                Err(e) => e == Error::Unauthorized || e == Error::Overflow || e
                    == Error::VersionMismatch || e == Error::AlreadyInitialized || e
                    == Error::NotInitialized || e == Error::StaleOracleData || e
                    == Error::SlippageExceeded,
            },
    {
        if !contains_principal(&self.guardians, proposer) {
            return Err(Error::Unauthorized);
        }
        let id = self.next_proposal_id;
        let next = match id.checked_add(1) {
            Some(v) => v,
            None => {
                return Err(Error::Overflow);
            },
        };
        let mut approvals: Vec<Principal> = Vec::new();
        approvals.push(proposer);
        let mut executed = false;
        if self.threshold <= 1 {
            match self.execute_action(action, now, now, port) {
                Ok(_) => {
                    executed = true;
                },
                Err(e) => {
                    if e != Error::TimelockNotElapsed {
                        return Err(e);
                    }
                },
            }
        }
        let proposal = Proposal { id, proposer, action, approvals, executed, proposed_at: now };
        let ghost ps0 = self.proposals@;
        self.proposals.push(proposal);
        self.next_proposal_id = next;
        proof {
            let ps1 = self.proposals@;
            assert(ps1 == ps0.push(proposal));
            assert(ps1.drop_last() =~= ps0);
            assert(proposal.approvals@ =~= seq![proposer]);
            assert forall|i: int|
                0 <= i < ps1.len() implies (#[trigger] ps1[i]).wf() && ps1[i].id
                < self.next_proposal_id by {
                if i < ps1.len() - 1 {
                    assert(ps0[i].wf());
                }
            }
            assert forall|i: int, j: int|
                0 <= i < j < ps1.len() implies ps1[i].id < ps1[j].id by {
                if j < ps1.len() - 1 {
                    assert(ps0[i].id < ps0[j].id);
                } else {
                    assert(ps0[i].id < id);
                }
            }
        }
        Ok(id)
    }

    /// Records one guardian's approval of a proposal.  Only a guardian may
    /// approve, each at most once, and an executed proposal is immutable.
    /// Once approvals reach the threshold the action executes; an unelapsed
    /// timelock surfaces as an error without discarding the accumulated
    /// approval, while any other execution failure aborts the whole call,
    /// approval included.
    pub fn approve_action<S: StrategyTrait>(
        &mut self,
        guardian: Principal,
        proposal_id: u64,
        now: u64,
        port: &mut S,
    ) -> (r: Result<(), Error>)
        requires
            old(self).wf(),
        ensures
            final(self).wf(),
            (r == Err::<(), Error>(Error::Unauthorized)) <==> !old(self).guardians@.contains(
                guardian,
            ),
            old(self).guardians@.contains(guardian) ==> ((r == Err::<(), Error>(
                Error::ProposalNotFound,
            )) <==> !has_proposal(old(self).proposals@, proposal_id)),
            r.is_err() && r != Err::<(), Error>(Error::TimelockNotElapsed) ==> *final(self) == *old(self),
            final(self).proposals@.len() == old(self).proposals@.len() ==> forall|i: int|
                0 <= i < old(self).proposals@.len() && (#[trigger] final(self).proposals@[i]).executed
                    && !old(self).proposals@[i].executed ==> final(self).proposals@[i].approvals@.len() >= old(self).threshold,
            old(self).guardians@.contains(guardian) ==> forall|i: int|
                0 <= i < old(self).proposals@.len() && (#[trigger] old(self).proposals@[i]).id
                    == proposal_id ==> approve_outcome(
                    *old(self),
                    *final(self),
                    r,
                    guardian,
                    i,
                    now,
                ),
    {
        if !contains_principal(&self.guardians, guardian) {
            return Err(Error::Unauthorized);
        }
        let index = match self.find_proposal(proposal_id) {
            Some(i) => i,
            None => {
                return Err(Error::ProposalNotFound);
            },
        };
        proof {
            assert forall|i: int|
                0 <= i < self.proposals@.len() && (#[trigger] self.proposals@[i]).id == proposal_id
                    implies i == index as int by {
                if i < index as int {
                    assert(self.proposals@[i].id < self.proposals@[index as int].id);
                } else if i > index as int {
                    assert(self.proposals@[index as int].id < self.proposals@[i].id);
                }
            }
            assert(has_proposal(self.proposals@, proposal_id)) by {
                assert(self.proposals@[index as int].id == proposal_id);
            }
        }
        if self.proposals[index].executed {
            return Err(Error::ProposalExecuted);
        }
        if contains_principal(&self.proposals[index].approvals, guardian) {
            return Err(Error::AlreadyApproved);
        }
        let p_id = self.proposals[index].id;
        let p_proposer = self.proposals[index].proposer;
        let p_action = self.proposals[index].action;
        let p_proposed_at = self.proposals[index].proposed_at;
        let mut new_approvals = copy_principals(&self.proposals[index].approvals);
        new_approvals.push(guardian);
        proof {
            let old_a = old(self).proposals@[index as int].approvals@;
            assert(new_approvals@ == old_a.push(guardian));
            assert forall|a: int, b: int|
                0 <= a < b < new_approvals@.len() implies new_approvals@[a] != new_approvals@[b] by {
                if b == new_approvals@.len() - 1 {
                    if old_a[a] == guardian {
                        assert(old_a.contains(guardian));
                    }
                } else {
                    assert(old(self).proposals@[index as int].wf());
                }
            }
        }
        let mut executed = false;
        if new_approvals.len() >= self.threshold as usize {
            match self.execute_action(p_action, p_proposed_at, now, port) {
                Ok(_) => {
                    executed = true;
                },
                Err(e) => {
                    if e == Error::TimelockNotElapsed {
                        let updated = Proposal {
                            id: p_id,
                            proposer: p_proposer,
                            action: p_action,
                            approvals: new_approvals,
                            executed: false,
                            proposed_at: p_proposed_at,
                        };
                        let ghost ps0 = self.proposals@;
                        self.proposals[index] = updated;
                        proof {
                            self.lemma_update_proposal_wf(ps0, index as int, updated);
                        }
                        return Err(Error::TimelockNotElapsed);
                    }
                    return Err(e);
                },
            }
        }
        let updated = Proposal {
            id: p_id,
            proposer: p_proposer,
            action: p_action,
            approvals: new_approvals,
            executed,
            proposed_at: p_proposed_at,
        };
        let ghost ps0 = self.proposals@;
        self.proposals[index] = updated;
        proof {
            self.lemma_update_proposal_wf(ps0, index as int, updated);
        }
        Ok(())
    }

    /// Rewriting one proposal in place, keeping its id and a well-formed
    /// body, preserves the book's well-formedness.
    proof fn lemma_update_proposal_wf(&self, ps0: Seq<Proposal>, i: int, updated: Proposal)
        requires
            0 <= i < ps0.len(),
            self.proposals@ == ps0.update(i, updated),
            updated.id == ps0[i].id,
            updated.wf(),
            forall|j: int| 0 <= j < ps0.len() ==> (#[trigger] ps0[j]).wf(),
            forall|j: int| 0 <= j < ps0.len() ==> (#[trigger] ps0[j]).id < self.next_proposal_id,
            forall|a: int, b: int| 0 <= a < b < ps0.len() ==> ps0[a].id < ps0[b].id,
        ensures
            forall|j: int|
                0 <= j < self.proposals@.len() ==> (#[trigger] self.proposals@[j]).wf()
                    && self.proposals@[j].id < self.next_proposal_id,
            forall|a: int, b: int|
                0 <= a < b < self.proposals@.len() ==> self.proposals@[a].id
                    < self.proposals@[b].id,
    {
        let ps1 = self.proposals@;
        assert forall|j: int|
            0 <= j < ps1.len() implies (#[trigger] ps1[j]).wf() && ps1[j].id
            < self.next_proposal_id by {
            if j != i {
                assert(ps0[j].wf());
            }
        }
        assert forall|a: int, b: int| 0 <= a < b < ps1.len() implies ps1[a].id < ps1[b].id by {
            assert(ps0[a].id < ps0[b].id);
        }
    }
}

} // verus!
