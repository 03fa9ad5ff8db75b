//! The vault's record types: queued withdrawals, governance proposals and
//! their actions, and per-strategy health records.

use vstd::prelude::*;

use crate::principal::{distinct_principals, Principal};

verus! {

/// A withdrawal too large for immediate settlement, parked for batched
/// processing.  Queuing only records the request; no funds move and no
/// balance changes until the entry is processed, and cancellation simply
/// removes it.
#[derive(Clone, Copy, Debug, PartialEq, Eq, Structural)]
pub struct QueuedWithdrawal {
    pub user: Principal,
    pub shares: i128,
    pub timestamp: u64,
}

/// A privileged mutation that guardians can propose and approve.
#[derive(Clone, Copy, Debug, PartialEq, Eq, Structural)]
pub enum ActionType {
    /// Turn the global pause switch on or off.
    SetPaused(bool),
    /// Register a new strategy module.
    AddStrategy(Principal),
    /// Reallocate funds between strategies, tolerating the given slippage in
    /// basis points.
    Rebalance(u32),
}

/// A guardian proposal: created with the proposer's own approval, approved by
/// further guardians, and executed once approvals reach the threshold and the
/// timelock has elapsed.  An executed proposal is immutable.
#[derive(Debug)]
pub struct Proposal {
    pub id: u64,
    pub proposer: Principal,
    pub action: ActionType,
    pub approvals: Vec<Principal>,
    pub executed: bool,
    pub proposed_at: u64,
}

impl Proposal {
    /// A proposal always has an id, at least its proposer's approval, and no
    /// guardian approving twice.
    pub open spec fn wf(&self) -> bool {
        &&& self.id >= 1
        &&& self.approvals@.len() >= 1
        &&& distinct_principals(self.approvals@)
    }
}

/// How a withdrawal request was resolved.
#[derive(Clone, Copy, Debug, PartialEq, Eq, Structural)]
pub enum WithdrawOutcome {
    /// Settled immediately: shares were burned and the caller must now move
    /// this many assets from the vault to the user.
    Settled(i128),
    /// The asset value exceeded the queue threshold, so the request was
    /// parked on the withdrawal queue; no funds moved and no balances
    /// changed.
    Queued,
}

/// What the monitor last observed of one strategy.
#[derive(Clone, Copy, Debug, PartialEq, Eq, Structural)]
pub struct StrategyHealth {
    pub last_known_balance: i128,
    pub last_check_timestamp: u64,
    pub is_healthy: bool,
}

} // verus!
