use vstd::prelude::*;

verus! {

/// Every way a vault operation can refuse to act.  A failed call leaves the
/// vault state exactly as it was; callers retry with corrected input or wait
/// out the condition (a timelock, oracle freshness).
#[derive(Clone, Copy, Debug, PartialEq, Eq, Structural)]
pub enum Error {
    /// Oracle data was never supplied, or a record that must exist does not.
    NotInitialized,
    /// The entity being created already exists (a duplicate strategy).
    AlreadyInitialized,
    /// A negative amount, or a non-positive amount where a positive one is due.
    NegativeAmount,
    /// The calling principal is not entitled to this operation, or a guardian
    /// set change would break the threshold bounds.
    Unauthorized,
    /// The strategy registry is empty.
    NoStrategies,
    /// The global pause switch is on.
    ContractPaused,
    /// A deposit would push a per-user balance or the global total over a cap.
    DepositCapExceeded,
    /// A withdrawal exceeds the per-transaction cap.
    WithdrawalCapExceeded,
    /// The oracle's last allocation update is older than the staleness bound.
    StaleOracleData,
    /// An oracle update is future-dated or not newer than the last one.
    InvalidTimestamp,
    /// A strategy's post-rebalance balance deviates from its target by more
    /// basis points than the caller allowed.
    SlippageExceeded,
    /// No proposal carries the given id.
    ProposalNotFound,
    /// The guardian already approved this proposal.
    AlreadyApproved,
    /// The proposal was already executed and is immutable.
    ProposalExecuted,
    /// Approvals have not reached the guardian threshold.
    InsufficientApprovals,
    /// The timelock delay since the proposal's creation has not elapsed.
    TimelockNotElapsed,
    /// No queued withdrawal exists for the given user.
    WithdrawalNotFound,
    /// The withdrawal queue is empty.
    QueueEmpty,
    /// The vault's stored layout version is not the one this code expects.
    VersionMismatch,
    /// The user holds fewer shares than the withdrawal asks to burn.
    InsufficientShares,
    /// The withdrawal's asset value does not exceed the queue threshold, so it
    /// must go through the immediate path.
    BelowQueueThreshold,
    /// The operation's arithmetic would overflow the accounting range; the
    /// call is refused with no state change.
    Overflow,
}

} // verus!
