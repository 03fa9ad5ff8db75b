//! Accounting and governance core of a pooled-asset vault.
//!
//! Users deposit a base asset and receive proportional ownership shares; the
//! vault allocates pooled assets across strategy modules, rebalances between
//! them under oracle guidance, and is governed by a guardian multisig with a
//! timelock.  The vault state is a single owned [`VolatilityShield`] value;
//! every operation takes it by mutable borrow and either completes or returns
//! a typed error with the state unchanged.  External collaborators — the
//! token-transfer mechanism, signature verification, persistent storage and
//! the strategy modules themselves — live outside this crate: callers
//! authenticate principals and move token value, and strategy modules are
//! reached through the [`StrategyTrait`] port.

pub mod accounting;
pub mod errors;
pub mod governance;
pub mod laws;
pub mod pmap;
pub mod principal;
pub mod queue;
pub mod rebalance;
pub mod state;
pub mod strategy;
pub mod types;

pub use errors::Error;
pub use principal::Principal;
pub use state::VolatilityShield;
pub use strategy::{MockStrategy, MockStrategySet, StrategyTrait};
pub use types::{ActionType, Proposal, QueuedWithdrawal, StrategyHealth, WithdrawOutcome};
