//! Verified core of the Trivela campaign and rewards contracts.
//!
//! The contracts' decisions (who may register, how balances move, which
//! admin calls are accepted) are written here as plain state transitions
//! with contracts; the host plumbing (storage, authorization, events,
//! ledger time) stays outside this crate.

pub mod hashing;
pub mod allowlist;
pub mod account;
pub mod campaign;
pub mod campaign_laws;
pub mod rewards;
pub mod rewards_laws;
