//! A verified core for an escrow-backed job marketplace.
//!
//! The library models the full lifecycle of a two-party job: posting,
//! competitive bidding, bid acceptance with fund locking, milestone-gated
//! delivery, completion with payout bookkeeping, and dispute-driven
//! resolution. Identity resolution, the clock, persistence and message
//! transport are external collaborators: callers pass the resolved caller
//! identity and the current timestamp as plain values, and the state is an
//! ordinary in-memory value the surrounding program persists as a whole.

pub mod agents;
pub mod bids;
pub mod chat;
pub mod dispatch;
pub mod disputes;
pub mod laws;
pub mod lifecycle;
pub mod milestones;
pub mod query;
pub mod seq_helpers;
pub mod state;
pub mod types;
