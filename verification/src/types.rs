//! The data model: jobs, bids, milestones, escrow records, disputes,
//! agent profiles, ratings and chat messages, together with their status
//! enumerations and the error type shared by every operation.

use vstd::prelude::*;

verus! {

/// Lifecycle states of a job. `Completed` and `Cancelled` are terminal.
#[derive(Clone, Copy, PartialEq, Eq, Debug, Structural)]
pub enum JobStatus {
    Posted,
    InProgress,
    PendingApproval,
    Completed,
    Cancelled,
    Disputed,
}

/// Sub-states of a single milestone.
#[derive(Clone, Copy, PartialEq, Eq, Debug, Structural)]
pub enum MilestoneStatus {
    Pending,
    InProgress,
    Submitted,
    Approved,
    Rejected,
}

/// Disposition of the funds locked for a job. Every state other than
/// `Locked` is terminal: a record is never re-locked.
#[derive(Clone, Copy, PartialEq, Eq, Debug, Structural)]
pub enum EscrowStatus {
    Locked,
    Released,
    Refunded,
    PartiallyRefunded,
}

/// States of a dispute. The three `Resolved*` states are terminal.
#[derive(Clone, Copy, PartialEq, Eq, Debug, Structural)]
pub enum DisputeStatus {
    Open,
    UnderReview,
    ResolvedForClient,
    ResolvedForAgent,
    ResolvedSplit,
}

/// The verdict a resolver hands to `resolve_dispute`.
#[derive(Clone, Copy, PartialEq, Eq, Debug, Structural)]
pub enum DisputeOutcome {
    ForClient,
    ForAgent,
    Split,
}

/// Typed, caller-visible failures. Every operation either commits its whole
/// effect or returns one of these and commits nothing.
#[derive(Clone, Copy, PartialEq, Eq, Debug, Structural)]
pub enum JobMarketplaceError {
    NotAuthorized,
    InvalidStatus,
    JobNotFound(u64),
    BidNotFound,
    MilestoneNotFound,
    DisputeNotFound,
    MessageNotFound,
    AgentNotRegistered,
    AgentAlreadyRegistered,
    InvalidRating,
    InvalidAmount,
    InvalidMilestonePercentages,
    CannotBidOwnJob,
    AlreadyBid,
    DisputeAlreadyOpen,
    DeadlinePassed,
}

/// An agent's offer to perform a posted job.
pub struct Bid {
    pub agent: u64,
    /// Position of the bid in the job's bid list at insertion time. Not a
    /// stable key: withdrawing and re-bidding can reuse a value.
    pub bid_id: u64,
    pub amount: u64,
    pub proposal: String,
    pub estimated_days: u64,
    pub timestamp: u64,
}

/// A partial deliverable of a job, carrying a percentage share of the
/// total payment. Its identifier is its index in the job's milestone list.
pub struct Milestone {
    pub milestone_id: u64,
    pub payment_percentage: u64,
    pub status: MilestoneStatus,
    pub due_date: Option<u64>,
}

/// What a client supplies per milestone when posting a job.
#[derive(Clone, Copy, PartialEq, Eq, Debug, Structural)]
pub struct MilestoneInput {
    pub payment_percentage: u64,
    pub due_date: Option<u64>,
}

/// A job record. Created on post, mutated by every lifecycle operation,
/// never deleted: terminal states are retained for audit.
pub struct Job {
    pub id: u64,
    pub client: u64,
    pub title: String,
    pub description: String,
    pub category: String,
    pub tags: Vec<String>,
    pub payment: u64,
    pub accepted_bid_amount: Option<u64>,
    pub agent: Option<u64>,
    pub bids: Vec<Bid>,
    pub milestones: Vec<Milestone>,
    /// Index of the job's escrow record in the ledger, while the job holds
    /// locked or disbursed funds attributable to an active engagement.
    pub escrow_reference: Option<u64>,
    pub deadline: Option<u64>,
    pub status: JobStatus,
    pub created_at: u64,
}

/// Registration and reputation counters for an agent.
pub struct AgentProfile {
    pub owner: u64,
    pub name: String,
    pub service_description: String,
    pub jobs_completed: u64,
    /// Running average over completions, on a 0..=100 scale.
    pub success_rate: u64,
    pub total_rating_points: u64,
    pub total_ratings: u64,
    pub registered_at: u64,
}

/// A 1-5 review tied to a completed job.
pub struct AgentRating {
    pub rating_id: u64,
    pub job_id: u64,
    pub agent: u64,
    pub rater: u64,
    pub rating: u8,
    pub review: String,
    pub timestamp: u64,
}

/// The locked funds for a job and their disposition. Created exactly once,
/// at bid acceptance; mutated exactly once, at job completion or dispute
/// resolution.
pub struct EscrowRecord {
    pub job_id: u64,
    pub client: u64,
    pub agent: u64,
    pub amount: u64,
    pub status: EscrowStatus,
    pub locked_at: u64,
    pub released_at: Option<u64>,
}

/// An out-of-band disagreement that forces a job to a terminal outcome.
pub struct Dispute {
    pub dispute_id: u64,
    pub job_id: u64,
    pub initiator: u64,
    pub reason: String,
    pub status: DisputeStatus,
    /// Intended refund share for split outcomes; bookkeeping only, read by
    /// an external settlement step.
    pub refund_percentage: Option<u64>,
    pub resolution_notes: Option<String>,
    pub created_at: u64,
    pub resolved_at: Option<u64>,
}

/// A free-form message between the participants of a job.
pub struct ChatMessage {
    pub message_id: u64,
    pub job_id: u64,
    pub sender: u64,
    pub text: String,
    pub sent_at: u64,
    pub read: bool,
}

} // verus!
