//! The operation type and the single entry point that authenticates the
//! caller and routes to the matching operation.

use vstd::prelude::*;

use crate::agents::rate_agent_result;
use crate::agents::register_agent_result;
use crate::agents::update_agent_profile_result;
use crate::bids::place_bid_result;
use crate::bids::withdraw_bid_result;
use crate::chat::mark_messages_read_result;
use crate::chat::mark_read_seq;
use crate::chat::send_message_result;
use crate::disputes::open_dispute_result;
use crate::disputes::resolved_status;
use crate::disputes::respond_to_dispute_result;
use crate::disputes::resolve_dispute_result;
use crate::lifecycle::accept_bid_result;
use crate::lifecycle::cancel_job_result;
use crate::lifecycle::post_job_result;
use crate::milestones::approve_milestone_result;
use crate::milestones::completion_counter_fits;
use crate::milestones::complete_job_result;
use crate::milestones::request_revision_result;
use crate::milestones::submit_milestone_result;
use crate::state::escrow_monotonic;
use crate::state::JobMarketplace;
use crate::types::DisputeOutcome;
use crate::types::DisputeStatus;
use crate::types::JobMarketplaceError;
use crate::types::JobStatus;
use crate::types::MilestoneInput;
use crate::types::MilestoneStatus;

verus! {

/// Every operation a caller can request.
pub enum Operation {
    PostJob {
        title: String,
        description: String,
        category: String,
        tags: Vec<String>,
        payment: u64,
        milestones: Vec<MilestoneInput>,
        deadline: Option<u64>,
    },
    CancelJob { job_id: u64 },
    PlaceBid { job_id: u64, amount: u64, proposal: String, estimated_days: u64 },
    WithdrawBid { job_id: u64 },
    AcceptBid { job_id: u64, agent: u64, amount: u64 },
    SubmitMilestone { job_id: u64, milestone_id: u64 },
    ApproveMilestone { job_id: u64, milestone_id: u64 },
    RequestRevision { job_id: u64, milestone_id: u64 },
    CompleteJob { job_id: u64 },
    RegisterAgent { name: String, service_description: String },
    UpdateAgentProfile { name: Option<String>, service_description: Option<String> },
    RateAgent { job_id: u64, rating: u8, review: String },
    OpenDispute { job_id: u64, reason: String },
    RespondToDispute { dispute_id: u64 },
    ResolveDispute {
        dispute_id: u64,
        outcome: DisputeOutcome,
        refund_percentage: Option<u64>,
        notes: String,
    },
    SendMessage { job_id: u64, text: String },
    MarkMessagesRead { ids: Vec<u64> },
}

/// The machine limits an operation needs from the state: room in the
/// identifier counters and in the completion counter it may advance.
pub open spec fn operation_fits(s: JobMarketplace, op: Operation) -> bool {
    match op {
        Operation::PostJob { .. } => s.jobs@.len() + 2 <= u64::MAX,
        Operation::RateAgent { .. } => 5 * (s.ratings@.len() + 1) <= u64::MAX,
        Operation::OpenDispute { .. } => s.disputes@.len() + 2 <= u64::MAX,
        Operation::SendMessage { .. } => s.messages@.len() + 2 <= u64::MAX,
        Operation::ApproveMilestone { job_id, .. } => completion_counter_fits(s, job_id),
        Operation::CompleteJob { job_id } => completion_counter_fits(s, job_id),
        _ => true,
    }
}

/// A result with its payload identifier dropped.
pub open spec fn unit_of<T>(r: Result<T, JobMarketplaceError>) -> Result<
    (),
    JobMarketplaceError,
> {
    match r {
        Ok(_) => Ok(()),
        Err(e) => Err(e),
    }
}

impl JobMarketplace {
    /// Authenticate and route one operation. An unauthenticated call fails
    /// `NotAuthorized` and changes nothing; otherwise the call behaves as
    /// the matching operation, whose own contract states the exact effect.
    pub fn execute_operation(
        &mut self,
        caller: Option<u64>,
        now: u64,
        op: Operation,
    ) -> (r: Result<(), JobMarketplaceError>)
        requires
            old(self).wf(),
            operation_fits(*old(self), op),
        ensures
            final(self).wf(),
            escrow_monotonic(old(self).escrows@, final(self).escrows@),
            caller is None ==> r == Err::<(), JobMarketplaceError>(
                JobMarketplaceError::NotAuthorized,
            ) && *final(self) == *old(self),
            r is Err ==> *final(self) == *old(self),
            caller matches Some(c) ==> {
                &&& (op matches Operation::PostJob { milestones, .. } ==> {
                    &&& r == unit_of(post_job_result(*old(self), milestones@))
                    &&& (r is Ok ==> final(self).jobs@.len() == old(self).jobs@.len() + 1)
                })
                &&& (op matches Operation::CancelJob { job_id } ==> {
                    &&& r == cancel_job_result(*old(self), c, job_id)
                    &&& (r is Ok ==> final(self).job(job_id).status == JobStatus::Cancelled)
                })
                &&& (op matches Operation::PlaceBid { job_id, amount, .. } ==> {
                    &&& r == unit_of(place_bid_result(*old(self), c, job_id, amount, now))
                    &&& (r is Ok ==> final(self).job(job_id).bids@.len() == old(self).job(
                        job_id,
                    ).bids@.len() + 1)
                })
                &&& (op matches Operation::WithdrawBid { job_id } ==> {
                    &&& r == withdraw_bid_result(*old(self), c, job_id)
                    &&& (r is Ok ==> final(self).job(job_id).bids@.len() == old(self).job(
                        job_id,
                    ).bids@.len() - 1)
                })
                &&& (op matches Operation::AcceptBid { job_id, agent, amount } ==> {
                    &&& r == accept_bid_result(*old(self), c, job_id, agent, amount)
                    &&& (r is Ok ==> final(self).job(job_id).status == JobStatus::InProgress
                        && final(self).escrows@.len() == old(self).escrows@.len() + 1)
                })
                &&& (op matches Operation::SubmitMilestone { job_id, milestone_id } ==> {
                    &&& r == submit_milestone_result(*old(self), c, job_id, milestone_id)
                    &&& (r is Ok ==> final(self).job(job_id).status == JobStatus::PendingApproval
                        && final(self).job(job_id).milestones@[milestone_id as int].status
                        == MilestoneStatus::Submitted)
                })
                &&& (op matches Operation::ApproveMilestone { job_id, milestone_id } ==> {
                    &&& r == approve_milestone_result(*old(self), c, job_id, milestone_id)
                    &&& (r is Ok ==> final(self).job(job_id).milestones@[milestone_id as int].status
                        == MilestoneStatus::Approved)
                })
                &&& (op matches Operation::RequestRevision { job_id, milestone_id } ==> {
                    &&& r == request_revision_result(*old(self), c, job_id, milestone_id)
                    &&& (r is Ok ==> final(self).job(job_id).status == JobStatus::InProgress
                        && final(self).job(job_id).milestones@[milestone_id as int].status
                        == MilestoneStatus::Rejected)
                })
                &&& (op matches Operation::CompleteJob { job_id } ==> {
                    &&& r == complete_job_result(*old(self), c, job_id)
                    &&& (r is Ok ==> final(self).job(job_id).status == JobStatus::Completed)
                })
                &&& (op matches Operation::RegisterAgent { .. } ==> {
                    &&& r == register_agent_result(*old(self), c)
                    &&& (r is Ok ==> final(self).agents@.len() == old(self).agents@.len() + 1)
                })
                &&& (op matches Operation::UpdateAgentProfile { .. } ==> {
                    &&& r == update_agent_profile_result(*old(self), c)
                    &&& final(self).agents@.len() == old(self).agents@.len()
                })
                &&& (op matches Operation::RateAgent { job_id, rating, .. } ==> {
                    &&& r == unit_of(rate_agent_result(*old(self), c, job_id, rating))
                    &&& (r is Ok ==> final(self).ratings@.len() == old(self).ratings@.len() + 1)
                })
                &&& (op matches Operation::OpenDispute { job_id, .. } ==> {
                    &&& r == unit_of(open_dispute_result(*old(self), c, job_id))
                    &&& (r is Ok ==> final(self).disputes@.len() == old(self).disputes@.len() + 1
                        && final(self).job(job_id).status == JobStatus::Disputed)
                })
                &&& (op matches Operation::RespondToDispute { dispute_id } ==> {
                    &&& r == respond_to_dispute_result(*old(self), c, dispute_id)
                    &&& (r is Ok ==> final(self).dispute(dispute_id).status
                        == DisputeStatus::UnderReview)
                })
                &&& (op matches Operation::ResolveDispute { dispute_id, outcome, .. } ==> {
                    &&& r == resolve_dispute_result(*old(self), dispute_id)
                    &&& (r is Ok ==> final(self).dispute(dispute_id).status == resolved_status(
                        outcome,
                    ))
                })
                &&& (op matches Operation::SendMessage { job_id, .. } ==> {
                    &&& r == unit_of(send_message_result(*old(self), c, job_id))
                    &&& (r is Ok ==> final(self).messages@.len() == old(self).messages@.len() + 1)
                })
                &&& (op matches Operation::MarkMessagesRead { ids } ==> {
                    &&& r == mark_messages_read_result(*old(self), c, ids@)
                    &&& (r is Ok ==> final(self).messages@ == mark_read_seq(
                        old(self).messages@,
                        ids@,
                    ))
                })
            },
    {
        let c = match caller {
            None => {
                return Err(JobMarketplaceError::NotAuthorized);
            },
            Some(c) => c,
        };
        match op {
            Operation::PostJob {
                title,
                description,
                category,
                tags,
                payment,
                milestones,
                deadline,
            } => {
                match self.post_job(
                    c,
                    title,
                    description,
                    category,
                    tags,
                    payment,
                    milestones,
                    deadline,
                    now,
                ) {
                    Ok(_) => Ok(()),
                    Err(e) => Err(e),
                }
            },
            Operation::CancelJob { job_id } => self.cancel_job(c, job_id),
            Operation::PlaceBid { job_id, amount, proposal, estimated_days } => {
                match self.place_bid(c, job_id, amount, proposal, estimated_days, now) {
                    Ok(_) => Ok(()),
                    Err(e) => Err(e),
                }
            },
            Operation::WithdrawBid { job_id } => self.withdraw_bid(c, job_id),
            Operation::AcceptBid { job_id, agent, amount } => {
                self.accept_bid(c, job_id, agent, amount, now)
            },
            Operation::SubmitMilestone { job_id, milestone_id } => {
                self.submit_milestone(c, job_id, milestone_id)
            },
            Operation::ApproveMilestone { job_id, milestone_id } => {
                self.approve_milestone(c, job_id, milestone_id, now)
            },
            Operation::RequestRevision { job_id, milestone_id } => {
                self.request_revision(c, job_id, milestone_id)
            },
            Operation::CompleteJob { job_id } => self.complete_job(c, job_id, now),
            Operation::RegisterAgent { name, service_description } => {
                self.register_agent(c, name, service_description, now)
            },
            Operation::UpdateAgentProfile { name, service_description } => {
                self.update_agent_profile(c, name, service_description)
            },
            Operation::RateAgent { job_id, rating, review } => {
                match self.rate_agent(c, job_id, rating, review, now) {
                    Ok(_) => Ok(()),
                    Err(e) => Err(e),
                }
            },
            Operation::OpenDispute { job_id, reason } => {
                match self.open_dispute(c, job_id, reason, now) {
                    Ok(_) => Ok(()),
                    Err(e) => Err(e),
                }
            },
            Operation::RespondToDispute { dispute_id } => self.respond_to_dispute(c, dispute_id),
            Operation::ResolveDispute { dispute_id, outcome, refund_percentage, notes } => {
                self.resolve_dispute(c, dispute_id, outcome, refund_percentage, notes, now)
            },
            Operation::SendMessage { job_id, text } => {
                match self.send_message(c, job_id, text, now) {
                    Ok(_) => Ok(()),
                    Err(e) => Err(e),
                }
            },
            Operation::MarkMessagesRead { ids } => self.mark_messages_read(c, &ids),
        }
    }
}

} // verus!
