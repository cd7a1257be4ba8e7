//! The marketplace state and its well-formedness invariant.
//!
//! Records are kept in plain vectors. Jobs, disputes, ratings and messages
//! are keyed by dense identifiers starting at 1, so the record with
//! identifier `k` sits at index `k - 1`; agents are keyed by owner
//! identity; escrow records are referenced by index from their job.

use vstd::prelude::*;

use crate::types::AgentProfile;
use crate::types::AgentRating;
use crate::types::ChatMessage;
use crate::types::Dispute;
use crate::types::DisputeStatus;
use crate::types::EscrowRecord;
use crate::types::EscrowStatus;
use crate::types::Job;
use crate::types::JobStatus;
use crate::types::Milestone;
use crate::types::MilestoneStatus;

verus! {

/// The whole application state: one value, mutated atomically per call.
pub struct JobMarketplace {
    pub jobs: Vec<Job>,
    pub agents: Vec<AgentProfile>,
    pub ratings: Vec<AgentRating>,
    pub disputes: Vec<Dispute>,
    pub escrows: Vec<EscrowRecord>,
    pub messages: Vec<ChatMessage>,
    pub next_job_id: u64,
    pub next_rating_id: u64,
    pub next_dispute_id: u64,
    pub next_message_id: u64,
}

/// Sum of the payment percentages of a milestone list.
pub open spec fn sum_percentages(ms: Seq<Milestone>) -> int
    decreases ms.len(),
{
    if ms.len() == 0 {
        0
    } else {
        sum_percentages(ms.drop_last()) + ms.last().payment_percentage
    }
}

/// The percentage sum ignores every field but the percentages.
pub proof fn lemma_sum_same_percentages(ms1: Seq<Milestone>, ms2: Seq<Milestone>)
    requires
        ms1.len() == ms2.len(),
        forall|m: int|
            0 <= m < ms1.len() ==> (#[trigger] ms1[m]).payment_percentage
                == ms2[m].payment_percentage,
    ensures
        sum_percentages(ms1) == sum_percentages(ms2),
    decreases ms1.len(),
{
    if ms1.len() > 0 {
        lemma_sum_same_percentages(ms1.drop_last(), ms2.drop_last());
    }
}

/// Whether `owner` has a registered profile.
pub open spec fn is_registered(agents: Seq<AgentProfile>, owner: u64) -> bool {
    exists|i: int| 0 <= i < agents.len() && agents[i].owner == owner
}

/// A milestone that holds the worker's current attention: either being
/// worked on or awaiting the client's verdict.
pub open spec fn milestone_active(m: Milestone) -> bool {
    m.status == MilestoneStatus::InProgress || m.status == MilestoneStatus::Submitted
}

/// A dispute that has not yet reached a terminal verdict.
pub open spec fn dispute_unresolved(d: Dispute) -> bool {
    d.status == DisputeStatus::Open || d.status == DisputeStatus::UnderReview
}

/// A status in which the job's escrow must still be locked.
pub open spec fn status_holds_funds(s: JobStatus) -> bool {
    s == JobStatus::InProgress || s == JobStatus::PendingApproval || s == JobStatus::Disputed
}

/// Escrow records only ever move on from `Locked`: between two states of
/// the ledger, a record that had already been disbursed is unchanged, and
/// no record is dropped.
pub open spec fn escrow_monotonic(before: Seq<EscrowRecord>, after: Seq<EscrowRecord>) -> bool {
    &&& after.len() >= before.len()
    &&& forall|e: int|
        0 <= e < before.len() && before[e].status != EscrowStatus::Locked ==> after[e] == before[e]
}

impl JobMarketplace {
    /// `job_id` denotes a stored job.
    pub open spec fn job_id_ok(self, job_id: u64) -> bool {
        1 <= job_id && job_id <= self.jobs@.len()
    }

    /// The job stored under `job_id`.
    pub open spec fn job(self, job_id: u64) -> Job {
        self.jobs@[job_id - 1]
    }

    /// `dispute_id` denotes a stored dispute.
    pub open spec fn dispute_id_ok(self, dispute_id: u64) -> bool {
        1 <= dispute_id && dispute_id <= self.disputes@.len()
    }

    /// The dispute stored under `dispute_id`.
    pub open spec fn dispute(self, dispute_id: u64) -> Dispute {
        self.disputes@[dispute_id - 1]
    }

    /// `message_id` denotes a stored message.
    pub open spec fn message_id_ok(self, message_id: u64) -> bool {
        1 <= message_id && message_id <= self.messages@.len()
    }

    /// Identifier counters are dense: each is one past the count of the
    /// records it numbers.
    pub open spec fn wf_counters(self) -> bool {
        &&& self.next_job_id == self.jobs@.len() + 1
        &&& self.next_rating_id == self.ratings@.len() + 1
        &&& self.next_dispute_id == self.disputes@.len() + 1
        &&& self.next_message_id == self.messages@.len() + 1
    }

    /// Everything that must hold of the job at index `i`.
    pub open spec fn wf_job(self, i: int) -> bool {
        let j = self.jobs@[i];
        // dense identifiers
        &&& j.id == i + 1
        // an agent is bound exactly while the job is past posting and not
        // cancelled, and exactly then the job holds an escrow reference
        &&& (j.agent is Some) <==> !(j.status == JobStatus::Posted || j.status
            == JobStatus::Cancelled)
        &&& (j.escrow_reference is Some) <==> !(j.status == JobStatus::Posted || j.status
            == JobStatus::Cancelled)
        // declared milestones split the payment exactly
        &&& j.milestones@.len() > 0 ==> sum_percentages(j.milestones@) == 100
        &&& forall|m: int|
            0 <= m < j.milestones@.len() ==> (#[trigger] j.milestones@[m]).milestone_id == m
        // at most one live bid per agent
        &&& forall|b1: int, b2: int|
            0 <= b1 < b2 < j.bids@.len() ==> (#[trigger] j.bids@[b1]).agent
                != (#[trigger] j.bids@[b2]).agent
        // every bidder, and the bound agent, is a registered agent
        &&& forall|b: int|
            0 <= b < j.bids@.len() ==> is_registered(self.agents@, (#[trigger] j.bids@[b]).agent)
        &&& (j.agent matches Some(a) ==> is_registered(self.agents@, a))
        // at most one milestone is being worked on or awaiting a verdict
        &&& forall|m1: int, m2: int|
            0 <= m1 < m2 < j.milestones@.len() ==> !(milestone_active(#[trigger] j.milestones@[m1])
                && milestone_active(#[trigger] j.milestones@[m2]))
        // before acceptance every milestone is still pending
        &&& j.status == JobStatus::Posted ==> forall|m: int|
            0 <= m < j.milestones@.len() ==> (#[trigger] j.milestones@[m]).status
                == MilestoneStatus::Pending
        // the escrow reference points back at this job, at the accepted
        // amount, between the same parties
        &&& (j.escrow_reference matches Some(e) ==> {
            &&& e < self.escrows@.len()
            &&& self.escrows@[e as int].job_id == j.id
            &&& self.escrows@[e as int].client == j.client
            &&& j.accepted_bid_amount is Some
            &&& self.escrows@[e as int].amount == j.accepted_bid_amount->0
            &&& (j.agent matches Some(a) ==> self.escrows@[e as int].agent == a)
        })
        // funds stay locked while the engagement is live, and are disbursed
        // once it completes
        &&& (status_holds_funds(j.status) ==> self.escrows@[j.escrow_reference->0 as int].status
            == EscrowStatus::Locked)
        &&& (j.status == JobStatus::Completed ==> {
            let st = self.escrows@[j.escrow_reference->0 as int].status;
            st == EscrowStatus::Released || st == EscrowStatus::PartiallyRefunded
        })
    }

    pub open spec fn wf_jobs(self) -> bool {
        forall|i: int| 0 <= i < self.jobs@.len() ==> #[trigger] self.wf_job(i)
    }

    /// Everything that must hold of the escrow record at index `e`.
    pub open spec fn wf_escrow(self, e: int) -> bool {
        let r = self.escrows@[e];
        &&& self.job_id_ok(r.job_id)
        &&& self.job(r.job_id).status != JobStatus::Posted
        // a record no job references any more has been refunded
        &&& (self.job(r.job_id).escrow_reference == Some(e as u64) || r.status
            == EscrowStatus::Refunded)
    }

    pub open spec fn wf_escrows(self) -> bool {
        &&& forall|e: int| 0 <= e < self.escrows@.len() ==> #[trigger] self.wf_escrow(e)
        // at most one record per job
        &&& forall|e1: int, e2: int|
            0 <= e1 < e2 < self.escrows@.len() ==> (#[trigger] self.escrows@[e1]).job_id
                != (#[trigger] self.escrows@[e2]).job_id
    }

    /// Everything that must hold of the dispute at index `d`.
    pub open spec fn wf_dispute(self, d: int) -> bool {
        let dd = self.disputes@[d];
        &&& dd.dispute_id == d + 1
        &&& self.job_id_ok(dd.job_id)
        // an unresolved dispute keeps its job in the disputed state
        &&& dispute_unresolved(dd) ==> self.job(dd.job_id).status == JobStatus::Disputed
    }

    pub open spec fn wf_disputes(self) -> bool {
        &&& forall|d: int| 0 <= d < self.disputes@.len() ==> #[trigger] self.wf_dispute(d)
        // at most one unresolved dispute per job
        &&& forall|d1: int, d2: int|
            0 <= d1 < d2 < self.disputes@.len() && (#[trigger] self.disputes@[d1]).job_id
                == (#[trigger] self.disputes@[d2]).job_id ==> !(dispute_unresolved(
                self.disputes@[d1],
            ) && dispute_unresolved(self.disputes@[d2]))
    }

    /// Everything that must hold of the agent profile at index `a`.
    pub open spec fn wf_agent(self, a: int) -> bool {
        let p = self.agents@[a];
        &&& p.success_rate <= 100
        &&& p.total_rating_points <= 5 * p.total_ratings
        &&& p.total_ratings <= self.ratings@.len()
    }

    pub open spec fn wf_agents(self) -> bool {
        &&& forall|a: int| 0 <= a < self.agents@.len() ==> #[trigger] self.wf_agent(a)
        // owner identities are unique
        &&& forall|a1: int, a2: int|
            0 <= a1 < a2 < self.agents@.len() ==> (#[trigger] self.agents@[a1]).owner
                != (#[trigger] self.agents@[a2]).owner
    }

    /// Everything that must hold of the rating at index `r`.
    pub open spec fn wf_rating(self, r: int) -> bool {
        let rr = self.ratings@[r];
        &&& rr.rating_id == r + 1
        &&& 1 <= rr.rating <= 5
        &&& self.job_id_ok(rr.job_id)
        &&& self.job(rr.job_id).status == JobStatus::Completed
        &&& self.job(rr.job_id).agent == Some(rr.agent)
    }

    pub open spec fn wf_ratings(self) -> bool {
        forall|r: int| 0 <= r < self.ratings@.len() ==> #[trigger] self.wf_rating(r)
    }

    pub open spec fn wf_messages(self) -> bool {
        forall|m: int|
            0 <= m < self.messages@.len() ==> (#[trigger] self.messages@[m]).message_id == m + 1
                && self.job_id_ok(self.messages@[m].job_id)
    }

    /// The state invariant. `new` establishes it and every operation
    /// preserves it.
    pub open spec fn wf(self) -> bool {
        &&& self.wf_counters()
        &&& self.wf_jobs()
        &&& self.wf_escrows()
        &&& self.wf_disputes()
        &&& self.wf_agents()
        &&& self.wf_ratings()
        &&& self.wf_messages()
    }

    /// Escrow well-formedness carries over while the ledger is unchanged
    /// and every pre-existing job is kept in place.
    pub proof fn lemma_wf_escrows_stable(pre: JobMarketplace, post: JobMarketplace)
        requires
            pre.wf_escrows(),
            post.escrows == pre.escrows,
            post.jobs@.len() >= pre.jobs@.len(),
            forall|k: int| 0 <= k < pre.jobs@.len() ==> post.jobs@[k] == pre.jobs@[k],
        ensures
            post.wf_escrows(),
    {
        assert forall|e: int| 0 <= e < post.escrows@.len() implies #[trigger] post.wf_escrow(
            e,
        ) by {
            assert(pre.wf_escrow(e));
        }
    }

    /// Dispute well-formedness carries over while the disputes are
    /// unchanged and every pre-existing job is kept in place.
    pub proof fn lemma_wf_disputes_stable(pre: JobMarketplace, post: JobMarketplace)
        requires
            pre.wf_disputes(),
            post.disputes == pre.disputes,
            post.jobs@.len() >= pre.jobs@.len(),
            forall|k: int| 0 <= k < pre.jobs@.len() ==> post.jobs@[k] == pre.jobs@[k],
        ensures
            post.wf_disputes(),
    {
        assert forall|d: int| 0 <= d < post.disputes@.len() implies #[trigger] post.wf_dispute(
            d,
        ) by {
            assert(pre.wf_dispute(d));
        }
    }

    /// Rating well-formedness carries over while the ratings are unchanged
    /// and every pre-existing job is kept in place.
    pub proof fn lemma_wf_ratings_stable(pre: JobMarketplace, post: JobMarketplace)
        requires
            pre.wf_ratings(),
            post.ratings == pre.ratings,
            post.jobs@.len() >= pre.jobs@.len(),
            forall|k: int| 0 <= k < pre.jobs@.len() ==> post.jobs@[k] == pre.jobs@[k],
        ensures
            post.wf_ratings(),
    {
        assert forall|r: int| 0 <= r < post.ratings@.len() implies #[trigger] post.wf_rating(
            r,
        ) by {
            assert(pre.wf_rating(r));
        }
    }

    /// Message well-formedness carries over while the messages are
    /// unchanged and no job is dropped.
    pub proof fn lemma_wf_messages_stable(pre: JobMarketplace, post: JobMarketplace)
        requires
            pre.wf_messages(),
            post.messages == pre.messages,
            post.jobs@.len() >= pre.jobs@.len(),
        ensures
            post.wf_messages(),
    {
    }

    /// Agent well-formedness carries over while the agents are unchanged
    /// and no rating is dropped.
    pub proof fn lemma_wf_agents_stable(pre: JobMarketplace, post: JobMarketplace)
        requires
            pre.wf_agents(),
            post.agents == pre.agents,
            post.ratings@.len() >= pre.ratings@.len(),
        ensures
            post.wf_agents(),
    {
        assert forall|a: int| 0 <= a < post.agents@.len() implies #[trigger] post.wf_agent(
            a,
        ) by {
            assert(pre.wf_agent(a));
        }
    }

    /// The whole invariant carries over when a single job changes in fields
    /// the other record groups never read (bids, milestones' inner fields,
    /// texts), provided the changed job itself is still well formed.
    pub proof fn lemma_wf_one_job_changed(pre: JobMarketplace, post: JobMarketplace, i: int)
        requires
            pre.wf(),
            0 <= i < pre.jobs@.len(),
            post.jobs@ == pre.jobs@.update(i, post.jobs@[i]),
            post.jobs@[i].id == pre.jobs@[i].id,
            post.jobs@[i].status == pre.jobs@[i].status,
            post.jobs@[i].escrow_reference == pre.jobs@[i].escrow_reference,
            post.jobs@[i].client == pre.jobs@[i].client,
            post.jobs@[i].agent == pre.jobs@[i].agent,
            post.wf_job(i),
            post.agents == pre.agents,
            post.escrows == pre.escrows,
            post.disputes == pre.disputes,
            post.ratings == pre.ratings,
            post.messages == pre.messages,
            post.next_job_id == pre.next_job_id,
            post.next_rating_id == pre.next_rating_id,
            post.next_dispute_id == pre.next_dispute_id,
            post.next_message_id == pre.next_message_id,
        ensures
            post.wf(),
    {
        assert forall|t: int| 0 <= t < post.jobs@.len() implies #[trigger] post.wf_job(t) by {
            if t != i {
                assert(pre.wf_job(t));
            }
        }
        assert forall|e: int| 0 <= e < post.escrows@.len() implies #[trigger] post.wf_escrow(
            e,
        ) by {
            assert(pre.wf_escrow(e));
        }
        assert forall|d: int| 0 <= d < post.disputes@.len() implies #[trigger] post.wf_dispute(
            d,
        ) by {
            assert(pre.wf_dispute(d));
        }
        assert forall|r: int| 0 <= r < post.ratings@.len() implies #[trigger] post.wf_rating(
            r,
        ) by {
            assert(pre.wf_rating(r));
        }
        assert forall|a: int| 0 <= a < post.agents@.len() implies #[trigger] post.wf_agent(a) by {
            assert(pre.wf_agent(a));
        }
    }

    /// An empty marketplace; every identifier counter starts at 1.
    pub fn new() -> (s: JobMarketplace)
        ensures
            s.wf(),
            s.jobs@.len() == 0,
            s.agents@.len() == 0,
            s.ratings@.len() == 0,
            s.disputes@.len() == 0,
            s.escrows@.len() == 0,
            s.messages@.len() == 0,
            s.next_job_id == 1,
            s.next_rating_id == 1,
            s.next_dispute_id == 1,
            s.next_message_id == 1,
    {
        JobMarketplace {
            jobs: Vec::new(),
            agents: Vec::new(),
            ratings: Vec::new(),
            disputes: Vec::new(),
            escrows: Vec::new(),
            messages: Vec::new(),
            next_job_id: 1,
            next_rating_id: 1,
            next_dispute_id: 1,
            next_message_id: 1,
        }
    }

    /// All jobs, in identifier order.
    pub fn jobs(&self) -> (r: &Vec<Job>)
        ensures
            r == &self.jobs,
    {
        &self.jobs
    }

    /// Mutable access to the job store. The operations keep the state
    /// invariant; direct mutation through this handle may not.
    pub fn jobs_mut(&mut self) -> (r: &mut Vec<Job>)
        ensures
            *r == old(self).jobs,
            final(self).jobs == *final(r),
            final(self).agents == old(self).agents,
            final(self).ratings == old(self).ratings,
            final(self).disputes == old(self).disputes,
            final(self).escrows == old(self).escrows,
            final(self).messages == old(self).messages,
            final(self).next_job_id == old(self).next_job_id,
            final(self).next_rating_id == old(self).next_rating_id,
            final(self).next_dispute_id == old(self).next_dispute_id,
            final(self).next_message_id == old(self).next_message_id,
    {
        &mut self.jobs
    }

    /// All agent profiles.
    pub fn agents(&self) -> (r: &Vec<AgentProfile>)
        ensures
            r == &self.agents,
    {
        &self.agents
    }

    /// Mutable access to the agent store; see `jobs_mut`.
    pub fn agents_mut(&mut self) -> (r: &mut Vec<AgentProfile>)
        ensures
            *r == old(self).agents,
            final(self).agents == *final(r),
            final(self).jobs == old(self).jobs,
            final(self).ratings == old(self).ratings,
            final(self).disputes == old(self).disputes,
            final(self).escrows == old(self).escrows,
            final(self).messages == old(self).messages,
            final(self).next_job_id == old(self).next_job_id,
            final(self).next_rating_id == old(self).next_rating_id,
            final(self).next_dispute_id == old(self).next_dispute_id,
            final(self).next_message_id == old(self).next_message_id,
    {
        &mut self.agents
    }

    /// All ratings, in identifier order.
    pub fn ratings(&self) -> (r: &Vec<AgentRating>)
        ensures
            r == &self.ratings,
    {
        &self.ratings
    }

    /// Mutable access to the rating store; see `jobs_mut`.
    pub fn ratings_mut(&mut self) -> (r: &mut Vec<AgentRating>)
        ensures
            *r == old(self).ratings,
            final(self).ratings == *final(r),
            final(self).jobs == old(self).jobs,
            final(self).agents == old(self).agents,
            final(self).disputes == old(self).disputes,
            final(self).escrows == old(self).escrows,
            final(self).messages == old(self).messages,
            final(self).next_job_id == old(self).next_job_id,
            final(self).next_rating_id == old(self).next_rating_id,
            final(self).next_dispute_id == old(self).next_dispute_id,
            final(self).next_message_id == old(self).next_message_id,
    {
        &mut self.ratings
    }

    /// The identifier the next posted job will receive.
    pub fn next_job_id(&self) -> (r: u64)
        ensures
            r == self.next_job_id,
    {
        self.next_job_id
    }

    /// Mutable access to the job identifier counter; see `jobs_mut`.
    pub fn next_job_id_mut(&mut self) -> (r: &mut u64)
        ensures
            *r == old(self).next_job_id,
            final(self).next_job_id == *final(r),
            final(self).jobs == old(self).jobs,
            final(self).agents == old(self).agents,
            final(self).ratings == old(self).ratings,
            final(self).disputes == old(self).disputes,
            final(self).escrows == old(self).escrows,
            final(self).messages == old(self).messages,
            final(self).next_rating_id == old(self).next_rating_id,
            final(self).next_dispute_id == old(self).next_dispute_id,
            final(self).next_message_id == old(self).next_message_id,
    {
        &mut self.next_job_id
    }

    /// The identifier the next rating will receive.
    pub fn next_rating_id(&self) -> (r: u64)
        ensures
            r == self.next_rating_id,
    {
        self.next_rating_id
    }

    /// Mutable access to the rating identifier counter; see `jobs_mut`.
    pub fn next_rating_id_mut(&mut self) -> (r: &mut u64)
        ensures
            *r == old(self).next_rating_id,
            final(self).next_rating_id == *final(r),
            final(self).jobs == old(self).jobs,
            final(self).agents == old(self).agents,
            final(self).ratings == old(self).ratings,
            final(self).disputes == old(self).disputes,
            final(self).escrows == old(self).escrows,
            final(self).messages == old(self).messages,
            final(self).next_job_id == old(self).next_job_id,
            final(self).next_dispute_id == old(self).next_dispute_id,
            final(self).next_message_id == old(self).next_message_id,
    {
        &mut self.next_rating_id
    }
}

} // verus!
