//! Posting, cancelling and bid acceptance: the transitions that open and
//! close the bidding phase of a job.

use vstd::prelude::*;

use crate::bids::has_bid_at;
use crate::state::escrow_monotonic;
use crate::state::lemma_sum_same_percentages;
use crate::state::sum_percentages;
use crate::state::JobMarketplace;
use crate::types::EscrowRecord;
use crate::types::EscrowStatus;
use crate::types::Job;
use crate::types::JobMarketplaceError;
use crate::types::JobStatus;
use crate::types::Milestone;
use crate::types::MilestoneInput;
use crate::types::MilestoneStatus;

verus! {

/// Sum of the payment percentages of a milestone declaration list.
pub open spec fn sum_input_percentages(ms: Seq<MilestoneInput>) -> int
    decreases ms.len(),
{
    if ms.len() == 0 {
        0
    } else {
        sum_input_percentages(ms.drop_last()) + ms.last().payment_percentage
    }
}

/// A prefix never sums to more than the whole list.
proof fn lemma_sum_input_prefix_le(ms: Seq<MilestoneInput>, k: int)
    requires
        0 <= k <= ms.len(),
    ensures
        sum_input_percentages(ms.take(k)) <= sum_input_percentages(ms),
    decreases ms.len(),
{
    if k == ms.len() {
        assert(ms.take(k) =~= ms);
    } else {
        assert(ms.take(k) =~= ms.drop_last().take(k));
        lemma_sum_input_prefix_le(ms.drop_last(), k);
    }
}

/// Milestones built from a declaration list carry the same percentage sum.
proof fn lemma_sums_agree(ms: Seq<Milestone>, ins: Seq<MilestoneInput>)
    requires
        ms.len() == ins.len(),
        forall|m: int|
            0 <= m < ms.len() ==> (#[trigger] ms[m]).payment_percentage
                == ins[m].payment_percentage,
    ensures
        sum_percentages(ms) == sum_input_percentages(ins),
    decreases ms.len(),
{
    if ms.len() > 0 {
        lemma_sums_agree(ms.drop_last(), ins.drop_last());
    }
}

/// Outcome of `post_job` on a given state: the fresh job identifier, or
/// `InvalidMilestonePercentages` when declared milestones do not split the
/// payment exactly.
pub open spec fn post_job_result(s: JobMarketplace, milestones: Seq<MilestoneInput>) -> Result<
    u64,
    JobMarketplaceError,
> {
    if milestones.len() > 0 && sum_input_percentages(milestones) != 100 {
        Err(JobMarketplaceError::InvalidMilestonePercentages)
    } else {
        Ok(s.next_job_id)
    }
}

/// Outcome of `accept_bid` on a given state.
pub open spec fn accept_bid_result(
    s: JobMarketplace,
    caller: u64,
    job_id: u64,
    agent: u64,
    amount: u64,
) -> Result<(), JobMarketplaceError> {
    if !s.job_id_ok(job_id) {
        Err(JobMarketplaceError::JobNotFound(job_id))
    } else if s.job(job_id).client != caller {
        Err(JobMarketplaceError::NotAuthorized)
    } else if s.job(job_id).status != JobStatus::Posted {
        Err(JobMarketplaceError::InvalidStatus)
    } else if !has_bid_at(s.job(job_id).bids@, agent, amount) {
        Err(JobMarketplaceError::BidNotFound)
    } else {
        Ok(())
    }
}

/// Outcome of `cancel_job` on a given state.
pub open spec fn cancel_job_result(s: JobMarketplace, caller: u64, job_id: u64) -> Result<
    (),
    JobMarketplaceError,
> {
    if !s.job_id_ok(job_id) {
        Err(JobMarketplaceError::JobNotFound(job_id))
    } else if s.job(job_id).client != caller {
        Err(JobMarketplaceError::NotAuthorized)
    } else if s.job(job_id).status != JobStatus::Posted {
        Err(JobMarketplaceError::InvalidStatus)
    } else {
        Ok(())
    }
}

impl JobMarketplace {
    /// Whether the declared percentages sum to exactly 100.
    pub fn percentages_sum_to_100(ms: &Vec<MilestoneInput>) -> (r: bool)
        ensures
            r == (sum_input_percentages(ms@) == 100),
    {
        let mut sum: u64 = 0;
        let mut k: usize = 0;
        while k < ms.len()
            invariant
                k <= ms@.len(),
                sum == sum_input_percentages(ms@.take(k as int)),
                sum <= 100,
            decreases ms@.len() - k,
        {
            let p = ms[k].payment_percentage;
            proof {
                assert(ms@.take(k as int + 1).drop_last() =~= ms@.take(k as int));
                assert(ms@.take(k as int + 1).last() == ms@[k as int]);
            }
            if p > 100 - sum {
                proof {
                    lemma_sum_input_prefix_le(ms@, k as int + 1);
                }
                return false;
            }
            sum = sum + p;
            k += 1;
        }
        proof {
            assert(ms@.take(k as int) =~= ms@);
        }
        sum == 100
    }

    /// Post a new job in `Posted` status, with every declared milestone
    /// `Pending`. The caller becomes the job's client. Fails
    /// `InvalidMilestonePercentages` before anything is stored when
    /// declared milestones do not sum to exactly 100.
    pub fn post_job(
        &mut self,
        caller: u64,
        title: String,
        description: String,
        category: String,
        tags: Vec<String>,
        payment: u64,
        milestones: Vec<MilestoneInput>,
        deadline: Option<u64>,
        now: u64,
    ) -> (r: Result<u64, JobMarketplaceError>)
        requires
            old(self).wf(),
            old(self).jobs@.len() + 2 <= u64::MAX,
        ensures
            final(self).wf(),
            r == post_job_result(*old(self), milestones@),
            r is Err ==> *final(self) == *old(self),
            r is Ok ==> {
                let j = final(self).jobs@.last();
                &&& final(self).jobs@.len() == old(self).jobs@.len() + 1
                &&& forall|k: int|
                    0 <= k < old(self).jobs@.len() ==> final(self).jobs@[k] == old(self).jobs@[k]
                &&& j.id == old(self).next_job_id
                &&& j.client == caller
                &&& j.title == title
                &&& j.description == description
                &&& j.category == category
                &&& j.tags == tags
                &&& j.payment == payment
                &&& j.accepted_bid_amount is None
                &&& j.agent is None
                &&& j.bids@.len() == 0
                &&& j.escrow_reference is None
                &&& j.deadline == deadline
                &&& j.status == JobStatus::Posted
                &&& j.created_at == now
                &&& j.milestones@.len() == milestones@.len()
                &&& forall|m: int|
                    0 <= m < milestones@.len() ==> {
                        &&& (#[trigger] j.milestones@[m]).milestone_id == m
                        &&& j.milestones@[m].payment_percentage
                            == milestones@[m].payment_percentage
                        &&& j.milestones@[m].status == MilestoneStatus::Pending
                        &&& j.milestones@[m].due_date == milestones@[m].due_date
                    }
                &&& final(self).next_job_id == old(self).next_job_id + 1
            },
            final(self).agents == old(self).agents,
            final(self).ratings == old(self).ratings,
            final(self).disputes == old(self).disputes,
            final(self).escrows == old(self).escrows,
            final(self).messages == old(self).messages,
            final(self).next_rating_id == old(self).next_rating_id,
            final(self).next_dispute_id == old(self).next_dispute_id,
            final(self).next_message_id == old(self).next_message_id,
            escrow_monotonic(old(self).escrows@, final(self).escrows@),
    {
        if milestones.len() > 0 && !Self::percentages_sum_to_100(&milestones) {
            return Err(JobMarketplaceError::InvalidMilestonePercentages);
        }
        let mut built: Vec<Milestone> = Vec::new();
        let mut k: usize = 0;
        while k < milestones.len()
            invariant
                k <= milestones@.len(),
                built@.len() == k,
                forall|m: int|
                    0 <= m < k ==> {
                        &&& (#[trigger] built@[m]).milestone_id == m
                        &&& built@[m].payment_percentage == milestones@[m].payment_percentage
                        &&& built@[m].status == MilestoneStatus::Pending
                        &&& built@[m].due_date == milestones@[m].due_date
                    },
            decreases milestones@.len() - k,
        {
            let input = milestones[k];
            built.push(
                Milestone {
                    milestone_id: k as u64,
                    payment_percentage: input.payment_percentage,
                    status: MilestoneStatus::Pending,
                    due_date: input.due_date,
                },
            );
            k += 1;
        }
        let job_id = self.next_job_id;
        let job = Job {
            id: job_id,
            client: caller,
            title,
            description,
            category,
            tags,
            payment,
            accepted_bid_amount: None,
            agent: None,
            bids: Vec::new(),
            milestones: built,
            escrow_reference: None,
            deadline,
            status: JobStatus::Posted,
            created_at: now,
        };
        self.jobs.push(job);
        self.next_job_id = job_id + 1;
        proof {
            let pre = *old(self);
            let post = *self;
            let i = pre.jobs@.len() as int;
            assert forall|t: int| 0 <= t < post.jobs@.len() implies #[trigger] post.wf_job(t) by {
                if t < i {
                    assert(pre.wf_job(t));
                    assert(post.jobs@[t] == pre.jobs@[t]);
                } else {
                    let j = post.jobs@[i];
                    if j.milestones@.len() > 0 {
                        lemma_sums_agree(j.milestones@, milestones@);
                    }
                }
            }
            JobMarketplace::lemma_wf_escrows_stable(pre, post);
            JobMarketplace::lemma_wf_disputes_stable(pre, post);
            JobMarketplace::lemma_wf_ratings_stable(pre, post);
            JobMarketplace::lemma_wf_messages_stable(pre, post);
            JobMarketplace::lemma_wf_agents_stable(pre, post);
        }
        Ok(job_id)
    }

    /// Cancel a job that is still `Posted`. Only the client may cancel, and
    /// only before a bid has been accepted.
    pub fn cancel_job(&mut self, caller: u64, job_id: u64) -> (r: Result<(), JobMarketplaceError>)
        requires
            old(self).wf(),
        ensures
            final(self).wf(),
            r == cancel_job_result(*old(self), caller, job_id),
            r is Err ==> *final(self) == *old(self),
            r is Ok ==> {
                let j = old(self).job(job_id);
                final(self).jobs@ == old(self).jobs@.update(
                    job_id - 1,
                    (Job { status: JobStatus::Cancelled, ..j }),
                )
            },
            final(self).agents == old(self).agents,
            final(self).ratings == old(self).ratings,
            final(self).disputes == old(self).disputes,
            final(self).escrows == old(self).escrows,
            final(self).messages == old(self).messages,
            final(self).next_job_id == old(self).next_job_id,
            final(self).next_rating_id == old(self).next_rating_id,
            final(self).next_dispute_id == old(self).next_dispute_id,
            final(self).next_message_id == old(self).next_message_id,
            escrow_monotonic(old(self).escrows@, final(self).escrows@),
    {
        if job_id < 1 || job_id > self.jobs.len() as u64 {
            return Err(JobMarketplaceError::JobNotFound(job_id));
        }
        let i = (job_id - 1) as usize;
        if self.jobs[i].client != caller {
            return Err(JobMarketplaceError::NotAuthorized);
        }
        if !matches!(self.jobs[i].status, JobStatus::Posted) {
            return Err(JobMarketplaceError::InvalidStatus);
        }
        let j = &mut self.jobs[i];
        j.status = JobStatus::Cancelled;
        proof {
            let pre = *old(self);
            let post = *self;
            assert forall|t: int| 0 <= t < post.jobs@.len() implies #[trigger] post.wf_job(t) by {
                assert(pre.wf_job(t));
            }
            // no escrow record can reference a job that was still `Posted`
            assert forall|e: int| 0 <= e < post.escrows@.len() implies #[trigger] post.wf_escrow(
                e,
            ) by {
                assert(pre.wf_escrow(e));
                assert(pre.job(pre.escrows@[e].job_id).status != JobStatus::Posted);
            }
            // no unresolved dispute can reference a job that was still `Posted`
            assert forall|d: int| 0 <= d < post.disputes@.len() implies #[trigger] post.wf_dispute(
                d,
            ) by {
                assert(pre.wf_dispute(d));
            }
            // no rating can reference a job that was still `Posted`
            assert forall|t: int| 0 <= t < post.ratings@.len() implies #[trigger] post.wf_rating(
                t,
            ) by {
                assert(pre.wf_rating(t));
            }
            JobMarketplace::lemma_wf_agents_stable(pre, post);
            JobMarketplace::lemma_wf_messages_stable(pre, post);
        }
        Ok(())
    }

    /// Accept the bid from `agent` at exactly `amount` on a posted job.
    /// Only the client may accept. On success an escrow record is created,
    /// locked at the bid amount; the agent is bound; the job moves to
    /// `InProgress`; and the first declared milestone, if any, starts.
    pub fn accept_bid(
        &mut self,
        caller: u64,
        job_id: u64,
        agent: u64,
        amount: u64,
        now: u64,
    ) -> (r: Result<(), JobMarketplaceError>)
        requires
            old(self).wf(),
        ensures
            final(self).wf(),
            r == accept_bid_result(*old(self), caller, job_id, agent, amount),
            r is Err ==> *final(self) == *old(self),
            r is Ok ==> {
                let pre_j = old(self).job(job_id);
                let post_j = final(self).job(job_id);
                &&& final(self).jobs@ == old(self).jobs@.update(job_id - 1, post_j)
                &&& final(self).escrows@ == old(self).escrows@.push(
                    (EscrowRecord {
                        job_id: job_id,
                        client: pre_j.client,
                        agent: agent,
                        amount: amount,
                        status: EscrowStatus::Locked,
                        locked_at: now,
                        released_at: None,
                    }),
                )
                &&& post_j.status == JobStatus::InProgress
                &&& post_j.agent == Some(agent)
                &&& post_j.accepted_bid_amount == Some(amount)
                &&& post_j.escrow_reference == Some(old(self).escrows@.len() as u64)
                &&& post_j.milestones@.len() == pre_j.milestones@.len()
                &&& (pre_j.milestones@.len() > 0 ==> post_j.milestones@ == pre_j.milestones@.update(
                    0,
                    (Milestone { status: MilestoneStatus::InProgress, ..pre_j.milestones@[0] }),
                ))
                &&& (pre_j.milestones@.len() == 0 ==> post_j.milestones == pre_j.milestones)
                &&& post_j == (Job {
                    status: post_j.status,
                    agent: post_j.agent,
                    accepted_bid_amount: post_j.accepted_bid_amount,
                    escrow_reference: post_j.escrow_reference,
                    milestones: post_j.milestones,
                    ..pre_j
                })
            },
            r is Err ==> final(self).escrows == old(self).escrows,
            final(self).agents == old(self).agents,
            final(self).ratings == old(self).ratings,
            final(self).disputes == old(self).disputes,
            final(self).messages == old(self).messages,
            final(self).next_job_id == old(self).next_job_id,
            final(self).next_rating_id == old(self).next_rating_id,
            final(self).next_dispute_id == old(self).next_dispute_id,
            final(self).next_message_id == old(self).next_message_id,
            escrow_monotonic(old(self).escrows@, final(self).escrows@),
    {
        if job_id < 1 || job_id > self.jobs.len() as u64 {
            return Err(JobMarketplaceError::JobNotFound(job_id));
        }
        let i = (job_id - 1) as usize;
        if self.jobs[i].client != caller {
            return Err(JobMarketplaceError::NotAuthorized);
        }
        if !matches!(self.jobs[i].status, JobStatus::Posted) {
            return Err(JobMarketplaceError::InvalidStatus);
        }
        let bid_idx = match Self::find_bid_at(&self.jobs[i].bids, agent, amount) {
            None => {
                return Err(JobMarketplaceError::BidNotFound);
            },
            Some(b) => b,
        };
        let e_idx = self.escrows.len() as u64;
        let client = self.jobs[i].client;
        self.escrows.push(
            EscrowRecord {
                job_id,
                client,
                agent,
                amount,
                status: EscrowStatus::Locked,
                locked_at: now,
                released_at: None,
            },
        );
        let j = &mut self.jobs[i];
        j.status = JobStatus::InProgress;
        j.agent = Some(agent);
        j.accepted_bid_amount = Some(amount);
        j.escrow_reference = Some(e_idx);
        if j.milestones.len() > 0 {
            let m = &mut j.milestones[0];
            m.status = MilestoneStatus::InProgress;
        }
        proof {
            let pre = *old(self);
            let post = *self;
            let jid = i as int;
            assert(pre.wf_job(jid));
            assert(post.wf_job(jid)) by {
                if post.jobs@[jid].milestones@.len() > 0 {
                    lemma_sum_same_percentages(
                        post.jobs@[jid].milestones@,
                        pre.jobs@[jid].milestones@,
                    );
                }
                // the accepted bidder is a registered agent
                assert(pre.jobs@[jid].bids@[bid_idx as int].agent == agent);
            }
            assert forall|t: int| 0 <= t < post.jobs@.len() implies #[trigger] post.wf_job(t) by {
                if t != jid {
                    assert(pre.wf_job(t));
                }
            }
            // no pre-existing escrow record can reference this job: it was
            // still `Posted`
            assert forall|e: int| 0 <= e < post.escrows@.len() implies #[trigger] post.wf_escrow(
                e,
            ) by {
                if e < pre.escrows@.len() {
                    assert(pre.wf_escrow(e));
                    assert(pre.escrows@[e].job_id != job_id);
                }
            }
            assert forall|e1: int, e2: int|
                0 <= e1 < e2 < post.escrows@.len() implies (#[trigger] post.escrows@[e1]).job_id
                != (#[trigger] post.escrows@[e2]).job_id by {
                if e2 < pre.escrows@.len() {
                    assert(pre.wf_escrows());
                } else {
                    assert(pre.wf_escrow(e1));
                }
            }
            // no unresolved dispute and no rating can reference a job that
            // was still `Posted`
            assert forall|d: int| 0 <= d < post.disputes@.len() implies #[trigger] post.wf_dispute(
                d,
            ) by {
                assert(pre.wf_dispute(d));
            }
            assert forall|t: int| 0 <= t < post.ratings@.len() implies #[trigger] post.wf_rating(
                t,
            ) by {
                assert(pre.wf_rating(t));
            }
            JobMarketplace::lemma_wf_agents_stable(pre, post);
            JobMarketplace::lemma_wf_messages_stable(pre, post);
        }
        Ok(())
    }
}

} // verus!
