//! The bid book: placing, withdrawing and looking up bids on a posted job.

use vstd::prelude::*;

use crate::seq_helpers::find_by;
use crate::seq_helpers::lemma_find_by_is_first;
use crate::state::escrow_monotonic;
use crate::state::is_registered;
use crate::state::JobMarketplace;
use crate::types::Bid;
use crate::types::Job;
use crate::types::JobMarketplaceError;
use crate::types::JobStatus;

verus! {

/// Whether `agent` has a live bid in `bids`.
pub open spec fn has_bid(bids: Seq<Bid>, agent: u64) -> bool {
    exists|k: int| 0 <= k < bids.len() && bids[k].agent == agent
}

/// Whether `agent` has a live bid at exactly `amount`.
pub open spec fn has_bid_at(bids: Seq<Bid>, agent: u64, amount: u64) -> bool {
    exists|k: int| 0 <= k < bids.len() && bids[k].agent == agent && bids[k].amount == amount
}

/// The bid `place_bid` appends.
pub open spec fn new_bid(
    caller: u64,
    bid_id: u64,
    amount: u64,
    proposal: String,
    estimated_days: u64,
    now: u64,
) -> Bid {
    Bid {
        agent: caller,
        bid_id: bid_id,
        amount: amount,
        proposal: proposal,
        estimated_days: estimated_days,
        timestamp: now,
    }
}

/// Outcome of `place_bid` on a given state: the position-based bid
/// identifier, or the first failing check in order.
pub open spec fn place_bid_result(
    s: JobMarketplace,
    caller: u64,
    job_id: u64,
    amount: u64,
    now: u64,
) -> Result<u64, JobMarketplaceError> {
    if !is_registered(s.agents@, caller) {
        Err(JobMarketplaceError::AgentNotRegistered)
    } else if !s.job_id_ok(job_id) {
        Err(JobMarketplaceError::JobNotFound(job_id))
    } else if s.job(job_id).status != JobStatus::Posted {
        Err(JobMarketplaceError::InvalidStatus)
    } else if s.job(job_id).client == caller {
        Err(JobMarketplaceError::CannotBidOwnJob)
    } else if has_bid(s.job(job_id).bids@, caller) {
        Err(JobMarketplaceError::AlreadyBid)
    } else if amount == 0 {
        Err(JobMarketplaceError::InvalidAmount)
    } else if s.job(job_id).deadline matches Some(d) && now > d {
        Err(JobMarketplaceError::DeadlinePassed)
    } else {
        Ok(s.job(job_id).bids@.len() as u64)
    }
}

/// Outcome of `withdraw_bid` on a given state.
pub open spec fn withdraw_bid_result(s: JobMarketplace, caller: u64, job_id: u64) -> Result<
    (),
    JobMarketplaceError,
> {
    if !s.job_id_ok(job_id) {
        Err(JobMarketplaceError::JobNotFound(job_id))
    } else if s.job(job_id).status != JobStatus::Posted {
        Err(JobMarketplaceError::InvalidStatus)
    } else if !has_bid(s.job(job_id).bids@, caller) {
        Err(JobMarketplaceError::BidNotFound)
    } else {
        Ok(())
    }
}

impl JobMarketplace {
    /// Index of the live bid by `agent`, if any.
    pub fn find_bid(bids: &Vec<Bid>, agent: u64) -> (r: Option<usize>)
        ensures
            match r {
                Some(b) => b < bids@.len() && bids@[b as int].agent == agent && b == find_by(
                    bids@,
                    |x: Bid| x.agent == agent,
                ),
                None => !has_bid(bids@, agent),
            },
    {
        let mut k: usize = 0;
        while k < bids.len()
            invariant
                k <= bids@.len(),
                forall|t: int| 0 <= t < k ==> (#[trigger] bids@[t]).agent != agent,
            decreases bids@.len() - k,
        {
            if bids[k].agent == agent {
                proof {
                    lemma_find_by_is_first(bids@, |x: Bid| x.agent == agent, k as int);
                }
                return Some(k);
            }
            k += 1;
        }
        None
    }

    /// Index of the live bid by `agent` at exactly `amount`, if any.
    pub fn find_bid_at(bids: &Vec<Bid>, agent: u64, amount: u64) -> (r: Option<usize>)
        ensures
            match r {
                Some(b) => b < bids@.len() && bids@[b as int].agent == agent
                    && bids@[b as int].amount == amount,
                None => !has_bid_at(bids@, agent, amount),
            },
    {
        let mut k: usize = 0;
        while k < bids.len()
            invariant
                k <= bids@.len(),
                forall|t: int|
                    0 <= t < k ==> !((#[trigger] bids@[t]).agent == agent && bids@[t].amount
                        == amount),
            decreases bids@.len() - k,
        {
            if bids[k].agent == agent && bids[k].amount == amount {
                return Some(k);
            }
            k += 1;
        }
        None
    }

    /// Place a bid on a posted job. The checks run in a fixed order:
    /// registration, job existence, job status, own-job, one-bid-per-agent,
    /// non-zero amount, deadline. On success the bid is appended, with its
    /// current position as its identifier.
    pub fn place_bid(
        &mut self,
        caller: u64,
        job_id: u64,
        amount: u64,
        proposal: String,
        estimated_days: u64,
        now: u64,
    ) -> (r: Result<u64, JobMarketplaceError>)
        requires
            old(self).wf(),
        ensures
            final(self).wf(),
            r == place_bid_result(*old(self), caller, job_id, amount, now),
            r is Err ==> *final(self) == *old(self),
            r is Ok ==> {
                let pre_j = old(self).job(job_id);
                let post_j = final(self).job(job_id);
                &&& final(self).jobs@ == old(self).jobs@.update(job_id - 1, post_j)
                &&& post_j.bids@ == pre_j.bids@.push(
                    new_bid(caller, pre_j.bids@.len() as u64, amount, proposal, estimated_days, now),
                )
                &&& post_j == (Job { bids: post_j.bids, ..pre_j })
            },
            final(self).agents == old(self).agents,
            final(self).ratings == old(self).ratings,
            final(self).disputes == old(self).disputes,
            final(self).escrows == old(self).escrows,
            final(self).messages == old(self).messages,
            final(self).next_job_id == old(self).next_job_id,
            final(self).next_rating_id == old(self).next_rating_id,
            final(self).next_dispute_id == old(self).next_dispute_id,
            final(self).next_message_id == old(self).next_message_id,
            escrow_monotonic(old(self).escrows@, final(self).escrows@),
    {
        if self.find_agent(caller).is_none() {
            return Err(JobMarketplaceError::AgentNotRegistered);
        }
        if job_id < 1 || job_id > self.jobs.len() as u64 {
            return Err(JobMarketplaceError::JobNotFound(job_id));
        }
        let i = (job_id - 1) as usize;
        if !matches!(self.jobs[i].status, JobStatus::Posted) {
            return Err(JobMarketplaceError::InvalidStatus);
        }
        if self.jobs[i].client == caller {
            return Err(JobMarketplaceError::CannotBidOwnJob);
        }
        if Self::find_bid(&self.jobs[i].bids, caller).is_some() {
            return Err(JobMarketplaceError::AlreadyBid);
        }
        if amount == 0 {
            return Err(JobMarketplaceError::InvalidAmount);
        }
        if let Some(d) = self.jobs[i].deadline {
            if now > d {
                return Err(JobMarketplaceError::DeadlinePassed);
            }
        }
        let j = &mut self.jobs[i];
        let bid_id = j.bids.len() as u64;
        j.bids.push(
            Bid { agent: caller, bid_id, amount, proposal, estimated_days, timestamp: now },
        );
        proof {
            let pre = *old(self);
            let post = *self;
            assert(post.wf_job(i as int)) by {
                assert(pre.wf_job(i as int));
            }
            JobMarketplace::lemma_wf_one_job_changed(pre, post, i as int);
        }
        Ok(bid_id)
    }

    /// Withdraw the caller's live bid on a posted job; the remaining bids
    /// keep their order. Afterwards the caller has no live bid on the job.
    pub fn withdraw_bid(&mut self, caller: u64, job_id: u64) -> (r: Result<
        (),
        JobMarketplaceError,
    >)
        requires
            old(self).wf(),
        ensures
            final(self).wf(),
            r == withdraw_bid_result(*old(self), caller, job_id),
            r is Err ==> *final(self) == *old(self),
            r is Ok ==> {
                let pre_j = old(self).job(job_id);
                let post_j = final(self).job(job_id);
                &&& final(self).jobs@ == old(self).jobs@.update(job_id - 1, post_j)
                &&& post_j.bids@ == pre_j.bids@.remove(find_by(pre_j.bids@, |x: Bid| x.agent == caller))
                &&& post_j.bids@.len() == pre_j.bids@.len() - 1
                &&& !has_bid(post_j.bids@, caller)
                &&& post_j == (Job { bids: post_j.bids, ..pre_j })
            },
            final(self).agents == old(self).agents,
            final(self).ratings == old(self).ratings,
            final(self).disputes == old(self).disputes,
            final(self).escrows == old(self).escrows,
            final(self).messages == old(self).messages,
            final(self).next_job_id == old(self).next_job_id,
            final(self).next_rating_id == old(self).next_rating_id,
            final(self).next_dispute_id == old(self).next_dispute_id,
            final(self).next_message_id == old(self).next_message_id,
            escrow_monotonic(old(self).escrows@, final(self).escrows@),
    {
        if job_id < 1 || job_id > self.jobs.len() as u64 {
            return Err(JobMarketplaceError::JobNotFound(job_id));
        }
        let i = (job_id - 1) as usize;
        if !matches!(self.jobs[i].status, JobStatus::Posted) {
            return Err(JobMarketplaceError::InvalidStatus);
        }
        let idx = match Self::find_bid(&self.jobs[i].bids, caller) {
            None => {
                return Err(JobMarketplaceError::BidNotFound);
            },
            Some(idx) => idx,
        };
        let j = &mut self.jobs[i];
        j.bids.remove(idx);
        proof {
            let pre = *old(self);
            let post = *self;
            let pre_bids = pre.jobs@[i as int].bids@;
            let post_bids = post.jobs@[i as int].bids@;
            assert(pre.wf_job(i as int));
            // the withdrawn bid was the agent's only one, so none is left
            assert forall|k: int| 0 <= k < post_bids.len() implies (#[trigger] post_bids[k]).agent
                != caller by {
                if k < idx {
                    assert(post_bids[k] == pre_bids[k]);
                } else {
                    assert(post_bids[k] == pre_bids[k + 1]);
                }
            }
            assert(post.wf_job(i as int));
            JobMarketplace::lemma_wf_one_job_changed(pre, post, i as int);
        }
        Ok(())
    }
}

} // verus!
