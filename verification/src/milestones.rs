//! Milestone-gated delivery: submitting, approving and rejecting
//! milestones, and completing a job with payout bookkeeping.

use vstd::prelude::*;

use crate::seq_helpers::find_by;
use crate::seq_helpers::lemma_find_by_is_first;
use crate::seq_helpers::lemma_find_by_none;
use crate::state::escrow_monotonic;
use crate::state::lemma_sum_same_percentages;
use crate::state::JobMarketplace;
use crate::types::AgentProfile;
use crate::types::EscrowRecord;
use crate::types::EscrowStatus;
use crate::types::Job;
use crate::types::JobMarketplaceError;
use crate::types::JobStatus;
use crate::types::Milestone;
use crate::types::MilestoneStatus;

verus! {

/// Every milestone has been approved.
pub open spec fn all_approved(ms: Seq<Milestone>) -> bool {
    forall|m: int| 0 <= m < ms.len() ==> (#[trigger] ms[m]).status == MilestoneStatus::Approved
}

/// The defined running average after one more completed job, each
/// completion counting as a full success: the previous average weighted by
/// the earlier completions, plus 100 for the new one, divided by the new
/// count (integer division).
pub open spec fn success_rate_after(old_rate: u64, completed: u64) -> int
    recommends
        completed >= 1,
{
    (old_rate * (completed - 1) + 100) / (completed as int)
}

/// Index of the profile owned by `owner`.
pub open spec fn agent_index(agents: Seq<AgentProfile>, owner: u64) -> int {
    find_by(agents, |p: AgentProfile| p.owner == owner)
}

/// The completion counter of the agent bound to `job_id` has room to
/// grow. This is a machine limit, not a rule of the marketplace.
pub open spec fn completion_counter_fits(s: JobMarketplace, job_id: u64) -> bool {
    (s.job_id_ok(job_id) && s.job(job_id).agent is Some) ==> {
        let idx = agent_index(s.agents@, s.job(job_id).agent->0);
        0 <= idx < s.agents@.len() ==> s.agents@[idx].jobs_completed < u64::MAX
    }
}

/// Outcome of `submit_milestone` on a given state.
pub open spec fn submit_milestone_result(
    s: JobMarketplace,
    caller: u64,
    job_id: u64,
    milestone_id: u64,
) -> Result<(), JobMarketplaceError> {
    if !s.job_id_ok(job_id) {
        Err(JobMarketplaceError::JobNotFound(job_id))
    } else if s.job(job_id).agent != Some(caller) {
        Err(JobMarketplaceError::NotAuthorized)
    } else if s.job(job_id).status != JobStatus::InProgress {
        Err(JobMarketplaceError::InvalidStatus)
    } else if milestone_id >= s.job(job_id).milestones@.len() {
        Err(JobMarketplaceError::MilestoneNotFound)
    } else if s.job(job_id).milestones@[milestone_id as int].status != MilestoneStatus::InProgress {
        Err(JobMarketplaceError::InvalidStatus)
    } else {
        Ok(())
    }
}

/// Outcome of `approve_milestone` on a given state.
pub open spec fn approve_milestone_result(
    s: JobMarketplace,
    caller: u64,
    job_id: u64,
    milestone_id: u64,
) -> Result<(), JobMarketplaceError> {
    if !s.job_id_ok(job_id) {
        Err(JobMarketplaceError::JobNotFound(job_id))
    } else if s.job(job_id).client != caller {
        Err(JobMarketplaceError::NotAuthorized)
    } else if s.job(job_id).status != JobStatus::PendingApproval {
        Err(JobMarketplaceError::InvalidStatus)
    } else if milestone_id >= s.job(job_id).milestones@.len() {
        Err(JobMarketplaceError::MilestoneNotFound)
    } else if s.job(job_id).milestones@[milestone_id as int].status != MilestoneStatus::Submitted {
        Err(JobMarketplaceError::InvalidStatus)
    } else {
        Ok(())
    }
}

/// Outcome of `request_revision` on a given state: the same checks as
/// approval, with rejection as the effect.
pub open spec fn request_revision_result(
    s: JobMarketplace,
    caller: u64,
    job_id: u64,
    milestone_id: u64,
) -> Result<(), JobMarketplaceError> {
    approve_milestone_result(s, caller, job_id, milestone_id)
}

/// Outcome of `complete_job` on a given state.
pub open spec fn complete_job_result(s: JobMarketplace, caller: u64, job_id: u64) -> Result<
    (),
    JobMarketplaceError,
> {
    if !s.job_id_ok(job_id) {
        Err(JobMarketplaceError::JobNotFound(job_id))
    } else if s.job(job_id).client != caller {
        Err(JobMarketplaceError::NotAuthorized)
    } else if !(s.job(job_id).status == JobStatus::InProgress || s.job(job_id).status
        == JobStatus::PendingApproval) {
        Err(JobMarketplaceError::InvalidStatus)
    } else {
        Ok(())
    }
}

/// The profile after one more completed job.
pub open spec fn profile_after_completion(p: AgentProfile) -> AgentProfile
    recommends
        p.jobs_completed < u64::MAX,
{
    AgentProfile {
        jobs_completed: (p.jobs_completed + 1) as u64,
        success_rate: success_rate_after(p.success_rate, (p.jobs_completed + 1) as u64) as u64,
        ..p
    }
}

/// The escrow record after a full release.
pub open spec fn released_record(r: EscrowRecord, now: u64) -> EscrowRecord {
    EscrowRecord { status: EscrowStatus::Released, released_at: Some(now), ..r }
}

/// What both completion paths (direct completion and approval of the last
/// milestone) do beyond the job's own fields: the escrow is released with
/// the release time stamped, and the bound agent's completion counter and
/// running success rate move forward.
pub open spec fn completion_bookkeeping(
    pre: JobMarketplace,
    post: JobMarketplace,
    job_id: u64,
    now: u64,
) -> bool {
    let e = pre.job(job_id).escrow_reference->0;
    let a = agent_index(pre.agents@, pre.job(job_id).agent->0);
    &&& post.escrows@ == pre.escrows@.update(e as int, released_record(pre.escrows@[e as int], now))
    &&& post.agents@ == pre.agents@.update(a, profile_after_completion(pre.agents@[a]))
}

/// The invariant survives either completion path: the job moves to
/// `Completed` with every milestone approved, its locked escrow is
/// released, and the bound agent's counters move forward.
proof fn lemma_completion_wf(pre: JobMarketplace, post: JobMarketplace, i: int, now: u64)
    requires
        pre.wf(),
        0 <= i < pre.jobs@.len(),
        pre.jobs@[i].status == JobStatus::InProgress || pre.jobs@[i].status
            == JobStatus::PendingApproval,
        post.jobs@ == pre.jobs@.update(i, post.jobs@[i]),
        post.jobs@[i] == (Job {
            status: JobStatus::Completed,
            milestones: post.jobs@[i].milestones,
            ..pre.jobs@[i]
        }),
        post.jobs@[i].milestones@.len() == pre.jobs@[i].milestones@.len(),
        forall|m: int|
            0 <= m < post.jobs@[i].milestones@.len() ==> (#[trigger] post.jobs@[i].milestones@[m])
                == (Milestone { status: MilestoneStatus::Approved, ..pre.jobs@[i].milestones@[m] }),
        post.escrows@ == pre.escrows@.update(
            pre.jobs@[i].escrow_reference->0 as int,
            released_record(pre.escrows@[pre.jobs@[i].escrow_reference->0 as int], now),
        ),
        0 <= agent_index(pre.agents@, pre.jobs@[i].agent->0) < pre.agents@.len(),
        pre.agents@[agent_index(pre.agents@, pre.jobs@[i].agent->0)].owner == pre.jobs@[i].agent->0,
        post.agents@ == pre.agents@.update(
            agent_index(pre.agents@, pre.jobs@[i].agent->0),
            profile_after_completion(pre.agents@[agent_index(pre.agents@, pre.jobs@[i].agent->0)]),
        ),
        post.agents@[agent_index(pre.agents@, pre.jobs@[i].agent->0)].success_rate <= 100,
        post.ratings == pre.ratings,
        post.disputes == pre.disputes,
        post.messages == pre.messages,
        post.next_job_id == pre.next_job_id,
        post.next_rating_id == pre.next_rating_id,
        post.next_dispute_id == pre.next_dispute_id,
        post.next_message_id == pre.next_message_id,
    ensures
        post.wf(),
{
    let e = pre.jobs@[i].escrow_reference->0 as int;
    assert(pre.wf_job(i));
    assert forall|t: int| 0 <= t < post.jobs@.len() implies #[trigger] post.wf_job(t) by {
        assert(pre.wf_job(t));
        let j = post.jobs@[t];
        assert forall|b: int| 0 <= b < j.bids@.len() implies crate::state::is_registered(
            post.agents@,
            (#[trigger] j.bids@[b]).agent,
        ) by {
            crate::agents::lemma_registered_preserved(pre.agents@, post.agents@, j.bids@[b].agent);
        }
        if j.agent is Some {
            crate::agents::lemma_registered_preserved(pre.agents@, post.agents@, j.agent->0);
        }
        if t == i {
            lemma_sum_same_percentages(post.jobs@[i].milestones@, pre.jobs@[i].milestones@);
        } else {
            // this job's escrow record is a different one: records carry
            // distinct job identifiers
            if pre.jobs@[t].escrow_reference is Some {
                let et = pre.jobs@[t].escrow_reference->0 as int;
                assert(pre.escrows@[et].job_id == t + 1);
                assert(pre.escrows@[e].job_id == i + 1);
            }
        }
    }
    assert forall|t: int| 0 <= t < post.escrows@.len() implies #[trigger] post.wf_escrow(t) by {
        assert(pre.wf_escrow(t));
        if t != e && pre.escrows@[t].job_id == i as u64 + 1 {
            assert(pre.wf_escrows());
            assert(pre.escrows@[e].job_id == i + 1);
        }
    }
    assert forall|d: int| 0 <= d < post.disputes@.len() implies #[trigger] post.wf_dispute(d) by {
        assert(pre.wf_dispute(d));
    }
    assert forall|t: int| 0 <= t < post.ratings@.len() implies #[trigger] post.wf_rating(t) by {
        assert(pre.wf_rating(t));
    }
    assert forall|a: int| 0 <= a < post.agents@.len() implies #[trigger] post.wf_agent(a) by {
        assert(pre.wf_agent(a));
    }
    JobMarketplace::lemma_wf_messages_stable(pre, post);
}

impl JobMarketplace {
    /// Whether every milestone is `Approved`.
    pub fn check_all_approved(ms: &Vec<Milestone>) -> (r: bool)
        ensures
            r == all_approved(ms@),
    {
        let mut k: usize = 0;
        while k < ms.len()
            invariant
                k <= ms@.len(),
                forall|t: int|
                    0 <= t < k ==> (#[trigger] ms@[t]).status == MilestoneStatus::Approved,
            decreases ms@.len() - k,
        {
            if !matches!(ms[k].status, MilestoneStatus::Approved) {
                return false;
            }
            k += 1;
        }
        true
    }

    /// Index of the first `Pending` milestone, if any.
    fn find_pending(ms: &Vec<Milestone>) -> (r: Option<usize>)
        ensures
            match r {
                Some(p) => p < ms@.len() && p == find_by(
                    ms@,
                    |m: Milestone| m.status == MilestoneStatus::Pending,
                ) && ms@[p as int].status == MilestoneStatus::Pending,
                None => find_by(ms@, |m: Milestone| m.status == MilestoneStatus::Pending) == -1,
            },
    {
        let mut k: usize = 0;
        while k < ms.len()
            invariant
                k <= ms@.len(),
                forall|t: int|
                    0 <= t < k ==> (#[trigger] ms@[t]).status != MilestoneStatus::Pending,
            decreases ms@.len() - k,
        {
            if matches!(ms[k].status, MilestoneStatus::Pending) {
                proof {
                    lemma_find_by_is_first(
                        ms@,
                        |m: Milestone| m.status == MilestoneStatus::Pending,
                        k as int,
                    );
                }
                return Some(k);
            }
            k += 1;
        }
        proof {
            lemma_find_by_none(ms@, |m: Milestone| m.status == MilestoneStatus::Pending);
        }
        None
    }

    /// Force every milestone to `Approved`, keeping everything else.
    fn approve_all(ms: &mut Vec<Milestone>)
        ensures
            final(ms)@.len() == old(ms)@.len(),
            forall|t: int|
                0 <= t < old(ms)@.len() ==> (#[trigger] final(ms)@[t]) == (Milestone {
                    status: MilestoneStatus::Approved,
                    ..old(ms)@[t]
                }),
    {
        let mut k: usize = 0;
        while k < ms.len()
            invariant
                k <= ms@.len(),
                ms@.len() == old(ms)@.len(),
                forall|t: int|
                    0 <= t < k ==> (#[trigger] ms@[t]) == (Milestone {
                        status: MilestoneStatus::Approved,
                        ..old(ms)@[t]
                    }),
                forall|t: int| k <= t < ms@.len() ==> (#[trigger] ms@[t]) == old(ms)@[t],
            decreases ms@.len() - k,
        {
            let m = &mut ms[k];
            m.status = MilestoneStatus::Approved;
            k += 1;
        }
    }

    /// Advance one agent profile past a completed job: one more completion,
    /// and the running success average recomputed.
    fn bump_completion(agents: &mut Vec<AgentProfile>, idx: usize)
        requires
            idx < old(agents)@.len(),
            old(agents)@[idx as int].jobs_completed < u64::MAX,
            old(agents)@[idx as int].success_rate <= 100,
        ensures
            final(agents)@ == old(agents)@.update(
                idx as int,
                profile_after_completion(old(agents)@[idx as int]),
            ),
            final(agents)@[idx as int].success_rate <= 100,
    {
        let p = &mut agents[idx];
        let c = p.jobs_completed + 1;
        proof {
            assert((p.success_rate as int) * ((c - 1) as int) + 100 <= u128::MAX)
                by (nonlinear_arith)
                requires
                    p.success_rate <= 100,
                    1 <= c <= u64::MAX,
            ;
        }
        let numer: u128 = (p.success_rate as u128) * ((c - 1) as u128) + 100;
        let rate: u128 = numer / (c as u128);
        proof {
            assert(rate <= 100) by (nonlinear_arith)
                requires
                    numer == (p.success_rate as u128) * ((c - 1) as u128) + 100,
                    rate == numer / (c as u128),
                    p.success_rate <= 100,
                    c >= 1,
            ;
        }
        p.jobs_completed = c;
        p.success_rate = rate as u64;
    }

    /// Submit the active milestone for client review. Only the bound agent
    /// may submit, only while the job is `InProgress`, and only for the
    /// milestone currently `InProgress`; the job then awaits approval.
    pub fn submit_milestone(&mut self, caller: u64, job_id: u64, milestone_id: u64) -> (r: Result<
        (),
        JobMarketplaceError,
    >)
        requires
            old(self).wf(),
        ensures
            final(self).wf(),
            r == submit_milestone_result(*old(self), caller, job_id, milestone_id),
            r is Err ==> *final(self) == *old(self),
            r is Ok ==> {
                let pre_j = old(self).job(job_id);
                let post_j = final(self).job(job_id);
                &&& final(self).jobs@ == old(self).jobs@.update(job_id - 1, post_j)
                &&& post_j.status == JobStatus::PendingApproval
                &&& post_j.milestones@ == pre_j.milestones@.update(
                    milestone_id as int,
                    (Milestone {
                        status: MilestoneStatus::Submitted,
                        ..pre_j.milestones@[milestone_id as int]
                    }),
                )
                &&& post_j == (Job {
                    status: post_j.status,
                    milestones: post_j.milestones,
                    ..pre_j
                })
            },
            final(self).agents == old(self).agents,
            final(self).ratings == old(self).ratings,
            final(self).disputes == old(self).disputes,
            final(self).escrows == old(self).escrows,
            final(self).messages == old(self).messages,
            final(self).next_job_id == old(self).next_job_id,
            final(self).next_rating_id == old(self).next_rating_id,
            final(self).next_dispute_id == old(self).next_dispute_id,
            final(self).next_message_id == old(self).next_message_id,
            escrow_monotonic(old(self).escrows@, final(self).escrows@),
    {
        if job_id < 1 || job_id > self.jobs.len() as u64 {
            return Err(JobMarketplaceError::JobNotFound(job_id));
        }
        let i = (job_id - 1) as usize;
        let authorized = match self.jobs[i].agent {
            Some(a) => a == caller,
            None => false,
        };
        if !authorized {
            return Err(JobMarketplaceError::NotAuthorized);
        }
        if !matches!(self.jobs[i].status, JobStatus::InProgress) {
            return Err(JobMarketplaceError::InvalidStatus);
        }
        if milestone_id >= self.jobs[i].milestones.len() as u64 {
            return Err(JobMarketplaceError::MilestoneNotFound);
        }
        let mid = milestone_id as usize;
        if !matches!(self.jobs[i].milestones[mid].status, MilestoneStatus::InProgress) {
            return Err(JobMarketplaceError::InvalidStatus);
        }
        let m = &mut self.jobs[i].milestones[mid];
        m.status = MilestoneStatus::Submitted;
        let j = &mut self.jobs[i];
        j.status = JobStatus::PendingApproval;
        proof {
            let pre = *old(self);
            let post = *self;
            assert(post.jobs@ =~= pre.jobs@.update(i as int, post.jobs@[i as int]));
            assert(pre.wf_job(i as int));
            assert(post.wf_job(i as int)) by {
                lemma_sum_same_percentages(
                    post.jobs@[i as int].milestones@,
                    pre.jobs@[i as int].milestones@,
                );
            }
            assert forall|t: int| 0 <= t < post.jobs@.len() implies #[trigger] post.wf_job(t) by {
                if t != i as int {
                    assert(pre.wf_job(t));
                }
            }
            assert forall|e: int| 0 <= e < post.escrows@.len() implies #[trigger] post.wf_escrow(
                e,
            ) by {
                assert(pre.wf_escrow(e));
            }
            assert forall|d: int| 0 <= d < post.disputes@.len() implies #[trigger] post.wf_dispute(
                d,
            ) by {
                assert(pre.wf_dispute(d));
            }
            assert forall|t: int| 0 <= t < post.ratings@.len() implies #[trigger] post.wf_rating(
                t,
            ) by {
                assert(pre.wf_rating(t));
            }
            JobMarketplace::lemma_wf_agents_stable(pre, post);
            JobMarketplace::lemma_wf_messages_stable(pre, post);
        }
        Ok(())
    }

    /// Reject the submitted milestone and hand the job back to the agent.
    /// Only the client may request a revision, and only for a milestone
    /// awaiting approval. The milestone is not re-activated by this call.
    pub fn request_revision(&mut self, caller: u64, job_id: u64, milestone_id: u64) -> (r: Result<
        (),
        JobMarketplaceError,
    >)
        requires
            old(self).wf(),
        ensures
            final(self).wf(),
            r == request_revision_result(*old(self), caller, job_id, milestone_id),
            r is Err ==> *final(self) == *old(self),
            r is Ok ==> {
                let pre_j = old(self).job(job_id);
                let post_j = final(self).job(job_id);
                &&& final(self).jobs@ == old(self).jobs@.update(job_id - 1, post_j)
                &&& post_j.status == JobStatus::InProgress
                &&& post_j.milestones@ == pre_j.milestones@.update(
                    milestone_id as int,
                    (Milestone {
                        status: MilestoneStatus::Rejected,
                        ..pre_j.milestones@[milestone_id as int]
                    }),
                )
                &&& post_j == (Job {
                    status: post_j.status,
                    milestones: post_j.milestones,
                    ..pre_j
                })
            },
            final(self).agents == old(self).agents,
            final(self).ratings == old(self).ratings,
            final(self).disputes == old(self).disputes,
            final(self).escrows == old(self).escrows,
            final(self).messages == old(self).messages,
            final(self).next_job_id == old(self).next_job_id,
            final(self).next_rating_id == old(self).next_rating_id,
            final(self).next_dispute_id == old(self).next_dispute_id,
            final(self).next_message_id == old(self).next_message_id,
            escrow_monotonic(old(self).escrows@, final(self).escrows@),
    {
        if job_id < 1 || job_id > self.jobs.len() as u64 {
            return Err(JobMarketplaceError::JobNotFound(job_id));
        }
        let i = (job_id - 1) as usize;
        if self.jobs[i].client != caller {
            return Err(JobMarketplaceError::NotAuthorized);
        }
        if !matches!(self.jobs[i].status, JobStatus::PendingApproval) {
            return Err(JobMarketplaceError::InvalidStatus);
        }
        if milestone_id >= self.jobs[i].milestones.len() as u64 {
            return Err(JobMarketplaceError::MilestoneNotFound);
        }
        let mid = milestone_id as usize;
        if !matches!(self.jobs[i].milestones[mid].status, MilestoneStatus::Submitted) {
            return Err(JobMarketplaceError::InvalidStatus);
        }
        let m = &mut self.jobs[i].milestones[mid];
        m.status = MilestoneStatus::Rejected;
        let j = &mut self.jobs[i];
        j.status = JobStatus::InProgress;
        proof {
            let pre = *old(self);
            let post = *self;
            assert(post.jobs@ =~= pre.jobs@.update(i as int, post.jobs@[i as int]));
            assert(pre.wf_job(i as int));
            assert(post.wf_job(i as int)) by {
                lemma_sum_same_percentages(
                    post.jobs@[i as int].milestones@,
                    pre.jobs@[i as int].milestones@,
                );
            }
            assert forall|t: int| 0 <= t < post.jobs@.len() implies #[trigger] post.wf_job(t) by {
                if t != i as int {
                    assert(pre.wf_job(t));
                }
            }
            assert forall|e: int| 0 <= e < post.escrows@.len() implies #[trigger] post.wf_escrow(
                e,
            ) by {
                assert(pre.wf_escrow(e));
            }
            assert forall|d: int| 0 <= d < post.disputes@.len() implies #[trigger] post.wf_dispute(
                d,
            ) by {
                assert(pre.wf_dispute(d));
            }
            assert forall|t: int| 0 <= t < post.ratings@.len() implies #[trigger] post.wf_rating(
                t,
            ) by {
                assert(pre.wf_rating(t));
            }
            JobMarketplace::lemma_wf_agents_stable(pre, post);
            JobMarketplace::lemma_wf_messages_stable(pre, post);
        }
        Ok(())
    }

    /// Approve the submitted milestone. Only the client may approve, while
    /// the job awaits approval. If every milestone is now approved the job
    /// completes: the escrow is released and the agent's completion counter
    /// and running success rate move forward. Otherwise the earliest
    /// `Pending` milestone, if any, starts, and the job returns to
    /// `InProgress`.
    pub fn approve_milestone(
        &mut self,
        caller: u64,
        job_id: u64,
        milestone_id: u64,
        now: u64,
    ) -> (r: Result<(), JobMarketplaceError>)
        requires
            old(self).wf(),
            completion_counter_fits(*old(self), job_id),
        ensures
            final(self).wf(),
            r == approve_milestone_result(*old(self), caller, job_id, milestone_id),
            r is Err ==> *final(self) == *old(self),
            r is Ok ==> {
                let pre_j = old(self).job(job_id);
                let post_j = final(self).job(job_id);
                let ms1 = pre_j.milestones@.update(
                    milestone_id as int,
                    (Milestone {
                        status: MilestoneStatus::Approved,
                        ..pre_j.milestones@[milestone_id as int]
                    }),
                );
                &&& final(self).jobs@ == old(self).jobs@.update(job_id - 1, post_j)
                &&& post_j == (Job {
                    status: post_j.status,
                    milestones: post_j.milestones,
                    ..pre_j
                })
                &&& post_j.milestones@.len() == pre_j.milestones@.len()
                &&& post_j.milestones@[milestone_id as int].status == MilestoneStatus::Approved
                &&& if all_approved(ms1) {
                    &&& post_j.status == JobStatus::Completed
                    &&& post_j.milestones@ == ms1
                    &&& completion_bookkeeping(*old(self), *final(self), job_id, now)
                } else {
                    let p = find_by(ms1, |m: Milestone| m.status == MilestoneStatus::Pending);
                    &&& post_j.status == JobStatus::InProgress
                    &&& (p >= 0 ==> post_j.milestones@ == ms1.update(
                        p,
                        (Milestone { status: MilestoneStatus::InProgress, ..ms1[p] }),
                    ))
                    &&& (p == -1 ==> post_j.milestones@ == ms1)
                    &&& final(self).escrows == old(self).escrows
                    &&& final(self).agents == old(self).agents
                }
            },
            final(self).ratings == old(self).ratings,
            final(self).disputes == old(self).disputes,
            final(self).messages == old(self).messages,
            final(self).next_job_id == old(self).next_job_id,
            final(self).next_rating_id == old(self).next_rating_id,
            final(self).next_dispute_id == old(self).next_dispute_id,
            final(self).next_message_id == old(self).next_message_id,
            escrow_monotonic(old(self).escrows@, final(self).escrows@),
    {
        if job_id < 1 || job_id > self.jobs.len() as u64 {
            return Err(JobMarketplaceError::JobNotFound(job_id));
        }
        let i = (job_id - 1) as usize;
        if self.jobs[i].client != caller {
            return Err(JobMarketplaceError::NotAuthorized);
        }
        if !matches!(self.jobs[i].status, JobStatus::PendingApproval) {
            return Err(JobMarketplaceError::InvalidStatus);
        }
        if milestone_id >= self.jobs[i].milestones.len() as u64 {
            return Err(JobMarketplaceError::MilestoneNotFound);
        }
        let mid = milestone_id as usize;
        if !matches!(self.jobs[i].milestones[mid].status, MilestoneStatus::Submitted) {
            return Err(JobMarketplaceError::InvalidStatus);
        }
        let m = &mut self.jobs[i].milestones[mid];
        m.status = MilestoneStatus::Approved;
        if Self::check_all_approved(&self.jobs[i].milestones) {
            let j = &mut self.jobs[i];
            j.status = JobStatus::Completed;
            let e = match self.jobs[i].escrow_reference {
                Some(e) => e,
                None => {
                    proof {
                        assert(old(self).wf_job(i as int));
                        assert(false);
                    }
                    0
                },
            };
            let n = self.escrows.len();
            proof {
                assert(old(self).wf_job(i as int));
                assert(e < n);
            }
            let er = &mut self.escrows[e as usize];
            er.status = EscrowStatus::Released;
            er.released_at = Some(now);
            let owner = match self.jobs[i].agent {
                Some(a) => a,
                None => {
                    proof {
                        assert(old(self).wf_job(i as int));
                        assert(false);
                    }
                    0
                },
            };
            let a_idx = match self.find_agent(owner) {
                Some(x) => x,
                None => {
                    proof {
                        assert(old(self).wf_job(i as int));
                        assert(false);
                    }
                    0
                },
            };
            proof {
                assert(old(self).wf_agent(a_idx as int));
            }
            Self::bump_completion(&mut self.agents, a_idx);
            proof {
                let pre = *old(self);
                let post = *self;
                assert(pre.wf_job(i as int));
                assert(post.jobs@ =~= pre.jobs@.update(i as int, post.jobs@[i as int]));
                assert(post.escrows@ =~= pre.escrows@.update(
                    pre.jobs@[i as int].escrow_reference->0 as int,
                    released_record(
                        pre.escrows@[pre.jobs@[i as int].escrow_reference->0 as int],
                        now,
                    ),
                ));
                lemma_completion_wf(pre, post, i as int, now);
            }
        } else {
            match Self::find_pending(&self.jobs[i].milestones) {
                Some(p) => {
                    let m2 = &mut self.jobs[i].milestones[p];
                    m2.status = MilestoneStatus::InProgress;
                },
                None => {},
            }
            let j = &mut self.jobs[i];
            j.status = JobStatus::InProgress;
            proof {
                let pre = *old(self);
                let post = *self;
                assert(post.jobs@ =~= pre.jobs@.update(i as int, post.jobs@[i as int]));
                assert(pre.wf_job(i as int));
                assert(post.wf_job(i as int)) by {
                    lemma_sum_same_percentages(
                        post.jobs@[i as int].milestones@,
                        pre.jobs@[i as int].milestones@,
                    );
                }
                assert forall|t: int| 0 <= t < post.jobs@.len() implies #[trigger] post.wf_job(
                    t,
                ) by {
                    if t != i as int {
                        assert(pre.wf_job(t));
                    }
                }
                assert forall|e: int|
                    0 <= e < post.escrows@.len() implies #[trigger] post.wf_escrow(e) by {
                    assert(pre.wf_escrow(e));
                }
                assert forall|d: int|
                    0 <= d < post.disputes@.len() implies #[trigger] post.wf_dispute(d) by {
                    assert(pre.wf_dispute(d));
                }
                assert forall|t: int|
                    0 <= t < post.ratings@.len() implies #[trigger] post.wf_rating(t) by {
                    assert(pre.wf_rating(t));
                }
                JobMarketplace::lemma_wf_agents_stable(pre, post);
                JobMarketplace::lemma_wf_messages_stable(pre, post);
            }
        }
        Ok(())
    }

    /// Complete the job in one step. Only the client may complete, while
    /// the job is `InProgress` or `PendingApproval`. Every milestone is
    /// forced to `Approved`, the escrow is released, and the agent's
    /// completion counter and running success rate move forward.
    pub fn complete_job(&mut self, caller: u64, job_id: u64, now: u64) -> (r: Result<
        (),
        JobMarketplaceError,
    >)
        requires
            old(self).wf(),
            completion_counter_fits(*old(self), job_id),
        ensures
            final(self).wf(),
            r == complete_job_result(*old(self), caller, job_id),
            r is Err ==> *final(self) == *old(self),
            r is Ok ==> {
                let pre_j = old(self).job(job_id);
                let post_j = final(self).job(job_id);
                &&& final(self).jobs@ == old(self).jobs@.update(job_id - 1, post_j)
                &&& post_j.status == JobStatus::Completed
                &&& post_j.milestones@.len() == pre_j.milestones@.len()
                &&& forall|m: int|
                    0 <= m < pre_j.milestones@.len() ==> (#[trigger] post_j.milestones@[m])
                        == (Milestone {
                        status: MilestoneStatus::Approved,
                        ..pre_j.milestones@[m]
                    })
                &&& post_j == (Job {
                    status: post_j.status,
                    milestones: post_j.milestones,
                    ..pre_j
                })
                &&& completion_bookkeeping(*old(self), *final(self), job_id, now)
            },
            final(self).ratings == old(self).ratings,
            final(self).disputes == old(self).disputes,
            final(self).messages == old(self).messages,
            final(self).next_job_id == old(self).next_job_id,
            final(self).next_rating_id == old(self).next_rating_id,
            final(self).next_dispute_id == old(self).next_dispute_id,
            final(self).next_message_id == old(self).next_message_id,
            escrow_monotonic(old(self).escrows@, final(self).escrows@),
    {
        if job_id < 1 || job_id > self.jobs.len() as u64 {
            return Err(JobMarketplaceError::JobNotFound(job_id));
        }
        let i = (job_id - 1) as usize;
        if self.jobs[i].client != caller {
            return Err(JobMarketplaceError::NotAuthorized);
        }
        let live = matches!(self.jobs[i].status, JobStatus::InProgress) || matches!(
            self.jobs[i].status,
            JobStatus::PendingApproval,
        );
        if !live {
            return Err(JobMarketplaceError::InvalidStatus);
        }
        let j = &mut self.jobs[i];
        Self::approve_all(&mut j.milestones);
        j.status = JobStatus::Completed;
        let e = match self.jobs[i].escrow_reference {
            Some(e) => e,
            None => {
                proof {
                    assert(old(self).wf_job(i as int));
                    assert(false);
                }
                0
            },
        };
        let n = self.escrows.len();
        proof {
            assert(old(self).wf_job(i as int));
            assert(e < n);
        }
        let er = &mut self.escrows[e as usize];
        er.status = EscrowStatus::Released;
        er.released_at = Some(now);
        let owner = match self.jobs[i].agent {
            Some(a) => a,
            None => {
                proof {
                    assert(old(self).wf_job(i as int));
                    assert(false);
                }
                0
            },
        };
        let a_idx = match self.find_agent(owner) {
            Some(x) => x,
            None => {
                proof {
                    assert(old(self).wf_job(i as int));
                    assert(false);
                }
                0
            },
        };
        proof {
            assert(old(self).wf_agent(a_idx as int));
        }
        Self::bump_completion(&mut self.agents, a_idx);
        proof {
            let pre = *old(self);
            let post = *self;
            assert(pre.wf_job(i as int));
            assert(post.jobs@ =~= pre.jobs@.update(i as int, post.jobs@[i as int]));
            assert(post.escrows@ =~= pre.escrows@.update(
                pre.jobs@[i as int].escrow_reference->0 as int,
                released_record(
                    pre.escrows@[pre.jobs@[i as int].escrow_reference->0 as int],
                    now,
                ),
            ));
            lemma_completion_wf(pre, post, i as int, now);
        }
        Ok(())
    }
}

} // verus!
