//! Disputes: opening, responding, and resolution, which forces the job and
//! its escrow to a terminal outcome.

use vstd::prelude::*;

use crate::milestones::released_record;
use crate::state::dispute_unresolved;
use crate::state::escrow_monotonic;
use crate::state::JobMarketplace;
use crate::types::Dispute;
use crate::types::DisputeOutcome;
use crate::types::DisputeStatus;
use crate::types::EscrowRecord;
use crate::types::EscrowStatus;
use crate::types::Job;
use crate::types::JobMarketplaceError;
use crate::types::JobStatus;

verus! {

/// Whether any dispute in `ds` is `Open` against `job_id`.
pub open spec fn has_open_dispute(ds: Seq<Dispute>, job_id: u64) -> bool {
    exists|k: int|
        0 <= k < ds.len() && (ds[k].job_id == job_id && ds[k].status == DisputeStatus::Open)
}

/// Whether `caller` is a participant (client or bound agent) of `j`.
pub open spec fn is_participant(j: Job, caller: u64) -> bool {
    j.client == caller || j.agent == Some(caller)
}

/// The terminal dispute status a verdict maps to.
pub open spec fn resolved_status(outcome: DisputeOutcome) -> DisputeStatus {
    match outcome {
        DisputeOutcome::ForClient => DisputeStatus::ResolvedForClient,
        DisputeOutcome::ForAgent => DisputeStatus::ResolvedForAgent,
        DisputeOutcome::Split => DisputeStatus::ResolvedSplit,
    }
}

/// The escrow record once a verdict lands: refunded to the client,
/// released to the agent, or marked partially refunded for an external
/// settlement step to carry out.
pub open spec fn escrow_after_resolution(
    r: EscrowRecord,
    outcome: DisputeOutcome,
    now: u64,
) -> EscrowRecord {
    match outcome {
        DisputeOutcome::ForClient => EscrowRecord { status: EscrowStatus::Refunded, ..r },
        DisputeOutcome::ForAgent => released_record(r, now),
        DisputeOutcome::Split => EscrowRecord {
            status: EscrowStatus::PartiallyRefunded,
            released_at: Some(now),
            ..r
        },
    }
}

/// Outcome of `open_dispute` on a given state: the fresh dispute
/// identifier, or the first failing check. The duplicate-dispute check
/// precedes the status check, so a job already under an open dispute
/// reports `DisputeAlreadyOpen` rather than `InvalidStatus`.
pub open spec fn open_dispute_result(s: JobMarketplace, caller: u64, job_id: u64) -> Result<
    u64,
    JobMarketplaceError,
> {
    if !s.job_id_ok(job_id) {
        Err(JobMarketplaceError::JobNotFound(job_id))
    } else if !is_participant(s.job(job_id), caller) {
        Err(JobMarketplaceError::NotAuthorized)
    } else if has_open_dispute(s.disputes@, job_id) {
        Err(JobMarketplaceError::DisputeAlreadyOpen)
    } else if !(s.job(job_id).status == JobStatus::InProgress || s.job(job_id).status
        == JobStatus::PendingApproval) {
        Err(JobMarketplaceError::InvalidStatus)
    } else {
        Ok(s.next_dispute_id)
    }
}

/// Outcome of `respond_to_dispute` on a given state.
pub open spec fn respond_to_dispute_result(s: JobMarketplace, caller: u64, dispute_id: u64) -> Result<
    (),
    JobMarketplaceError,
> {
    if !s.dispute_id_ok(dispute_id) {
        Err(JobMarketplaceError::DisputeNotFound)
    } else if !is_participant(s.job(s.dispute(dispute_id).job_id), caller) {
        Err(JobMarketplaceError::NotAuthorized)
    } else if s.dispute(dispute_id).status != DisputeStatus::Open {
        Err(JobMarketplaceError::InvalidStatus)
    } else {
        Ok(())
    }
}

/// Outcome of `resolve_dispute` on a given state. Any authenticated caller
/// may resolve: no arbitrator role is enforced.
pub open spec fn resolve_dispute_result(s: JobMarketplace, dispute_id: u64) -> Result<
    (),
    JobMarketplaceError,
> {
    if !s.dispute_id_ok(dispute_id) {
        Err(JobMarketplaceError::DisputeNotFound)
    } else if !dispute_unresolved(s.dispute(dispute_id)) {
        Err(JobMarketplaceError::InvalidStatus)
    } else {
        Ok(())
    }
}

impl JobMarketplace {
    /// Whether any dispute is `Open` against `job_id`.
    pub fn any_open_dispute(&self, job_id: u64) -> (r: bool)
        ensures
            r == has_open_dispute(self.disputes@, job_id),
    {
        let mut k: usize = 0;
        while k < self.disputes.len()
            invariant
                k <= self.disputes@.len(),
                forall|t: int|
                    0 <= t < k ==> !((#[trigger] self.disputes@[t]).job_id == job_id
                        && self.disputes@[t].status == DisputeStatus::Open),
            decreases self.disputes@.len() - k,
        {
            if self.disputes[k].job_id == job_id && matches!(
                self.disputes[k].status,
                DisputeStatus::Open,
            ) {
                return true;
            }
            k += 1;
        }
        false
    }

    /// Open a dispute against a live job. Only a participant may open one,
    /// at most one dispute is open per job at a time, and the job must be
    /// `InProgress` or `PendingApproval`; it is then forced to `Disputed`.
    pub fn open_dispute(&mut self, caller: u64, job_id: u64, reason: String, now: u64) -> (r:
        Result<u64, JobMarketplaceError>)
        requires
            old(self).wf(),
            old(self).disputes@.len() + 2 <= u64::MAX,
        ensures
            final(self).wf(),
            r == open_dispute_result(*old(self), caller, job_id),
            r is Err ==> *final(self) == *old(self),
            r is Ok ==> {
                let pre_j = old(self).job(job_id);
                let post_j = final(self).job(job_id);
                &&& final(self).disputes@ == old(self).disputes@.push(
                    (Dispute {
                        dispute_id: old(self).next_dispute_id,
                        job_id: job_id,
                        initiator: caller,
                        reason: reason,
                        status: DisputeStatus::Open,
                        refund_percentage: None,
                        resolution_notes: None,
                        created_at: now,
                        resolved_at: None,
                    }),
                )
                &&& final(self).jobs@ == old(self).jobs@.update(job_id - 1, post_j)
                &&& post_j == (Job { status: JobStatus::Disputed, ..pre_j })
                &&& final(self).next_dispute_id == old(self).next_dispute_id + 1
            },
            final(self).agents == old(self).agents,
            final(self).ratings == old(self).ratings,
            final(self).escrows == old(self).escrows,
            final(self).messages == old(self).messages,
            final(self).next_job_id == old(self).next_job_id,
            final(self).next_rating_id == old(self).next_rating_id,
            final(self).next_message_id == old(self).next_message_id,
            escrow_monotonic(old(self).escrows@, final(self).escrows@),
    {
        if job_id < 1 || job_id > self.jobs.len() as u64 {
            return Err(JobMarketplaceError::JobNotFound(job_id));
        }
        let i = (job_id - 1) as usize;
        let participant = self.jobs[i].client == caller || matches!(self.jobs[i].agent, Some(a) if a == caller);
        if !participant {
            return Err(JobMarketplaceError::NotAuthorized);
        }
        if self.any_open_dispute(job_id) {
            return Err(JobMarketplaceError::DisputeAlreadyOpen);
        }
        let live = matches!(self.jobs[i].status, JobStatus::InProgress) || matches!(
            self.jobs[i].status,
            JobStatus::PendingApproval,
        );
        if !live {
            return Err(JobMarketplaceError::InvalidStatus);
        }
        let dispute_id = self.next_dispute_id;
        self.disputes.push(
            Dispute {
                dispute_id,
                job_id,
                initiator: caller,
                reason,
                status: DisputeStatus::Open,
                refund_percentage: None,
                resolution_notes: None,
                created_at: now,
                resolved_at: None,
            },
        );
        self.next_dispute_id = dispute_id + 1;
        let j = &mut self.jobs[i];
        j.status = JobStatus::Disputed;
        proof {
            let pre = *old(self);
            let post = *self;
            assert(post.jobs@ =~= pre.jobs@.update(i as int, post.jobs@[i as int]));
            assert(pre.wf_job(i as int));
            assert forall|t: int| 0 <= t < post.jobs@.len() implies #[trigger] post.wf_job(t) by {
                if t != i as int {
                    assert(pre.wf_job(t));
                }
            }
            assert forall|e: int| 0 <= e < post.escrows@.len() implies #[trigger] post.wf_escrow(
                e,
            ) by {
                assert(pre.wf_escrow(e));
            }
            // a pre-existing unresolved dispute against this job would have
            // kept it `Disputed`; it was live, so there is none
            assert forall|d: int| 0 <= d < post.disputes@.len() implies #[trigger] post.wf_dispute(
                d,
            ) by {
                if d < pre.disputes@.len() {
                    assert(pre.wf_dispute(d));
                }
            }
            assert forall|d1: int, d2: int|
                0 <= d1 < d2 < post.disputes@.len() && (#[trigger] post.disputes@[d1]).job_id == (
                #[trigger] post.disputes@[d2]).job_id implies !(dispute_unresolved(
                post.disputes@[d1],
            ) && dispute_unresolved(post.disputes@[d2])) by {
                if d2 < pre.disputes@.len() {
                    assert(pre.wf_disputes());
                } else {
                    assert(pre.wf_dispute(d1));
                }
            }
            assert forall|t: int| 0 <= t < post.ratings@.len() implies #[trigger] post.wf_rating(
                t,
            ) by {
                assert(pre.wf_rating(t));
            }
            JobMarketplace::lemma_wf_agents_stable(pre, post);
            JobMarketplace::lemma_wf_messages_stable(pre, post);
        }
        Ok(dispute_id)
    }

    /// Acknowledge an open dispute: a participant moves it to
    /// `UnderReview`.
    pub fn respond_to_dispute(&mut self, caller: u64, dispute_id: u64) -> (r: Result<
        (),
        JobMarketplaceError,
    >)
        requires
            old(self).wf(),
        ensures
            final(self).wf(),
            r == respond_to_dispute_result(*old(self), caller, dispute_id),
            r is Err ==> *final(self) == *old(self),
            r is Ok ==> final(self).disputes@ == old(self).disputes@.update(
                dispute_id - 1,
                (Dispute {
                    status: DisputeStatus::UnderReview,
                    ..old(self).dispute(dispute_id)
                }),
            ),
            final(self).jobs == old(self).jobs,
            final(self).agents == old(self).agents,
            final(self).ratings == old(self).ratings,
            final(self).escrows == old(self).escrows,
            final(self).messages == old(self).messages,
            final(self).next_job_id == old(self).next_job_id,
            final(self).next_rating_id == old(self).next_rating_id,
            final(self).next_dispute_id == old(self).next_dispute_id,
            final(self).next_message_id == old(self).next_message_id,
            escrow_monotonic(old(self).escrows@, final(self).escrows@),
    {
        if dispute_id < 1 || dispute_id > self.disputes.len() as u64 {
            return Err(JobMarketplaceError::DisputeNotFound);
        }
        let di = (dispute_id - 1) as usize;
        let job_id = self.disputes[di].job_id;
        let njobs = self.jobs.len();
        proof {
            assert(old(self).wf_dispute(di as int));
            assert(1 <= job_id && job_id <= njobs);
        }
        let i = (job_id - 1) as usize;
        let participant = self.jobs[i].client == caller || matches!(self.jobs[i].agent, Some(a) if a == caller);
        if !participant {
            return Err(JobMarketplaceError::NotAuthorized);
        }
        if !matches!(self.disputes[di].status, DisputeStatus::Open) {
            return Err(JobMarketplaceError::InvalidStatus);
        }
        let d = &mut self.disputes[di];
        d.status = DisputeStatus::UnderReview;
        proof {
            let pre = *old(self);
            let post = *self;
            assert forall|t: int| 0 <= t < post.jobs@.len() implies #[trigger] post.wf_job(t) by {
                assert(pre.wf_job(t));
            }
            assert forall|e: int| 0 <= e < post.escrows@.len() implies #[trigger] post.wf_escrow(
                e,
            ) by {
                assert(pre.wf_escrow(e));
            }
            assert forall|t: int| 0 <= t < post.disputes@.len() implies #[trigger] post.wf_dispute(
                t,
            ) by {
                assert(pre.wf_dispute(t));
            }
            assert forall|d1: int, d2: int|
                0 <= d1 < d2 < post.disputes@.len() && (#[trigger] post.disputes@[d1]).job_id == (
                #[trigger] post.disputes@[d2]).job_id implies !(dispute_unresolved(
                post.disputes@[d1],
            ) && dispute_unresolved(post.disputes@[d2])) by {
                assert(pre.wf_disputes());
                assert(!(dispute_unresolved(pre.disputes@[d1]) && dispute_unresolved(
                    pre.disputes@[d2],
                )));
            }
            assert forall|t: int| 0 <= t < post.ratings@.len() implies #[trigger] post.wf_rating(
                t,
            ) by {
                assert(pre.wf_rating(t));
            }
            JobMarketplace::lemma_wf_agents_stable(pre, post);
            JobMarketplace::lemma_wf_messages_stable(pre, post);
        }
        Ok(())
    }

    /// Resolve an unresolved dispute with a verdict. Any authenticated
    /// caller may resolve: this design enforces no arbitrator role. The
    /// verdict is recorded on the dispute, the escrow is refunded,
    /// released, or marked partially refunded, and the job ends
    /// `Cancelled` (client verdict, with the engagement unwound) or
    /// `Completed` (agent or split verdict).
    pub fn resolve_dispute(
        &mut self,
        caller: u64,
        dispute_id: u64,
        outcome: DisputeOutcome,
        refund_percentage: Option<u64>,
        notes: String,
        now: u64,
    ) -> (r: Result<(), JobMarketplaceError>)
        requires
            old(self).wf(),
        ensures
            final(self).wf(),
            r == resolve_dispute_result(*old(self), dispute_id),
            r is Err ==> *final(self) == *old(self),
            r is Ok ==> {
                let d = old(self).dispute(dispute_id);
                let pre_j = old(self).job(d.job_id);
                let post_j = final(self).job(d.job_id);
                let e = pre_j.escrow_reference->0;
                &&& final(self).disputes@ == old(self).disputes@.update(
                    dispute_id - 1,
                    (Dispute {
                        status: resolved_status(outcome),
                        refund_percentage: refund_percentage,
                        resolution_notes: Some(notes),
                        resolved_at: Some(now),
                        ..d
                    }),
                )
                &&& final(self).escrows@ == old(self).escrows@.update(
                    e as int,
                    escrow_after_resolution(old(self).escrows@[e as int], outcome, now),
                )
                &&& final(self).jobs@ == old(self).jobs@.update(d.job_id - 1, post_j)
                &&& (outcome == DisputeOutcome::ForClient ==> post_j == (Job {
                    status: JobStatus::Cancelled,
                    agent: None,
                    escrow_reference: None,
                    ..pre_j
                }))
                &&& (outcome != DisputeOutcome::ForClient ==> post_j == (Job {
                    status: JobStatus::Completed,
                    ..pre_j
                }))
            },
            final(self).agents == old(self).agents,
            final(self).ratings == old(self).ratings,
            final(self).messages == old(self).messages,
            final(self).next_job_id == old(self).next_job_id,
            final(self).next_rating_id == old(self).next_rating_id,
            final(self).next_dispute_id == old(self).next_dispute_id,
            final(self).next_message_id == old(self).next_message_id,
            escrow_monotonic(old(self).escrows@, final(self).escrows@),
    {
        // any authenticated caller may resolve; the identity is not consulted
        let _ = caller;
        if dispute_id < 1 || dispute_id > self.disputes.len() as u64 {
            return Err(JobMarketplaceError::DisputeNotFound);
        }
        let di = (dispute_id - 1) as usize;
        let unresolved = matches!(self.disputes[di].status, DisputeStatus::Open) || matches!(
            self.disputes[di].status,
            DisputeStatus::UnderReview,
        );
        if !unresolved {
            return Err(JobMarketplaceError::InvalidStatus);
        }
        let job_id = self.disputes[di].job_id;
        let njobs = self.jobs.len();
        proof {
            assert(old(self).wf_dispute(di as int));
            assert(1 <= job_id && job_id <= njobs);
        }
        let i = (job_id - 1) as usize;
        let e = match self.jobs[i].escrow_reference {
            Some(e) => e,
            None => {
                proof {
                    assert(old(self).wf_job(i as int));
                    assert(false);
                }
                0
            },
        };
        let n = self.escrows.len();
        proof {
            assert(old(self).wf_job(i as int));
            assert(e < n);
        }
        let d = &mut self.disputes[di];
        d.status = match outcome {
            DisputeOutcome::ForClient => DisputeStatus::ResolvedForClient,
            DisputeOutcome::ForAgent => DisputeStatus::ResolvedForAgent,
            DisputeOutcome::Split => DisputeStatus::ResolvedSplit,
        };
        d.refund_percentage = refund_percentage;
        d.resolution_notes = Some(notes);
        d.resolved_at = Some(now);
        let er = &mut self.escrows[e as usize];
        match outcome {
            DisputeOutcome::ForClient => {
                er.status = EscrowStatus::Refunded;
            },
            DisputeOutcome::ForAgent => {
                er.status = EscrowStatus::Released;
                er.released_at = Some(now);
            },
            DisputeOutcome::Split => {
                er.status = EscrowStatus::PartiallyRefunded;
                er.released_at = Some(now);
            },
        }
        let j = &mut self.jobs[i];
        match outcome {
            DisputeOutcome::ForClient => {
                j.status = JobStatus::Cancelled;
                j.agent = None;
                j.escrow_reference = None;
            },
            DisputeOutcome::ForAgent => {
                j.status = JobStatus::Completed;
            },
            DisputeOutcome::Split => {
                j.status = JobStatus::Completed;
            },
        }
        proof {
            let pre = *old(self);
            let post = *self;
            assert(pre.wf_job(i as int));
            assert(pre.wf_dispute(di as int));
            assert(post.jobs@ =~= pre.jobs@.update(i as int, post.jobs@[i as int]));
            assert(post.escrows@ =~= pre.escrows@.update(
                e as int,
                escrow_after_resolution(pre.escrows@[e as int], outcome, now),
            ));
            assert(post.disputes@ =~= pre.disputes@.update(
                di as int,
                (Dispute {
                    status: resolved_status(outcome),
                    refund_percentage: refund_percentage,
                    resolution_notes: Some(notes),
                    resolved_at: Some(now),
                    ..pre.disputes@[di as int]
                }),
            ));
            assert forall|t: int| 0 <= t < post.jobs@.len() implies #[trigger] post.wf_job(t) by {
                assert(pre.wf_job(t));
                if t != i as int && pre.jobs@[t].escrow_reference is Some {
                    // a different job's escrow record is a different entry
                    let et = pre.jobs@[t].escrow_reference->0 as int;
                    assert(pre.escrows@[et].job_id == t + 1);
                    assert(pre.escrows@[e as int].job_id == i + 1);
                }
            }
            assert forall|t: int| 0 <= t < post.escrows@.len() implies #[trigger] post.wf_escrow(
                t,
            ) by {
                assert(pre.wf_escrow(t));
                if t != e as int && pre.escrows@[t].job_id == job_id {
                    assert(pre.wf_escrows());
                    assert(pre.escrows@[e as int].job_id == i + 1);
                }
            }
            // any other unresolved dispute on this job is ruled out, so the
            // job's move to a terminal state breaks no dispute link
            assert forall|t: int| 0 <= t < post.disputes@.len() implies #[trigger] post.wf_dispute(
                t,
            ) by {
                assert(pre.wf_dispute(t));
                if t != di as int && pre.disputes@[t].job_id == job_id {
                    assert(pre.wf_disputes());
                }
            }
            assert forall|d1: int, d2: int|
                0 <= d1 < d2 < post.disputes@.len() && (#[trigger] post.disputes@[d1]).job_id == (
                #[trigger] post.disputes@[d2]).job_id implies !(dispute_unresolved(
                post.disputes@[d1],
            ) && dispute_unresolved(post.disputes@[d2])) by {
                assert(pre.wf_disputes());
                assert(!(dispute_unresolved(pre.disputes@[d1]) && dispute_unresolved(
                    pre.disputes@[d2],
                )));
            }
            assert forall|t: int| 0 <= t < post.ratings@.len() implies #[trigger] post.wf_rating(
                t,
            ) by {
                assert(pre.wf_rating(t));
            }
            JobMarketplace::lemma_wf_agents_stable(pre, post);
            JobMarketplace::lemma_wf_messages_stable(pre, post);
        }
        Ok(())
    }
}

} // verus!
