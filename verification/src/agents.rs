//! Agent registration, profile updates, and the lookup the other
//! operations use to authorize bidders.

use vstd::prelude::*;

use crate::milestones::agent_index;
use crate::seq_helpers::find_by;
use crate::seq_helpers::lemma_find_by_is_first;
use crate::state::escrow_monotonic;
use crate::state::is_registered;
use crate::state::JobMarketplace;
use crate::types::AgentProfile;
use crate::types::AgentRating;
use crate::types::JobMarketplaceError;
use crate::types::JobStatus;

verus! {

/// The profile `register_agent` stores.
pub open spec fn new_agent_profile(
    caller: u64,
    name: String,
    service_description: String,
    now: u64,
) -> AgentProfile {
    AgentProfile {
        owner: caller,
        name: name,
        service_description: service_description,
        jobs_completed: 0,
        success_rate: 0,
        total_rating_points: 0,
        total_ratings: 0,
        registered_at: now,
    }
}

/// Outcome of `register_agent` on a given state.
pub open spec fn register_agent_result(s: JobMarketplace, caller: u64) -> Result<
    (),
    JobMarketplaceError,
> {
    if is_registered(s.agents@, caller) {
        Err(JobMarketplaceError::AgentAlreadyRegistered)
    } else {
        Ok(())
    }
}

/// Outcome of `update_agent_profile` on a given state.
pub open spec fn update_agent_profile_result(s: JobMarketplace, caller: u64) -> Result<
    (),
    JobMarketplaceError,
> {
    if is_registered(s.agents@, caller) {
        Ok(())
    } else {
        Err(JobMarketplaceError::AgentNotRegistered)
    }
}

/// The profile after `update_agent_profile`: each given field replaced,
/// absent fields kept.
pub open spec fn updated_profile(
    p: AgentProfile,
    name: Option<String>,
    service_description: Option<String>,
) -> AgentProfile {
    AgentProfile {
        name: if name is Some {
            name->0
        } else {
            p.name
        },
        service_description: if service_description is Some {
            service_description->0
        } else {
            p.service_description
        },
        ..p
    }
}


/// Outcome of `rate_agent` on a given state: the fresh rating identifier,
/// or the first failing check.
pub open spec fn rate_agent_result(
    s: JobMarketplace,
    caller: u64,
    job_id: u64,
    rating: u8,
) -> Result<u64, JobMarketplaceError> {
    if rating < 1 || rating > 5 {
        Err(JobMarketplaceError::InvalidRating)
    } else if !s.job_id_ok(job_id) {
        Err(JobMarketplaceError::JobNotFound(job_id))
    } else if s.job(job_id).status != JobStatus::Completed {
        Err(JobMarketplaceError::InvalidStatus)
    } else if s.job(job_id).client != caller {
        Err(JobMarketplaceError::NotAuthorized)
    } else {
        Ok(s.next_rating_id)
    }
}

/// The profile after absorbing one more rating.
pub open spec fn profile_after_rating(p: AgentProfile, rating: u8) -> AgentProfile {
    AgentProfile {
        total_rating_points: (p.total_rating_points + rating) as u64,
        total_ratings: (p.total_ratings + 1) as u64,
        ..p
    }
}

/// Registration never goes away: any owner registered under `a1` is still
/// registered under `a2` if `a2` keeps every owner of `a1` in place.
pub proof fn lemma_registered_preserved(a1: Seq<AgentProfile>, a2: Seq<AgentProfile>, o: u64)
    requires
        a1.len() <= a2.len(),
        forall|k: int| 0 <= k < a1.len() ==> (#[trigger] a2[k]).owner == a1[k].owner,
        is_registered(a1, o),
    ensures
        is_registered(a2, o),
{
    let i = choose|i: int| 0 <= i < a1.len() && a1[i].owner == o;
    assert(a2[i].owner == o);
}

impl JobMarketplace {
    /// Index of the profile owned by `owner`, if one is registered.
    pub fn find_agent(&self, owner: u64) -> (r: Option<usize>)
        ensures
            match r {
                Some(i) => i < self.agents@.len() && self.agents@[i as int].owner == owner && i
                    == find_by(self.agents@, |p: AgentProfile| p.owner == owner),
                None => !is_registered(self.agents@, owner),
            },
    {
        let mut i: usize = 0;
        while i < self.agents.len()
            invariant
                i <= self.agents@.len(),
                forall|k: int| 0 <= k < i ==> (#[trigger] self.agents@[k]).owner != owner,
            decreases self.agents@.len() - i,
        {
            if self.agents[i].owner == owner {
                proof {
                    lemma_find_by_is_first(self.agents@, |p: AgentProfile| p.owner == owner, i as int);
                }
                return Some(i);
            }
            i += 1;
        }
        None
    }

    /// Register the caller as an agent. Fails `AgentAlreadyRegistered` if a
    /// profile for this identity already exists; otherwise appends a fresh
    /// profile with zeroed reputation counters.
    pub fn register_agent(
        &mut self,
        caller: u64,
        name: String,
        service_description: String,
        now: u64,
    ) -> (r: Result<(), JobMarketplaceError>)
        requires
            old(self).wf(),
        ensures
            final(self).wf(),
            r == register_agent_result(*old(self), caller),
            r is Err ==> *final(self) == *old(self),
            r is Ok ==> final(self).agents@ == old(self).agents@.push(
                new_agent_profile(caller, name, service_description, now),
            ),
            final(self).jobs == old(self).jobs,
            final(self).ratings == old(self).ratings,
            final(self).disputes == old(self).disputes,
            final(self).escrows == old(self).escrows,
            final(self).messages == old(self).messages,
            final(self).next_job_id == old(self).next_job_id,
            final(self).next_rating_id == old(self).next_rating_id,
            final(self).next_dispute_id == old(self).next_dispute_id,
            final(self).next_message_id == old(self).next_message_id,
            escrow_monotonic(old(self).escrows@, final(self).escrows@),
    {
        if self.find_agent(caller).is_some() {
            return Err(JobMarketplaceError::AgentAlreadyRegistered);
        }
        let profile = AgentProfile {
            owner: caller,
            name,
            service_description,
            jobs_completed: 0,
            success_rate: 0,
            total_rating_points: 0,
            total_ratings: 0,
            registered_at: now,
        };
        self.agents.push(profile);
        proof {
            let pre = *old(self);
            let post = *self;
            assert forall|i: int| 0 <= i < post.jobs@.len() implies #[trigger] post.wf_job(i) by {
                assert(pre.wf_job(i));
                let j = post.jobs@[i];
                assert forall|b: int| 0 <= b < j.bids@.len() implies is_registered(
                    post.agents@,
                    (#[trigger] j.bids@[b]).agent,
                ) by {
                    lemma_registered_preserved(pre.agents@, post.agents@, j.bids@[b].agent);
                }
                if j.agent is Some {
                    lemma_registered_preserved(pre.agents@, post.agents@, j.agent->0);
                }
            }
            assert forall|a: int| 0 <= a < post.agents@.len() implies #[trigger] post.wf_agent(
                a,
            ) by {
                if a < pre.agents@.len() {
                    assert(pre.wf_agent(a));
                }
            }
            JobMarketplace::lemma_wf_escrows_stable(pre, post);
            JobMarketplace::lemma_wf_disputes_stable(pre, post);
            JobMarketplace::lemma_wf_ratings_stable(pre, post);
            JobMarketplace::lemma_wf_messages_stable(pre, post);
        }
        Ok(())
    }

    /// Replace the given profile fields of the caller's registration.
    /// Fails `AgentNotRegistered` if the caller has no profile.
    pub fn update_agent_profile(
        &mut self,
        caller: u64,
        name: Option<String>,
        service_description: Option<String>,
    ) -> (r: Result<(), JobMarketplaceError>)
        requires
            old(self).wf(),
        ensures
            final(self).wf(),
            r == update_agent_profile_result(*old(self), caller),
            r is Err ==> *final(self) == *old(self),
            r is Ok ==> {
                let i = find_by(old(self).agents@, |p: AgentProfile| p.owner == caller);
                &&& 0 <= i < old(self).agents@.len()
                &&& final(self).agents@ == old(self).agents@.update(
                    i,
                    updated_profile(old(self).agents@[i], name, service_description),
                )
                &&& final(self).agents@.len() == old(self).agents@.len()
            },
            final(self).jobs == old(self).jobs,
            final(self).ratings == old(self).ratings,
            final(self).disputes == old(self).disputes,
            final(self).escrows == old(self).escrows,
            final(self).messages == old(self).messages,
            final(self).next_job_id == old(self).next_job_id,
            final(self).next_rating_id == old(self).next_rating_id,
            final(self).next_dispute_id == old(self).next_dispute_id,
            final(self).next_message_id == old(self).next_message_id,
            escrow_monotonic(old(self).escrows@, final(self).escrows@),
    {
        let i = match self.find_agent(caller) {
            None => {
                return Err(JobMarketplaceError::AgentNotRegistered);
            },
            Some(i) => i,
        };
        let p = &mut self.agents[i];
        if let Some(n) = name {
            p.name = n;
        }
        if let Some(d) = service_description {
            p.service_description = d;
        }
        proof {
            let pre = *old(self);
            let post = *self;
            assert forall|k: int| 0 <= k < post.jobs@.len() implies #[trigger] post.wf_job(k) by {
                assert(pre.wf_job(k));
                let j = post.jobs@[k];
                assert forall|b: int| 0 <= b < j.bids@.len() implies is_registered(
                    post.agents@,
                    (#[trigger] j.bids@[b]).agent,
                ) by {
                    lemma_registered_preserved(pre.agents@, post.agents@, j.bids@[b].agent);
                }
                if j.agent is Some {
                    lemma_registered_preserved(pre.agents@, post.agents@, j.agent->0);
                }
            }
            assert forall|a: int| 0 <= a < post.agents@.len() implies #[trigger] post.wf_agent(
                a,
            ) by {
                assert(pre.wf_agent(a));
            }
            JobMarketplace::lemma_wf_escrows_stable(pre, post);
            JobMarketplace::lemma_wf_disputes_stable(pre, post);
            JobMarketplace::lemma_wf_ratings_stable(pre, post);
            JobMarketplace::lemma_wf_messages_stable(pre, post);
        }
        Ok(())
    }

    /// Rate the agent of a completed job, 1 to 5. Only the client may
    /// rate. The review is stored and the agent's rating counters grow.
    pub fn rate_agent(
        &mut self,
        caller: u64,
        job_id: u64,
        rating: u8,
        review: String,
        now: u64,
    ) -> (r: Result<u64, JobMarketplaceError>)
        requires
            old(self).wf(),
            5 * (old(self).ratings@.len() + 1) <= u64::MAX,
        ensures
            final(self).wf(),
            r == rate_agent_result(*old(self), caller, job_id, rating),
            r is Err ==> *final(self) == *old(self),
            r is Ok ==> {
                let owner = old(self).job(job_id).agent->0;
                let a = agent_index(old(self).agents@, owner);
                &&& final(self).ratings@ == old(self).ratings@.push(
                    (AgentRating {
                        rating_id: old(self).next_rating_id,
                        job_id: job_id,
                        agent: owner,
                        rater: caller,
                        rating: rating,
                        review: review,
                        timestamp: now,
                    }),
                )
                &&& final(self).agents@ == old(self).agents@.update(
                    a,
                    profile_after_rating(old(self).agents@[a], rating),
                )
                &&& final(self).next_rating_id == old(self).next_rating_id + 1
            },
            final(self).jobs == old(self).jobs,
            final(self).disputes == old(self).disputes,
            final(self).escrows == old(self).escrows,
            final(self).messages == old(self).messages,
            final(self).next_job_id == old(self).next_job_id,
            final(self).next_dispute_id == old(self).next_dispute_id,
            final(self).next_message_id == old(self).next_message_id,
            escrow_monotonic(old(self).escrows@, final(self).escrows@),
    {
        if rating < 1 || rating > 5 {
            return Err(JobMarketplaceError::InvalidRating);
        }
        if job_id < 1 || job_id > self.jobs.len() as u64 {
            return Err(JobMarketplaceError::JobNotFound(job_id));
        }
        let i = (job_id - 1) as usize;
        if !matches!(self.jobs[i].status, JobStatus::Completed) {
            return Err(JobMarketplaceError::InvalidStatus);
        }
        if self.jobs[i].client != caller {
            return Err(JobMarketplaceError::NotAuthorized);
        }
        let agent_owner = match self.jobs[i].agent {
            Some(a) => a,
            None => {
                proof {
                    assert(old(self).wf_job(i as int));
                    assert(false);
                }
                0
            },
        };
        let rating_id = self.next_rating_id;
        self.ratings.push(
            AgentRating {
                rating_id,
                job_id,
                agent: agent_owner,
                rater: caller,
                rating,
                review,
                timestamp: now,
            },
        );
        self.next_rating_id = rating_id + 1;
        let a_idx = match self.find_agent(agent_owner) {
            Some(x) => x,
            None => {
                proof {
                    assert(old(self).wf_job(i as int));
                    assert(false);
                }
                0
            },
        };
        proof {
            assert(old(self).wf_agent(a_idx as int));
        }
        let p = &mut self.agents[a_idx];
        p.total_rating_points = p.total_rating_points + rating as u64;
        p.total_ratings = p.total_ratings + 1;
        proof {
            let pre = *old(self);
            let post = *self;
            assert forall|t: int| 0 <= t < post.jobs@.len() implies #[trigger] post.wf_job(t) by {
                assert(pre.wf_job(t));
                let j = post.jobs@[t];
                assert forall|b: int| 0 <= b < j.bids@.len() implies is_registered(
                    post.agents@,
                    (#[trigger] j.bids@[b]).agent,
                ) by {
                    lemma_registered_preserved(pre.agents@, post.agents@, j.bids@[b].agent);
                }
                if j.agent is Some {
                    lemma_registered_preserved(pre.agents@, post.agents@, j.agent->0);
                }
            }
            assert forall|a: int| 0 <= a < post.agents@.len() implies #[trigger] post.wf_agent(
                a,
            ) by {
                assert(pre.wf_agent(a));
            }
            assert forall|t: int| 0 <= t < post.ratings@.len() implies #[trigger] post.wf_rating(
                t,
            ) by {
                if t < pre.ratings@.len() {
                    assert(pre.wf_rating(t));
                } else {
                    assert(pre.wf_job(i as int));
                }
            }
            JobMarketplace::lemma_wf_escrows_stable(pre, post);
            JobMarketplace::lemma_wf_disputes_stable(pre, post);
            JobMarketplace::lemma_wf_messages_stable(pre, post);
        }
        Ok(rating_id)
    }
}

} // verus!
