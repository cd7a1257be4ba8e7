//! Free-form messages between the participants of a job, and the
//! idempotent read-marking over a set of message identifiers.

use vstd::prelude::*;

use crate::disputes::is_participant;
use crate::state::escrow_monotonic;
use crate::state::JobMarketplace;
use crate::types::ChatMessage;
use crate::types::JobMarketplaceError;

verus! {

/// A message with its read flag set.
pub open spec fn marked_read(m: ChatMessage) -> ChatMessage {
    ChatMessage { read: true, ..m }
}

/// The message list after marking every message whose identifier occurs in
/// `ids` as read.
pub open spec fn mark_read_seq(msgs: Seq<ChatMessage>, ids: Seq<u64>) -> Seq<ChatMessage> {
    Seq::new(
        msgs.len(),
        |m: int|
            if ids.contains(msgs[m].message_id) {
                marked_read(msgs[m])
            } else {
                msgs[m]
            },
    )
}

/// Outcome of `send_message` on a given state: the fresh message
/// identifier, or the failing check.
pub open spec fn send_message_result(s: JobMarketplace, caller: u64, job_id: u64) -> Result<
    u64,
    JobMarketplaceError,
> {
    if !s.job_id_ok(job_id) {
        Err(JobMarketplaceError::JobNotFound(job_id))
    } else if !is_participant(s.job(job_id), caller) {
        Err(JobMarketplaceError::NotAuthorized)
    } else {
        Ok(s.next_message_id)
    }
}

/// Outcome of `mark_messages_read` on a given state: the identifiers are
/// checked in order, and the first one that names no message, or a message
/// of a job the caller does not participate in, decides the error.
pub open spec fn mark_messages_read_result(s: JobMarketplace, caller: u64, ids: Seq<u64>) -> Result<
    (),
    JobMarketplaceError,
>
    decreases ids.len(),
{
    if ids.len() == 0 {
        Ok(())
    } else if !s.message_id_ok(ids[0]) {
        Err(JobMarketplaceError::MessageNotFound)
    } else if !is_participant(s.job(s.messages@[ids[0] - 1].job_id), caller) {
        Err(JobMarketplaceError::NotAuthorized)
    } else {
        mark_messages_read_result(s, caller, ids.skip(1))
    }
}

impl JobMarketplace {
    /// Whether `x` occurs in `ids`.
    fn ids_contain(ids: &Vec<u64>, x: u64) -> (r: bool)
        ensures
            r == ids@.contains(x),
    {
        let mut k: usize = 0;
        while k < ids.len()
            invariant
                k <= ids@.len(),
                forall|t: int| 0 <= t < k ==> (#[trigger] ids@[t]) != x,
            decreases ids@.len() - k,
        {
            if ids[k] == x {
                return true;
            }
            k += 1;
        }
        false
    }

    /// Send a message on a job's thread. Only a participant may send; the
    /// message starts unread.
    pub fn send_message(&mut self, caller: u64, job_id: u64, text: String, now: u64) -> (r: Result<
        u64,
        JobMarketplaceError,
    >)
        requires
            old(self).wf(),
            old(self).messages@.len() + 2 <= u64::MAX,
        ensures
            final(self).wf(),
            r == send_message_result(*old(self), caller, job_id),
            r is Err ==> *final(self) == *old(self),
            r is Ok ==> {
                &&& final(self).messages@ == old(self).messages@.push(
                    (ChatMessage {
                        message_id: old(self).next_message_id,
                        job_id: job_id,
                        sender: caller,
                        text: text,
                        sent_at: now,
                        read: false,
                    }),
                )
                &&& final(self).next_message_id == old(self).next_message_id + 1
            },
            final(self).jobs == old(self).jobs,
            final(self).agents == old(self).agents,
            final(self).ratings == old(self).ratings,
            final(self).disputes == old(self).disputes,
            final(self).escrows == old(self).escrows,
            final(self).next_job_id == old(self).next_job_id,
            final(self).next_rating_id == old(self).next_rating_id,
            final(self).next_dispute_id == old(self).next_dispute_id,
            escrow_monotonic(old(self).escrows@, final(self).escrows@),
    {
        if job_id < 1 || job_id > self.jobs.len() as u64 {
            return Err(JobMarketplaceError::JobNotFound(job_id));
        }
        let i = (job_id - 1) as usize;
        let participant = self.jobs[i].client == caller || matches!(self.jobs[i].agent, Some(a) if a == caller);
        if !participant {
            return Err(JobMarketplaceError::NotAuthorized);
        }
        let message_id = self.next_message_id;
        self.messages.push(
            ChatMessage { message_id, job_id, sender: caller, text, sent_at: now, read: false },
        );
        self.next_message_id = message_id + 1;
        proof {
            let pre = *old(self);
            let post = *self;
            assert forall|t: int| 0 <= t < post.jobs@.len() implies #[trigger] post.wf_job(t) by {
                assert(pre.wf_job(t));
            }
            JobMarketplace::lemma_wf_escrows_stable(pre, post);
            JobMarketplace::lemma_wf_disputes_stable(pre, post);
            JobMarketplace::lemma_wf_ratings_stable(pre, post);
            JobMarketplace::lemma_wf_agents_stable(pre, post);
        }
        Ok(message_id)
    }

    /// Mark the messages named by `ids` as read. Either every identifier
    /// names a message of a job the caller participates in and all of them
    /// are marked, or nothing changes. Marking is idempotent: a second call
    /// with the same identifiers leaves the state as it was.
    pub fn mark_messages_read(&mut self, caller: u64, ids: &Vec<u64>) -> (r: Result<
        (),
        JobMarketplaceError,
    >)
        requires
            old(self).wf(),
        ensures
            final(self).wf(),
            r == mark_messages_read_result(*old(self), caller, ids@),
            r is Err ==> *final(self) == *old(self),
            r is Ok ==> final(self).messages@ == mark_read_seq(old(self).messages@, ids@),
            final(self).jobs == old(self).jobs,
            final(self).agents == old(self).agents,
            final(self).ratings == old(self).ratings,
            final(self).disputes == old(self).disputes,
            final(self).escrows == old(self).escrows,
            final(self).next_job_id == old(self).next_job_id,
            final(self).next_rating_id == old(self).next_rating_id,
            final(self).next_dispute_id == old(self).next_dispute_id,
            final(self).next_message_id == old(self).next_message_id,
            escrow_monotonic(old(self).escrows@, final(self).escrows@),
    {
        let nmsgs = self.messages.len();
        let njobs = self.jobs.len();
        // validation pass: find the first failing identifier, if any
        proof {
            assert(ids@.skip(0) =~= ids@);
        }
        let mut k: usize = 0;
        while k < ids.len()
            invariant
                old(self).wf(),
                *self == *old(self),
                nmsgs == self.messages@.len(),
                njobs == self.jobs@.len(),
                k <= ids@.len(),
                mark_messages_read_result(*self, caller, ids@) == mark_messages_read_result(
                    *self,
                    caller,
                    ids@.skip(k as int),
                ),
            decreases ids@.len() - k,
        {
            let id = ids[k];
            proof {
                assert(ids@.skip(k as int)[0] == ids@[k as int]);
                assert(ids@.skip(k as int).skip(1) =~= ids@.skip(k as int + 1));
            }
            if id < 1 || id > nmsgs as u64 {
                return Err(JobMarketplaceError::MessageNotFound);
            }
            let job_id = self.messages[(id - 1) as usize].job_id;
            proof {
                assert(old(self).wf_messages());
                assert(1 <= job_id && job_id <= njobs);
            }
            let i = (job_id - 1) as usize;
            let participant = self.jobs[i].client == caller || matches!(self.jobs[i].agent, Some(a) if a == caller);
            if !participant {
                return Err(JobMarketplaceError::NotAuthorized);
            }
            k += 1;
        }
        proof {
            assert(ids@.skip(ids@.len() as int) =~= Seq::<u64>::empty());
        }
        // marking pass
        let ghost target = mark_read_seq(old(self).messages@, ids@);
        let mut m: usize = 0;
        while m < nmsgs
            invariant
                old(self).wf(),
                nmsgs == self.messages@.len(),
                m <= nmsgs,
                self.messages@.len() == old(self).messages@.len(),
                target == mark_read_seq(old(self).messages@, ids@),
                forall|t: int| 0 <= t < m ==> (#[trigger] self.messages@[t]) == target[t],
                forall|t: int|
                    m <= t < nmsgs ==> (#[trigger] self.messages@[t]) == old(self).messages@[t],
                self.jobs == old(self).jobs,
                self.agents == old(self).agents,
                self.ratings == old(self).ratings,
                self.disputes == old(self).disputes,
                self.escrows == old(self).escrows,
                self.next_job_id == old(self).next_job_id,
                self.next_rating_id == old(self).next_rating_id,
                self.next_dispute_id == old(self).next_dispute_id,
                self.next_message_id == old(self).next_message_id,
            decreases nmsgs - m,
        {
            if Self::ids_contain(ids, self.messages[m].message_id) {
                let msg = &mut self.messages[m];
                msg.read = true;
            }
            m += 1;
        }
        proof {
            let pre = *old(self);
            let post = *self;
            assert(post.messages@ =~= target);
            assert forall|t: int| 0 <= t < post.jobs@.len() implies #[trigger] post.wf_job(t) by {
                assert(pre.wf_job(t));
            }
            assert(post.wf_messages()) by {
                assert(pre.wf_messages());
                assert forall|t: int|
                    0 <= t < post.messages@.len() implies (#[trigger] post.messages@[t]).message_id
                    == t + 1 && post.job_id_ok(post.messages@[t].job_id) by {
                    assert(post.messages@[t] == target[t]);
                }
            }
            JobMarketplace::lemma_wf_escrows_stable(pre, post);
            JobMarketplace::lemma_wf_disputes_stable(pre, post);
            JobMarketplace::lemma_wf_ratings_stable(pre, post);
            JobMarketplace::lemma_wf_agents_stable(pre, post);
        }
        Ok(())
    }
}

} // verus!
