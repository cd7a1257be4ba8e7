//! The library's global laws, each proved from the state invariant and the
//! operations' contracts.

use vstd::prelude::*;

use crate::chat::mark_read_seq;
use crate::chat::marked_read;
use crate::seq_helpers::count_by;
use crate::seq_helpers::find_by;
use crate::seq_helpers::lemma_count_by_none;
use crate::seq_helpers::lemma_find_by_found;
use crate::seq_helpers::lemma_count_by_push;
use crate::seq_helpers::lemma_find_by_properties;
use crate::state::escrow_monotonic;
use crate::state::sum_percentages;
use crate::state::JobMarketplace;
use crate::types::Bid;
use crate::types::DisputeStatus;
use crate::types::EscrowRecord;
use crate::types::EscrowStatus;
use crate::types::JobStatus;

verus! {

/// In every well-formed state, a job's agent is bound exactly while the
/// job is neither `Posted` nor `Cancelled`, and exactly then the job holds
/// an escrow reference.
pub proof fn law_agent_escrow_presence(s: JobMarketplace, i: int)
    requires
        s.wf(),
        0 <= i < s.jobs@.len(),
    ensures
        (s.jobs@[i].agent is Some) <==> !(s.jobs@[i].status == JobStatus::Posted || s.jobs@[i].status
            == JobStatus::Cancelled),
        (s.jobs@[i].escrow_reference is Some) <==> !(s.jobs@[i].status == JobStatus::Posted
            || s.jobs@[i].status == JobStatus::Cancelled),
{
    assert(s.wf_job(i));
}

/// In every well-formed state, a job that declares milestones splits its
/// payment exactly: the percentages sum to 100.
pub proof fn law_milestone_percentages(s: JobMarketplace, i: int)
    requires
        s.wf(),
        0 <= i < s.jobs@.len(),
        s.jobs@[i].milestones@.len() > 0,
    ensures
        sum_percentages(s.jobs@[i].milestones@) == 100,
{
    assert(s.wf_job(i));
}

/// In every well-formed state there is at most one live bid per agent on a
/// job: two distinct live bids carry distinct bidders.
pub proof fn law_one_live_bid_per_agent(s: JobMarketplace, i: int, b1: int, b2: int)
    requires
        s.wf(),
        0 <= i < s.jobs@.len(),
        0 <= b1 < s.jobs@[i].bids@.len(),
        0 <= b2 < s.jobs@[i].bids@.len(),
        b1 != b2,
    ensures
        s.jobs@[i].bids@[b1].agent != s.jobs@[i].bids@[b2].agent,
{
    assert(s.wf_job(i));
}

/// Withdrawing and then re-bidding leaves exactly one live bid by the
/// agent: over the bid-list transitions that `withdraw_bid` and
/// `place_bid` ensure, the count of the agent's bids is one.
pub proof fn law_withdraw_then_rebid(bids: Seq<Bid>, caller: u64, b: Bid)
    requires
        forall|b1: int, b2: int|
            0 <= b1 < b2 < bids.len() ==> (#[trigger] bids[b1]).agent != (#[trigger] bids[b2]).agent,
        exists|k: int| 0 <= k < bids.len() && (#[trigger] bids[k]).agent == caller,
        b.agent == caller,
    ensures
        count_by(
            bids.remove(find_by(bids, |x: Bid| x.agent == caller)).push(b),
            |x: Bid| x.agent == caller,
        ) == 1,
{
    let f = |x: Bid| x.agent == caller;
    let w = choose|k: int| 0 <= k < bids.len() && (#[trigger] bids[k]).agent == caller;
    assert(f(bids[w]));
    lemma_find_by_found(bids, f, w);
    lemma_find_by_properties(bids, f);
    let idx = find_by(bids, f);
    // the found bid is the agent's only one
    let removed = bids.remove(idx);
    assert forall|k: int| 0 <= k < removed.len() implies !f(#[trigger] removed[k]) by {
        if k < idx {
            assert(removed[k] == bids[k]);
        } else {
            assert(removed[k] == bids[k + 1]);
        }
    }
    lemma_count_by_none(removed, f);
    lemma_count_by_push(removed, b, f);
}

/// In every well-formed state, a job's escrow record is locked between the
/// same parties at exactly the accepted bid amount.
pub proof fn law_escrow_matches_accepted_amount(s: JobMarketplace, i: int)
    requires
        s.wf(),
        0 <= i < s.jobs@.len(),
        s.jobs@[i].escrow_reference is Some,
    ensures
        s.jobs@[i].accepted_bid_amount is Some,
        0 <= s.jobs@[i].escrow_reference->0 < s.escrows@.len(),
        s.escrows@[s.jobs@[i].escrow_reference->0 as int].amount
            == s.jobs@[i].accepted_bid_amount->0,
        s.escrows@[s.jobs@[i].escrow_reference->0 as int].client == s.jobs@[i].client,
{
    assert(s.wf_job(i));
}

/// Escrow monotonicity composes: across any chain of operations, a record
/// that has left `Locked` never changes again.
pub proof fn law_escrow_monotonic_trans(
    a: Seq<EscrowRecord>,
    b: Seq<EscrowRecord>,
    c: Seq<EscrowRecord>,
)
    requires
        escrow_monotonic(a, b),
        escrow_monotonic(b, c),
    ensures
        escrow_monotonic(a, c),
{
    assert forall|e: int|
        0 <= e < a.len() && a[e].status != EscrowStatus::Locked implies c[e] == a[e] by {
        assert(b[e] == a[e]);
    }
}

/// In every well-formed state at most one dispute is open per job: an open
/// dispute rules out a second one against the same job.
pub proof fn law_one_open_dispute_per_job(s: JobMarketplace, d1: int, d2: int)
    requires
        s.wf(),
        0 <= d1 < s.disputes@.len(),
        0 <= d2 < s.disputes@.len(),
        d1 != d2,
        s.disputes@[d1].job_id == s.disputes@[d2].job_id,
        s.disputes@[d1].status == DisputeStatus::Open,
    ensures
        s.disputes@[d2].status != DisputeStatus::Open,
{
    assert(s.wf_disputes());
}

/// Marking messages read is idempotent: over the message-list transition
/// that `mark_messages_read` ensures, a second pass with the same
/// identifier set changes nothing.
pub proof fn law_mark_read_idempotent(msgs: Seq<crate::types::ChatMessage>, ids: Seq<u64>)
    ensures
        mark_read_seq(mark_read_seq(msgs, ids), ids) == mark_read_seq(msgs, ids),
{
    let once = mark_read_seq(msgs, ids);
    let twice = mark_read_seq(once, ids);
    assert forall|m: int| 0 <= m < msgs.len() implies twice[m] == once[m] by {
        assert(once[m].message_id == msgs[m].message_id);
        if ids.contains(msgs[m].message_id) {
            assert(once[m] == marked_read(msgs[m]));
            assert(twice[m] == marked_read(once[m]));
        }
    }
    assert(twice =~= once);
}

} // verus!
