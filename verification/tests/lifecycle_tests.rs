use job_marketplace::state::JobMarketplace;
use job_marketplace::types::DisputeOutcome;
use job_marketplace::types::DisputeStatus;
use job_marketplace::types::EscrowStatus;
use job_marketplace::types::JobMarketplaceError;
use job_marketplace::types::JobStatus;
use job_marketplace::types::MilestoneInput;
use job_marketplace::types::MilestoneStatus;

const CLIENT: u64 = 1;
const AGENT: u64 = 2;
const OTHER_AGENT: u64 = 3;

fn pct(p: u64) -> MilestoneInput {
    MilestoneInput { payment_percentage: p, due_date: None }
}

fn fresh() -> JobMarketplace {
    let mut m = JobMarketplace::new();
    m.register_agent(AGENT, "Ada".to_string(), "builds things".to_string(), 5)
        .unwrap();
    m.register_agent(OTHER_AGENT, "Grace".to_string(), "fixes things".to_string(), 6)
        .unwrap();
    m
}

fn with_posted_job(milestones: Vec<MilestoneInput>) -> JobMarketplace {
    let mut m = fresh();
    let id = m
        .post_job(
            CLIENT,
            "wire the relay".to_string(),
            "full rewiring of the relay cabinet".to_string(),
            "electrical".to_string(),
            vec!["relay".to_string(), "urgent".to_string()],
            100,
            milestones,
            None,
            10,
        )
        .unwrap();
    assert_eq!(id, 1);
    m
}

fn with_accepted_bid() -> JobMarketplace {
    let mut m = with_posted_job(vec![pct(60), pct(40)]);
    m.place_bid(AGENT, 1, 90, "I can do it".to_string(), 7, 11).unwrap();
    m.accept_bid(CLIENT, 1, AGENT, 90, 12).unwrap();
    m
}

#[test]
fn post_job_with_exact_percentages_succeeds() {
    let m = with_posted_job(vec![pct(60), pct(40)]);
    assert_eq!(m.jobs.len(), 1);
    assert_eq!(m.jobs[0].status, JobStatus::Posted);
    assert_eq!(m.jobs[0].payment, 100);
    assert_eq!(m.jobs[0].milestones.len(), 2);
    assert_eq!(m.jobs[0].milestones[0].status, MilestoneStatus::Pending);
    assert_eq!(m.jobs[0].milestones[1].status, MilestoneStatus::Pending);
    assert!(m.jobs[0].agent.is_none());
    assert!(m.jobs[0].escrow_reference.is_none());
    assert_eq!(m.next_job_id, 2);
}

#[test]
fn post_job_with_wrong_percentages_fails() {
    let mut m = fresh();
    let r = m.post_job(
        CLIENT,
        "t".to_string(),
        "d".to_string(),
        "c".to_string(),
        vec![],
        100,
        vec![pct(60), pct(50)],
        None,
        10,
    );
    assert_eq!(r, Err(JobMarketplaceError::InvalidMilestonePercentages));
    assert_eq!(m.jobs.len(), 0);
}

#[test]
fn post_job_without_milestones_succeeds() {
    let m = with_posted_job(vec![]);
    assert_eq!(m.jobs[0].milestones.len(), 0);
}

#[test]
fn accept_bid_locks_escrow_at_bid_amount() {
    let m = with_accepted_bid();
    let j = &m.jobs[0];
    assert_eq!(j.status, JobStatus::InProgress);
    assert_eq!(j.agent, Some(AGENT));
    assert_eq!(j.accepted_bid_amount, Some(90));
    assert_eq!(j.escrow_reference, Some(0));
    assert_eq!(j.milestones[0].status, MilestoneStatus::InProgress);
    assert_eq!(j.milestones[1].status, MilestoneStatus::Pending);
    let e = &m.escrows[0];
    assert_eq!(e.amount, 90);
    assert_eq!(e.status, EscrowStatus::Locked);
    assert_eq!(e.client, CLIENT);
    assert_eq!(e.agent, AGENT);
    assert_eq!(e.locked_at, 12);
    assert_eq!(e.released_at, None);
}

#[test]
fn accept_bid_needs_exact_amount() {
    let mut m = with_posted_job(vec![]);
    m.place_bid(AGENT, 1, 90, "p".to_string(), 7, 11).unwrap();
    assert_eq!(m.accept_bid(CLIENT, 1, AGENT, 80, 12), Err(JobMarketplaceError::BidNotFound));
    assert_eq!(
        m.accept_bid(CLIENT, 1, OTHER_AGENT, 90, 12),
        Err(JobMarketplaceError::BidNotFound)
    );
}

#[test]
fn accept_bid_is_client_only() {
    let mut m = with_posted_job(vec![]);
    m.place_bid(AGENT, 1, 90, "p".to_string(), 7, 11).unwrap();
    assert_eq!(
        m.accept_bid(OTHER_AGENT, 1, AGENT, 90, 12),
        Err(JobMarketplaceError::NotAuthorized)
    );
}

#[test]
fn milestone_flow_submit_approve_advance_complete() {
    let mut m = with_accepted_bid();
    // agent submits milestone 0
    m.submit_milestone(AGENT, 1, 0).unwrap();
    assert_eq!(m.jobs[0].status, JobStatus::PendingApproval);
    assert_eq!(m.jobs[0].milestones[0].status, MilestoneStatus::Submitted);
    // client approves: milestone 1 starts, job back in progress
    m.approve_milestone(CLIENT, 1, 0, 20).unwrap();
    assert_eq!(m.jobs[0].milestones[0].status, MilestoneStatus::Approved);
    assert_eq!(m.jobs[0].milestones[1].status, MilestoneStatus::InProgress);
    assert_eq!(m.jobs[0].status, JobStatus::InProgress);
    // last milestone approved: job completes and the counter moves
    m.submit_milestone(AGENT, 1, 1).unwrap();
    m.approve_milestone(CLIENT, 1, 1, 30).unwrap();
    assert_eq!(m.jobs[0].status, JobStatus::Completed);
    assert_eq!(m.jobs[0].milestones[1].status, MilestoneStatus::Approved);
    assert_eq!(m.escrows[0].status, EscrowStatus::Released);
    assert_eq!(m.escrows[0].released_at, Some(30));
    let p = m.get_agent(AGENT).unwrap();
    assert_eq!(p.jobs_completed, 1);
    assert_eq!(p.success_rate, 100);
}

#[test]
fn submit_milestone_is_agent_only_and_needs_active_milestone() {
    let mut m = with_accepted_bid();
    assert_eq!(m.submit_milestone(CLIENT, 1, 0), Err(JobMarketplaceError::NotAuthorized));
    assert_eq!(m.submit_milestone(AGENT, 1, 1), Err(JobMarketplaceError::InvalidStatus));
    assert_eq!(m.submit_milestone(AGENT, 1, 9), Err(JobMarketplaceError::MilestoneNotFound));
    assert_eq!(m.submit_milestone(AGENT, 9, 0), Err(JobMarketplaceError::JobNotFound(9)));
}

#[test]
fn request_revision_rejects_milestone() {
    let mut m = with_accepted_bid();
    m.submit_milestone(AGENT, 1, 0).unwrap();
    m.request_revision(CLIENT, 1, 0).unwrap();
    assert_eq!(m.jobs[0].milestones[0].status, MilestoneStatus::Rejected);
    assert_eq!(m.jobs[0].status, JobStatus::InProgress);
}

#[test]
fn complete_job_forces_approval_and_releases_escrow() {
    let mut m = with_accepted_bid();
    m.complete_job(CLIENT, 1, 40).unwrap();
    assert_eq!(m.jobs[0].status, JobStatus::Completed);
    assert_eq!(m.jobs[0].milestones[0].status, MilestoneStatus::Approved);
    assert_eq!(m.jobs[0].milestones[1].status, MilestoneStatus::Approved);
    assert_eq!(m.escrows[0].status, EscrowStatus::Released);
    assert_eq!(m.escrows[0].released_at, Some(40));
    assert_eq!(m.get_agent(AGENT).unwrap().jobs_completed, 1);
    assert_eq!(m.get_agent(AGENT).unwrap().success_rate, 100);
}

#[test]
fn complete_job_is_client_only_and_needs_live_job() {
    let mut m = with_posted_job(vec![]);
    assert_eq!(m.complete_job(CLIENT, 1, 40), Err(JobMarketplaceError::InvalidStatus));
    m.place_bid(AGENT, 1, 90, "p".to_string(), 7, 11).unwrap();
    m.accept_bid(CLIENT, 1, AGENT, 90, 12).unwrap();
    assert_eq!(m.complete_job(AGENT, 1, 40), Err(JobMarketplaceError::NotAuthorized));
}

#[test]
fn cancel_job_only_while_posted() {
    let mut m = with_posted_job(vec![]);
    assert_eq!(m.cancel_job(AGENT, 1), Err(JobMarketplaceError::NotAuthorized));
    m.cancel_job(CLIENT, 1).unwrap();
    assert_eq!(m.jobs[0].status, JobStatus::Cancelled);
    assert_eq!(m.cancel_job(CLIENT, 1), Err(JobMarketplaceError::InvalidStatus));
    assert_eq!(m.cancel_job(CLIENT, 7), Err(JobMarketplaceError::JobNotFound(7)));
}

#[test]
fn place_bid_checks() {
    let mut m = with_posted_job(vec![]);
    // unregistered bidder
    assert_eq!(
        m.place_bid(77, 1, 50, "p".to_string(), 3, 11),
        Err(JobMarketplaceError::AgentNotRegistered)
    );
    // zero amount
    assert_eq!(
        m.place_bid(AGENT, 1, 0, "p".to_string(), 3, 11),
        Err(JobMarketplaceError::InvalidAmount)
    );
    // own job: the client must be registered for the check to be reached
    m.register_agent(CLIENT, "Cli".to_string(), "also an agent".to_string(), 7)
        .unwrap();
    assert_eq!(
        m.place_bid(CLIENT, 1, 50, "p".to_string(), 3, 11),
        Err(JobMarketplaceError::CannotBidOwnJob)
    );
    // duplicate bid
    m.place_bid(AGENT, 1, 50, "p".to_string(), 3, 11).unwrap();
    assert_eq!(
        m.place_bid(AGENT, 1, 60, "p2".to_string(), 3, 12),
        Err(JobMarketplaceError::AlreadyBid)
    );
}

#[test]
fn place_bid_respects_deadline() {
    let mut m = fresh();
    m.post_job(
        CLIENT,
        "t".to_string(),
        "d".to_string(),
        "c".to_string(),
        vec![],
        100,
        vec![],
        Some(100),
        10,
    )
    .unwrap();
    assert_eq!(
        m.place_bid(AGENT, 1, 50, "p".to_string(), 3, 101),
        Err(JobMarketplaceError::DeadlinePassed)
    );
    m.place_bid(AGENT, 1, 50, "p".to_string(), 3, 100).unwrap();
}

#[test]
fn withdraw_then_rebid_leaves_one_live_bid() {
    let mut m = with_posted_job(vec![]);
    m.place_bid(AGENT, 1, 50, "p".to_string(), 3, 11).unwrap();
    m.place_bid(OTHER_AGENT, 1, 60, "q".to_string(), 4, 11).unwrap();
    m.withdraw_bid(AGENT, 1).unwrap();
    assert_eq!(m.jobs[0].bids.len(), 1);
    assert_eq!(m.jobs[0].bids[0].agent, OTHER_AGENT);
    m.place_bid(AGENT, 1, 55, "p2".to_string(), 3, 12).unwrap();
    let live: Vec<u64> = m.jobs[0].bids.iter().map(|b| b.agent).collect();
    assert_eq!(live.iter().filter(|a| **a == AGENT).count(), 1);
    assert_eq!(m.withdraw_bid(CLIENT, 1), Err(JobMarketplaceError::BidNotFound));
}

#[test]
fn register_agent_twice_fails() {
    let mut m = fresh();
    assert_eq!(
        m.register_agent(AGENT, "x".to_string(), "y".to_string(), 8),
        Err(JobMarketplaceError::AgentAlreadyRegistered)
    );
    assert_eq!(m.agents.len(), 2);
}

#[test]
fn update_agent_profile_replaces_given_fields() {
    let mut m = fresh();
    m.update_agent_profile(AGENT, Some("Ada L".to_string()), None).unwrap();
    let p = m.get_agent(AGENT).unwrap();
    assert_eq!(p.name, "Ada L".to_string());
    assert_eq!(p.service_description, "builds things".to_string());
    assert_eq!(
        m.update_agent_profile(99, None, None),
        Err(JobMarketplaceError::AgentNotRegistered)
    );
}

#[test]
fn rate_agent_updates_counters() {
    let mut m = with_accepted_bid();
    m.complete_job(CLIENT, 1, 40).unwrap();
    assert_eq!(
        m.rate_agent(CLIENT, 1, 0, "meh".to_string(), 41),
        Err(JobMarketplaceError::InvalidRating)
    );
    assert_eq!(
        m.rate_agent(CLIENT, 1, 6, "wow".to_string(), 41),
        Err(JobMarketplaceError::InvalidRating)
    );
    assert_eq!(
        m.rate_agent(AGENT, 1, 5, "self praise".to_string(), 41),
        Err(JobMarketplaceError::NotAuthorized)
    );
    let rid = m.rate_agent(CLIENT, 1, 4, "good work".to_string(), 41).unwrap();
    assert_eq!(rid, 1);
    let p = m.get_agent(AGENT).unwrap();
    assert_eq!(p.total_rating_points, 4);
    assert_eq!(p.total_ratings, 1);
    assert_eq!(m.ratings[0].agent, AGENT);
    assert_eq!(m.ratings[0].rater, CLIENT);
}

#[test]
fn rate_agent_needs_completed_job() {
    let mut m = with_accepted_bid();
    assert_eq!(
        m.rate_agent(CLIENT, 1, 4, "early".to_string(), 41),
        Err(JobMarketplaceError::InvalidStatus)
    );
}

#[test]
fn second_open_dispute_fails() {
    let mut m = with_accepted_bid();
    let d = m.open_dispute(CLIENT, 1, "not delivered".to_string(), 50).unwrap();
    assert_eq!(d, 1);
    assert_eq!(m.jobs[0].status, JobStatus::Disputed);
    assert_eq!(
        m.open_dispute(CLIENT, 1, "again".to_string(), 51),
        Err(JobMarketplaceError::DisputeAlreadyOpen)
    );
    assert_eq!(
        m.open_dispute(AGENT, 1, "me too".to_string(), 51),
        Err(JobMarketplaceError::DisputeAlreadyOpen)
    );
}

#[test]
fn open_dispute_checks() {
    let mut m = with_posted_job(vec![]);
    assert_eq!(
        m.open_dispute(OTHER_AGENT, 1, "r".to_string(), 50),
        Err(JobMarketplaceError::NotAuthorized)
    );
    assert_eq!(
        m.open_dispute(CLIENT, 1, "r".to_string(), 50),
        Err(JobMarketplaceError::InvalidStatus)
    );
    assert_eq!(
        m.open_dispute(CLIENT, 9, "r".to_string(), 50),
        Err(JobMarketplaceError::JobNotFound(9))
    );
}

#[test]
fn respond_moves_dispute_under_review() {
    let mut m = with_accepted_bid();
    m.open_dispute(AGENT, 1, "payment worry".to_string(), 50).unwrap();
    assert_eq!(m.respond_to_dispute(OTHER_AGENT, 1), Err(JobMarketplaceError::NotAuthorized));
    m.respond_to_dispute(CLIENT, 1).unwrap();
    assert_eq!(m.disputes[0].status, DisputeStatus::UnderReview);
    assert_eq!(m.respond_to_dispute(CLIENT, 1), Err(JobMarketplaceError::InvalidStatus));
    assert_eq!(m.respond_to_dispute(CLIENT, 9), Err(JobMarketplaceError::DisputeNotFound));
}

#[test]
fn resolve_for_client_refunds_and_cancels() {
    let mut m = with_accepted_bid();
    m.open_dispute(CLIENT, 1, "bad work".to_string(), 50).unwrap();
    m.resolve_dispute(99, 1, DisputeOutcome::ForClient, None, "refund".to_string(), 60)
        .unwrap();
    assert_eq!(m.escrows[0].status, EscrowStatus::Refunded);
    assert_eq!(m.jobs[0].status, JobStatus::Cancelled);
    assert!(m.jobs[0].agent.is_none());
    assert!(m.jobs[0].escrow_reference.is_none());
    assert_eq!(m.disputes[0].status, DisputeStatus::ResolvedForClient);
    assert_eq!(m.disputes[0].resolved_at, Some(60));
}

#[test]
fn resolve_for_agent_releases_and_completes() {
    let mut m = with_accepted_bid();
    m.open_dispute(AGENT, 1, "client silent".to_string(), 50).unwrap();
    m.respond_to_dispute(CLIENT, 1).unwrap();
    m.resolve_dispute(99, 1, DisputeOutcome::ForAgent, None, "pay".to_string(), 61)
        .unwrap();
    assert_eq!(m.escrows[0].status, EscrowStatus::Released);
    assert_eq!(m.escrows[0].released_at, Some(61));
    assert_eq!(m.jobs[0].status, JobStatus::Completed);
    assert_eq!(m.disputes[0].status, DisputeStatus::ResolvedForAgent);
}

#[test]
fn resolve_split_marks_partial_refund() {
    let mut m = with_accepted_bid();
    m.open_dispute(CLIENT, 1, "half done".to_string(), 50).unwrap();
    m.resolve_dispute(99, 1, DisputeOutcome::Split, Some(40), "split".to_string(), 62)
        .unwrap();
    assert_eq!(m.escrows[0].status, EscrowStatus::PartiallyRefunded);
    assert_eq!(m.jobs[0].status, JobStatus::Completed);
    assert_eq!(m.disputes[0].refund_percentage, Some(40));
    // a resolved dispute cannot be resolved again
    assert_eq!(
        m.resolve_dispute(99, 1, DisputeOutcome::ForAgent, None, "again".to_string(), 63),
        Err(JobMarketplaceError::InvalidStatus)
    );
}

#[test]
fn dispute_then_new_dispute_after_resolution_is_blocked_by_status() {
    let mut m = with_accepted_bid();
    m.open_dispute(CLIENT, 1, "r".to_string(), 50).unwrap();
    m.resolve_dispute(99, 1, DisputeOutcome::ForAgent, None, "n".to_string(), 60)
        .unwrap();
    // the job is terminal now; no further dispute can be opened
    assert_eq!(
        m.open_dispute(CLIENT, 1, "late".to_string(), 70),
        Err(JobMarketplaceError::InvalidStatus)
    );
}

#[test]
fn milestone_due_dates_are_kept() {
    let mut m = fresh();
    m.post_job(
        CLIENT,
        "t".to_string(),
        "d".to_string(),
        "c".to_string(),
        vec![],
        100,
        vec![
            MilestoneInput { payment_percentage: 30, due_date: Some(500) },
            MilestoneInput { payment_percentage: 70, due_date: None },
        ],
        None,
        10,
    )
    .unwrap();
    assert_eq!(m.jobs[0].milestones[0].due_date, Some(500));
    assert_eq!(m.jobs[0].milestones[1].due_date, None);
    assert_eq!(m.jobs[0].milestones[0].milestone_id, 0);
    assert_eq!(m.jobs[0].milestones[1].milestone_id, 1);
}
