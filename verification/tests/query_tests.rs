use job_marketplace::dispatch::Operation;
use job_marketplace::query::AgentFilter;
use job_marketplace::query::AgentSortField;
use job_marketplace::query::JobFilter;
use job_marketplace::query::JobSortField;
use job_marketplace::query::SortDirection;
use job_marketplace::state::JobMarketplace;
use job_marketplace::types::JobMarketplaceError;
use job_marketplace::types::JobStatus;

const CLIENT: u64 = 1;
const AGENT: u64 = 2;

fn no_filter() -> JobFilter {
    JobFilter {
        status: None,
        min_payment: None,
        max_payment: None,
        client: None,
        category: None,
        tag: None,
        text: None,
    }
}

fn post(m: &mut JobMarketplace, title: &str, category: &str, tag: &str, payment: u64, now: u64) {
    m.post_job(
        CLIENT,
        title.to_string(),
        format!("description of {}", title),
        category.to_string(),
        vec![tag.to_string()],
        payment,
        vec![],
        None,
        now,
    )
    .unwrap();
}

fn sample() -> JobMarketplace {
    let mut m = JobMarketplace::new();
    m.register_agent(AGENT, "Ada".to_string(), "builds".to_string(), 1).unwrap();
    post(&mut m, "paint the fence", "garden", "paint", 50, 10);
    post(&mut m, "weld the hinge", "garden", "metal", 200, 11);
    post(&mut m, "paint the shed", "buildings", "paint", 120, 12);
    m
}

#[test]
fn filter_by_category_and_tag() {
    let m = sample();
    let mut f = no_filter();
    f.category = Some("garden".to_string());
    let r = m.query_jobs(&f, JobSortField::Id, SortDirection::Asc, 0, 100);
    assert_eq!(r, vec![1, 2]);
    let mut f = no_filter();
    f.tag = Some("paint".to_string());
    let r = m.query_jobs(&f, JobSortField::Id, SortDirection::Asc, 0, 100);
    assert_eq!(r, vec![1, 3]);
}

#[test]
fn filter_by_payment_range_and_status() {
    let mut m = sample();
    m.cancel_job(CLIENT, 2).unwrap();
    let mut f = no_filter();
    f.min_payment = Some(100);
    f.max_payment = Some(250);
    let r = m.query_jobs(&f, JobSortField::Id, SortDirection::Asc, 0, 100);
    assert_eq!(r, vec![2, 3]);
    let mut f = no_filter();
    f.status = Some(JobStatus::Posted);
    let r = m.query_jobs(&f, JobSortField::Id, SortDirection::Asc, 0, 100);
    assert_eq!(r, vec![1, 3]);
}

#[test]
fn free_text_match_searches_title_and_description() {
    let m = sample();
    let mut f = no_filter();
    f.text = Some("shed".to_string());
    let r = m.query_jobs(&f, JobSortField::Id, SortDirection::Asc, 0, 100);
    assert_eq!(r, vec![3]);
    let mut f = no_filter();
    f.text = Some("the ".to_string());
    let r = m.query_jobs(&f, JobSortField::Id, SortDirection::Asc, 0, 100);
    assert_eq!(r, vec![1, 2, 3]);
    let mut f = no_filter();
    f.text = Some("windmill".to_string());
    let r = m.query_jobs(&f, JobSortField::Id, SortDirection::Asc, 0, 100);
    assert_eq!(r, Vec::<u64>::new());
}

#[test]
fn str_contains_edge_cases() {
    assert!(JobMarketplace::str_contains("abc", ""));
    assert!(JobMarketplace::str_contains("abc", "abc"));
    assert!(JobMarketplace::str_contains("abcabd", "abd"));
    assert!(!JobMarketplace::str_contains("ab", "abc"));
    assert!(!JobMarketplace::str_contains("abcabe", "abd"));
}

#[test]
fn sort_by_payment_both_directions() {
    let m = sample();
    let r = m.query_jobs(&no_filter(), JobSortField::Payment, SortDirection::Asc, 0, 100);
    assert_eq!(r, vec![1, 3, 2]);
    let r = m.query_jobs(&no_filter(), JobSortField::Payment, SortDirection::Desc, 0, 100);
    assert_eq!(r, vec![2, 3, 1]);
}

#[test]
fn pagination_windows_the_sorted_list() {
    let m = sample();
    let r = m.query_jobs(&no_filter(), JobSortField::Payment, SortDirection::Asc, 1, 1);
    assert_eq!(r, vec![3]);
    let r = m.query_jobs(&no_filter(), JobSortField::Payment, SortDirection::Asc, 2, 5);
    assert_eq!(r, vec![2]);
    let r = m.query_jobs(&no_filter(), JobSortField::Payment, SortDirection::Asc, 9, 5);
    assert_eq!(r, Vec::<u64>::new());
}

#[test]
fn agent_listing_filters_and_sorts_by_rating() {
    let mut m = JobMarketplace::new();
    m.register_agent(10, "a".to_string(), "s".to_string(), 1).unwrap();
    m.register_agent(11, "b".to_string(), "s".to_string(), 2).unwrap();
    // agent 10 completes a job rated 3; agent 11 completes one rated 5
    for (agent, rating) in [(10u64, 3u8), (11u64, 5u8)] {
        let job_id = m
            .post_job(
                CLIENT,
                "t".to_string(),
                "d".to_string(),
                "c".to_string(),
                vec![],
                100,
                vec![],
                None,
                5,
            )
            .unwrap();
        m.place_bid(agent, job_id, 90, "p".to_string(), 3, 6).unwrap();
        m.accept_bid(CLIENT, job_id, agent, 90, 7).unwrap();
        m.complete_job(CLIENT, job_id, 8).unwrap();
        m.rate_agent(CLIENT, job_id, rating, "r".to_string(), 9).unwrap();
    }
    let f = AgentFilter { min_jobs_completed: None, min_rating_hundredths: None };
    let r = m.query_agents(&f, AgentSortField::Rating, SortDirection::Desc, 0, 100);
    assert_eq!(r, vec![11, 10]);
    // 3 stars = 300 hundredths; a 3.5 floor keeps only the 5-star agent
    let f = AgentFilter { min_jobs_completed: None, min_rating_hundredths: Some(350) };
    let r = m.query_agents(&f, AgentSortField::JobsCompleted, SortDirection::Asc, 0, 100);
    assert_eq!(r, vec![11]);
    let f = AgentFilter { min_jobs_completed: Some(2), min_rating_hundredths: None };
    let r = m.query_agents(&f, AgentSortField::JobsCompleted, SortDirection::Asc, 0, 100);
    assert_eq!(r, Vec::<u64>::new());
}

#[test]
fn counts_and_stats() {
    let mut m = sample();
    m.cancel_job(CLIENT, 1).unwrap();
    m.place_bid(AGENT, 2, 150, "p".to_string(), 3, 20).unwrap();
    m.accept_bid(CLIENT, 2, AGENT, 150, 21).unwrap();
    assert_eq!(m.jobs_count(None), 3);
    assert_eq!(m.jobs_count(Some(JobStatus::Posted)), 1);
    assert_eq!(m.jobs_count(Some(JobStatus::Cancelled)), 1);
    assert_eq!(m.jobs_count(Some(JobStatus::InProgress)), 1);
    assert_eq!(m.agents_count(), 1);
    let s = m.stats();
    assert_eq!(s.total_jobs, 3);
    assert_eq!(s.posted_jobs, 1);
    assert_eq!(s.cancelled_jobs, 1);
    assert_eq!(s.in_progress_jobs, 1);
    assert_eq!(s.completed_jobs, 0);
    assert_eq!(s.total_agents, 1);
    assert_eq!(s.total_payment_volume, 370);
}

#[test]
fn lookups() {
    let m = sample();
    assert_eq!(m.get_job(2).unwrap().payment, 200);
    assert!(m.get_job(9).is_none());
    assert_eq!(m.get_agent(AGENT).unwrap().name, "Ada".to_string());
    assert!(m.get_agent(42).is_none());
    assert!(m.get_dispute(1).is_none());
    assert!(m.escrow_of_job(1).is_none());
}

#[test]
fn escrow_lookup_after_acceptance() {
    let mut m = sample();
    m.place_bid(AGENT, 3, 100, "p".to_string(), 3, 20).unwrap();
    m.accept_bid(CLIENT, 3, AGENT, 100, 21).unwrap();
    let e = m.escrow_of_job(3).unwrap();
    assert_eq!(e.amount, 100);
    assert!(m.escrow_of_job(1).is_none());
}

#[test]
fn agent_ratings_lists_only_that_agent() {
    let mut m = JobMarketplace::new();
    m.register_agent(10, "a".to_string(), "s".to_string(), 1).unwrap();
    m.register_agent(11, "b".to_string(), "s".to_string(), 2).unwrap();
    for agent in [10u64, 11u64, 10u64] {
        let job_id = m
            .post_job(
                CLIENT,
                "t".to_string(),
                "d".to_string(),
                "c".to_string(),
                vec![],
                100,
                vec![],
                None,
                5,
            )
            .unwrap();
        m.place_bid(agent, job_id, 90, "p".to_string(), 3, 6).unwrap();
        m.accept_bid(CLIENT, job_id, agent, 90, 7).unwrap();
        m.complete_job(CLIENT, job_id, 8).unwrap();
        m.rate_agent(CLIENT, job_id, 4, "r".to_string(), 9).unwrap();
    }
    assert_eq!(m.agent_ratings(10), vec![1, 3]);
    assert_eq!(m.agent_ratings(11), vec![2]);
}

#[test]
fn messages_and_idempotent_read_marking() {
    let mut m = sample();
    m.place_bid(AGENT, 1, 40, "p".to_string(), 3, 20).unwrap();
    m.accept_bid(CLIENT, 1, AGENT, 40, 21).unwrap();
    let m1 = m.send_message(CLIENT, 1, "how is it going?".to_string(), 22).unwrap();
    let m2 = m.send_message(AGENT, 1, "halfway there".to_string(), 23).unwrap();
    assert_eq!((m1, m2), (1, 2));
    assert_eq!(
        m.send_message(77, 1, "hi".to_string(), 24),
        Err(JobMarketplaceError::NotAuthorized)
    );
    assert_eq!(
        m.send_message(CLIENT, 9, "hi".to_string(), 24),
        Err(JobMarketplaceError::JobNotFound(9))
    );
    let ids = vec![1u64, 2u64];
    m.mark_messages_read(CLIENT, &ids).unwrap();
    let flags_once: Vec<bool> = m.messages.iter().map(|x| x.read).collect();
    assert_eq!(flags_once, vec![true, true]);
    // marking again changes nothing
    m.mark_messages_read(CLIENT, &ids).unwrap();
    let flags_twice: Vec<bool> = m.messages.iter().map(|x| x.read).collect();
    assert_eq!(flags_twice, flags_once);
    // a failing set changes nothing
    let bad = vec![1u64, 9u64];
    assert_eq!(m.mark_messages_read(CLIENT, &bad), Err(JobMarketplaceError::MessageNotFound));
    assert_eq!(
        m.mark_messages_read(77, &ids),
        Err(JobMarketplaceError::NotAuthorized)
    );
}

#[test]
fn dispatcher_authenticates_and_routes() {
    let mut m = JobMarketplace::new();
    assert_eq!(
        m.execute_operation(
            None,
            1,
            Operation::RegisterAgent { name: "a".to_string(), service_description: "s".to_string() },
        ),
        Err(JobMarketplaceError::NotAuthorized)
    );
    m.execute_operation(
        Some(AGENT),
        1,
        Operation::RegisterAgent { name: "a".to_string(), service_description: "s".to_string() },
    )
    .unwrap();
    m.execute_operation(
        Some(CLIENT),
        2,
        Operation::PostJob {
            title: "t".to_string(),
            description: "d".to_string(),
            category: "c".to_string(),
            tags: vec![],
            payment: 10,
            milestones: vec![],
            deadline: None,
        },
    )
    .unwrap();
    m.execute_operation(
        Some(AGENT),
        3,
        Operation::PlaceBid {
            job_id: 1,
            amount: 9,
            proposal: "p".to_string(),
            estimated_days: 2,
        },
    )
    .unwrap();
    m.execute_operation(Some(CLIENT), 4, Operation::AcceptBid { job_id: 1, agent: AGENT, amount: 9 })
        .unwrap();
    assert_eq!(m.jobs[0].status, JobStatus::InProgress);
    m.execute_operation(Some(CLIENT), 5, Operation::CompleteJob { job_id: 1 }).unwrap();
    assert_eq!(m.jobs[0].status, JobStatus::Completed);
}

#[test]
fn accessors_expose_the_stores() {
    let mut m = sample();
    assert_eq!(m.jobs().len(), 3);
    assert_eq!(m.agents().len(), 1);
    assert_eq!(m.ratings().len(), 0);
    assert_eq!(m.next_job_id(), 4);
    assert_eq!(m.next_rating_id(), 1);
    *m.next_job_id_mut() = 9;
    assert_eq!(m.next_job_id(), 9);
    m.jobs_mut().clear();
    assert_eq!(m.jobs().len(), 0);
    assert!(m.agents_mut().pop().is_some());
    assert!(m.ratings_mut().pop().is_none());
}

#[test]
fn volume_handles_the_largest_payments() {
    let mut m = JobMarketplace::new();
    for now in 0..3u64 {
        m.post_job(
            CLIENT,
            "t".to_string(),
            "d".to_string(),
            "c".to_string(),
            vec![],
            u64::MAX,
            vec![],
            None,
            now,
        )
        .unwrap();
    }
    let s = m.stats();
    assert_eq!(s.total_payment_volume, 3 * (u64::MAX as u128));
}

#[test]
fn rating_filter_boundary_is_inclusive() {
    let mut m = JobMarketplace::new();
    m.register_agent(10, "a".to_string(), "s".to_string(), 1).unwrap();
    // two completed jobs rated 4 and 5: average 4.5 = 450 hundredths
    for rating in [4u8, 5u8] {
        let job_id = m
            .post_job(
                CLIENT,
                "t".to_string(),
                "d".to_string(),
                "c".to_string(),
                vec![],
                100,
                vec![],
                None,
                5,
            )
            .unwrap();
        m.place_bid(10, job_id, 90, "p".to_string(), 3, 6).unwrap();
        m.accept_bid(CLIENT, job_id, 10, 90, 7).unwrap();
        m.complete_job(CLIENT, job_id, 8).unwrap();
        m.rate_agent(CLIENT, job_id, rating, "r".to_string(), 9).unwrap();
    }
    let f = AgentFilter { min_jobs_completed: None, min_rating_hundredths: Some(450) };
    assert_eq!(
        m.query_agents(&f, AgentSortField::Rating, SortDirection::Asc, 0, 10),
        vec![10]
    );
    let f = AgentFilter { min_jobs_completed: None, min_rating_hundredths: Some(451) };
    assert_eq!(
        m.query_agents(&f, AgentSortField::Rating, SortDirection::Asc, 0, 10),
        Vec::<u64>::new()
    );
    // the running success average stays on the 0..=100 scale
    assert_eq!(m.get_agent(10).unwrap().success_rate, 100);
    assert_eq!(m.get_agent(10).unwrap().jobs_completed, 2);
}
