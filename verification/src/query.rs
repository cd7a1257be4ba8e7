//! The read surface: filtered, sorted and paginated job and agent listings,
//! counts, aggregate statistics, and record lookups. These are pure
//! projections over the state.

use vstd::prelude::*;
use vstd::multiset::Multiset;

use crate::milestones::agent_index;
use crate::seq_helpers::count_by;
use crate::seq_helpers::lemma_count_by_le_len;
use crate::state::is_registered;
use crate::state::JobMarketplace;
use crate::types::AgentProfile;
use crate::types::AgentRating;
use crate::types::Dispute;
use crate::types::EscrowRecord;
use crate::types::Job;
use crate::types::JobStatus;

verus! {

/// Filter options for job listings. Absent fields do not constrain.
pub struct JobFilter {
    pub status: Option<JobStatus>,
    pub min_payment: Option<u64>,
    pub max_payment: Option<u64>,
    pub client: Option<u64>,
    pub category: Option<String>,
    pub tag: Option<String>,
    /// Free-text match against the title or the description.
    pub text: Option<String>,
}

/// Sort key for job listings.
#[derive(Clone, Copy, PartialEq, Eq, Debug, Structural)]
pub enum JobSortField {
    CreatedAt,
    Payment,
    Id,
}

/// Sort direction for listings.
#[derive(Clone, Copy, PartialEq, Eq, Debug, Structural)]
pub enum SortDirection {
    Asc,
    Desc,
}

/// Filter options for agent listings. The rating threshold is given in
/// hundredths of a star to stay in integers: 350 means an average of 3.5.
pub struct AgentFilter {
    pub min_jobs_completed: Option<u64>,
    pub min_rating_hundredths: Option<u64>,
}

/// Sort key for agent listings.
#[derive(Clone, Copy, PartialEq, Eq, Debug, Structural)]
pub enum AgentSortField {
    JobsCompleted,
    Rating,
    RegisteredAt,
}

/// Aggregate marketplace statistics: job counts by status, the agent
/// count, and the total payment volume across all jobs.
pub struct MarketplaceStats {
    pub total_jobs: u64,
    pub posted_jobs: u64,
    pub in_progress_jobs: u64,
    pub pending_approval_jobs: u64,
    pub completed_jobs: u64,
    pub cancelled_jobs: u64,
    pub disputed_jobs: u64,
    pub total_agents: u64,
    pub total_payment_volume: u128,
}

/// `needle` occurs contiguously in `hay`.
pub open spec fn text_contains(hay: Seq<char>, needle: Seq<char>) -> bool {
    exists|i: int|
        0 <= i && i + needle.len() <= hay.len() && #[trigger] hay.subrange(i, i + needle.len())
            == needle
}

/// Whether a job passes a filter.
pub open spec fn matches_job_filter(j: Job, f: JobFilter) -> bool {
    &&& (f.status is Some ==> j.status == f.status->0)
    &&& (f.min_payment is Some ==> j.payment >= f.min_payment->0)
    &&& (f.max_payment is Some ==> j.payment <= f.max_payment->0)
    &&& (f.client is Some ==> j.client == f.client->0)
    &&& (f.category is Some ==> j.category@ == f.category->0@)
    &&& (f.tag is Some ==> exists|t: int| 0 <= t < j.tags@.len() && (#[trigger] j.tags@[t])@ == f.tag->0@)
    &&& (f.text is Some ==> text_contains(j.title@, f.text->0@) || text_contains(
        j.description@,
        f.text->0@,
    ))
}

/// The average rating of `p`, as the fraction num/den with a denominator
/// of one while no rating exists.
pub open spec fn rating_num(p: AgentProfile) -> int {
    if p.total_ratings == 0 {
        0
    } else {
        p.total_rating_points as int
    }
}

pub open spec fn rating_den(p: AgentProfile) -> int {
    if p.total_ratings == 0 {
        1
    } else {
        p.total_ratings as int
    }
}

/// Whether an agent passes a filter.
pub open spec fn matches_agent_filter(p: AgentProfile, f: AgentFilter) -> bool {
    &&& (f.min_jobs_completed is Some ==> p.jobs_completed >= f.min_jobs_completed->0)
    &&& (f.min_rating_hundredths is Some ==> rating_num(p) * 100 >= f.min_rating_hundredths->0
        * rating_den(p))
}

/// The job sort key.
pub open spec fn job_key(j: Job, field: JobSortField) -> int {
    match field {
        JobSortField::CreatedAt => j.created_at as int,
        JobSortField::Payment => j.payment as int,
        JobSortField::Id => j.id as int,
    }
}

/// The job ordering a listing is sorted by.
pub open spec fn job_leq(a: Job, b: Job, field: JobSortField, dir: SortDirection) -> bool {
    match dir {
        SortDirection::Asc => job_key(a, field) <= job_key(b, field),
        SortDirection::Desc => job_key(b, field) <= job_key(a, field),
    }
}

/// The agent ordering a listing is sorted by. Rating compares the two
/// averages as fractions, by cross-multiplication.
pub open spec fn agent_leq(
    a: AgentProfile,
    b: AgentProfile,
    field: AgentSortField,
    dir: SortDirection,
) -> bool {
    let le = match field {
        AgentSortField::JobsCompleted => a.jobs_completed <= b.jobs_completed,
        AgentSortField::Rating => rating_num(a) * rating_den(b) <= rating_num(b) * rating_den(a),
        AgentSortField::RegisteredAt => a.registered_at <= b.registered_at,
    };
    match dir {
        SortDirection::Asc => le,
        SortDirection::Desc => match field {
            AgentSortField::JobsCompleted => b.jobs_completed <= a.jobs_completed,
            AgentSortField::Rating => rating_num(b) * rating_den(a) <= rating_num(a) * rating_den(
                b,
            ),
            AgentSortField::RegisteredAt => b.registered_at <= a.registered_at,
        },
    }
}

/// The identifiers of the jobs passing a filter, in storage order.
pub open spec fn filtered_job_ids(jobs: Seq<Job>, f: JobFilter) -> Seq<u64>
    decreases jobs.len(),
{
    if jobs.len() == 0 {
        Seq::empty()
    } else {
        let rest = filtered_job_ids(jobs.drop_last(), f);
        if matches_job_filter(jobs.last(), f) {
            rest.push(jobs.last().id)
        } else {
            rest
        }
    }
}

/// The owners of the agents passing a filter, in storage order.
pub open spec fn filtered_agent_owners(agents: Seq<AgentProfile>, f: AgentFilter) -> Seq<u64>
    decreases agents.len(),
{
    if agents.len() == 0 {
        Seq::empty()
    } else {
        let rest = filtered_agent_owners(agents.drop_last(), f);
        if matches_agent_filter(agents.last(), f) {
            rest.push(agents.last().owner)
        } else {
            rest
        }
    }
}

/// How many entries the page [offset, offset+limit) of a list of `total`
/// entries holds.
pub open spec fn page_len(total: int, offset: int, limit: int) -> int {
    if offset >= total {
        0
    } else if offset + limit <= total {
        limit
    } else {
        total - offset
    }
}

/// The profile registered under `owner`.
pub open spec fn profile_of(s: JobMarketplace, owner: u64) -> AgentProfile {
    s.agents@[agent_index(s.agents@, owner)]
}


/// Total payment across all jobs.
pub open spec fn sum_payments(jobs: Seq<Job>) -> int
    decreases jobs.len(),
{
    if jobs.len() == 0 {
        0
    } else {
        sum_payments(jobs.drop_last()) + jobs.last().payment
    }
}

/// The agent ordering is total.
proof fn lemma_agent_leq_total(a: AgentProfile, b: AgentProfile, field: AgentSortField, dir: SortDirection)
    requires
        !agent_leq(a, b, field, dir),
    ensures
        agent_leq(b, a, field, dir),
{
}

/// The agent ordering is transitive. The rating case compares fractions by
/// cross-multiplication, with positive denominators.
proof fn lemma_agent_leq_trans(
    a: AgentProfile,
    b: AgentProfile,
    c: AgentProfile,
    field: AgentSortField,
    dir: SortDirection,
)
    requires
        agent_leq(a, b, field, dir),
        agent_leq(b, c, field, dir),
    ensures
        agent_leq(a, c, field, dir),
{
    if field == AgentSortField::Rating {
        let (na, da) = (rating_num(a), rating_den(a));
        let (nb, db) = (rating_num(b), rating_den(b));
        let (nc, dc) = (rating_num(c), rating_den(c));
        if dir == SortDirection::Asc {
            assert(na * dc <= nc * da) by (nonlinear_arith)
                requires
                    na * db <= nb * da,
                    nb * dc <= nc * db,
                    da >= 1,
                    db >= 1,
                    dc >= 1,
            ;
        } else {
            assert(nc * da <= na * dc) by (nonlinear_arith)
                requires
                    nb * da <= na * db,
                    nc * db <= nb * dc,
                    da >= 1,
                    db >= 1,
                    dc >= 1,
            ;
        }
    }
}

/// With unique owners, looking an owner up finds exactly its profile.
proof fn lemma_agent_index_of(s: JobMarketplace, i: int)
    requires
        s.wf(),
        0 <= i < s.agents@.len(),
    ensures
        agent_index(s.agents@, s.agents@[i].owner) == i,
{
    crate::seq_helpers::lemma_find_by_is_first(
        s.agents@,
        |p: AgentProfile| p.owner == s.agents@[i].owner,
        i,
    );
}

impl JobMarketplace {
    /// Whether `needle` occurs contiguously in `hay`, by characters.
    pub fn str_contains(hay: &str, needle: &str) -> (r: bool)
        ensures
            r == text_contains(hay@, needle@),
    {
        let hlen = hay.unicode_len();
        let nlen = needle.unicode_len();
        if nlen > hlen {
            return false;
        }
        if nlen == 0 {
            proof {
                assert(hay@.subrange(0, 0 + needle@.len() as int) =~= needle@);
            }
            return true;
        }
        let mut i: usize = 0;
        while i <= hlen - nlen
            invariant
                hlen == hay@.len(),
                nlen == needle@.len(),
                1 <= nlen <= hlen,
                i <= hlen - nlen + 1,
                forall|t: int|
                    0 <= t < i ==> #[trigger] hay@.subrange(t, t + needle@.len()) != needle@,
            decreases hlen - nlen + 1 - i,
        {
            let mut j: usize = 0;
            let mut matched = true;
            while j < nlen
                invariant
                    hlen == hay@.len(),
                    nlen == needle@.len(),
                    i + nlen <= hlen,
                    j <= nlen,
                    matched ==> forall|t: int| 0 <= t < j ==> hay@[i + t] == needle@[t],
                    !matched ==> hay@.subrange(i as int, i + needle@.len()) != needle@,
                decreases nlen - j,
            {
                if hay.get_char(i + j) != needle.get_char(j) {
                    proof {
                        let sub = hay@.subrange(i as int, i + needle@.len());
                        assert(sub[j as int] == hay@[i + j]);
                    }
                    matched = false;
                    j = nlen;
                } else {
                    j += 1;
                }
            }
            if matched {
                proof {
                    assert(hay@.subrange(i as int, i + needle@.len()) =~= needle@);
                }
                return true;
            }
            i += 1;
        }
        proof {
            if text_contains(hay@, needle@) {
                let t = choose|t: int|
                    0 <= t && t + needle@.len() <= hay@.len() && #[trigger] hay@.subrange(
                        t,
                        t + needle@.len(),
                    ) == needle@;
                assert(hay@.subrange(t, t + needle@.len()) != needle@);
            }
        }
        false
    }

    /// Whether one of the job's tags equals `tag`.
    fn has_tag(tags: &Vec<String>, tag: &String) -> (r: bool)
        ensures
            r == exists|t: int| 0 <= t < tags@.len() && (#[trigger] tags@[t])@ == tag@,
    {
        let mut k: usize = 0;
        while k < tags.len()
            invariant
                k <= tags@.len(),
                forall|t: int| 0 <= t < k ==> (#[trigger] tags@[t])@ != tag@,
            decreases tags@.len() - k,
        {
            if tags[k].eq(tag) {
                return true;
            }
            k += 1;
        }
        false
    }

    /// Whether a job passes a filter.
    pub fn job_matches(j: &Job, f: &JobFilter) -> (r: bool)
        ensures
            r == matches_job_filter(*j, *f),
    {
        if let Some(st) = &f.status {
            if j.status != *st {
                return false;
            }
        }
        if let Some(min) = &f.min_payment {
            if j.payment < *min {
                return false;
            }
        }
        if let Some(max) = &f.max_payment {
            if j.payment > *max {
                return false;
            }
        }
        if let Some(c) = &f.client {
            if j.client != *c {
                return false;
            }
        }
        if let Some(cat) = &f.category {
            if !j.category.eq(cat) {
                return false;
            }
        }
        if let Some(tag) = &f.tag {
            if !Self::has_tag(&j.tags, tag) {
                return false;
            }
        }
        if let Some(text) = &f.text {
            if !Self::str_contains(j.title.as_str(), text.as_str()) && !Self::str_contains(
                j.description.as_str(),
                text.as_str(),
            ) {
                return false;
            }
        }
        true
    }

    /// Whether an agent passes a filter.
    pub fn agent_matches(p: &AgentProfile, f: &AgentFilter) -> (r: bool)
        ensures
            r == matches_agent_filter(*p, *f),
    {
        if let Some(min) = &f.min_jobs_completed {
            if p.jobs_completed < *min {
                return false;
            }
        }
        if let Some(mr) = &f.min_rating_hundredths {
            let num: u128 = if p.total_ratings == 0 {
                0
            } else {
                p.total_rating_points as u128
            };
            let den: u128 = if p.total_ratings == 0 {
                1
            } else {
                p.total_ratings as u128
            };
            let m = *mr;
            proof {
                assert(num * 100 <= u128::MAX && (m as int) * (den as int) <= u128::MAX)
                    by (nonlinear_arith)
                    requires
                        num <= u64::MAX,
                        den <= u64::MAX,
                        m <= u64::MAX,
                ;
            }
            if num * 100 < (m as u128) * den {
                return false;
            }
        }
        true
    }

    /// How many jobs currently carry `status` (or exist at all, given no
    /// status).
    #[verifier::loop_isolation(false)]
    pub fn jobs_count(&self, status: Option<JobStatus>) -> (r: u64)
        requires
            self.wf(),
        ensures
            status is Some ==> r == count_by(self.jobs@, |j: Job| j.status == status->0),
            status is None ==> r == self.jobs@.len(),
    {
        match status {
            None => self.jobs.len() as u64,
            Some(st) => {
                let ghost f = |j: Job| j.status == st;
                let mut count: u64 = 0;
                let mut k: usize = 0;
                while k < self.jobs.len()
                    invariant
                        self.wf(),
                        st == status->0,
                        k <= self.jobs@.len(),
                        count == count_by(self.jobs@.take(k as int), f),
                        count <= k,
                    decreases self.jobs@.len() - k,
                {
                    let matched = self.jobs[k].status == st;
                    proof {
                        assert(self.jobs@.take(k as int + 1).drop_last() =~= self.jobs@.take(
                            k as int,
                        ));
                        assert(self.jobs@.take(k as int + 1).last() == self.jobs@[k as int]);
                        lemma_count_by_le_len(self.jobs@.take(k as int), f);
                        assert(f(self.jobs@[k as int]) == matched);
                        assert(count_by(self.jobs@.take(k as int + 1), f) == count_by(
                            self.jobs@.take(k as int),
                            f,
                        ) + if matched {
                            1nat
                        } else {
                            0nat
                        });
                    }
                    if matched {
                        count = count + 1;
                    }
                    k += 1;
                }
                proof {
                    assert(self.jobs@.take(self.jobs@.len() as int) =~= self.jobs@);
                }
                count
            },
        }
    }

    /// How many agents are registered.
    pub fn agents_count(&self) -> (r: u64)
        ensures
            r == self.agents@.len(),
    {
        self.agents.len() as u64
    }

    /// The identifiers of the jobs passing the filter, in storage order.
    fn collect_job_ids(&self, f: &JobFilter) -> (r: Vec<u64>)
        requires
            self.wf(),
        ensures
            r@ == filtered_job_ids(self.jobs@, *f),
            forall|k: int|
                0 <= k < r@.len() ==> self.job_id_ok(#[trigger] r@[k]) && matches_job_filter(
                    self.job(r@[k]),
                    *f,
                ),
    {
        let mut out: Vec<u64> = Vec::new();
        let mut k: usize = 0;
        while k < self.jobs.len()
            invariant
                self.wf(),
                k <= self.jobs@.len(),
                out@ == filtered_job_ids(self.jobs@.take(k as int), *f),
                forall|t: int|
                    0 <= t < out@.len() ==> self.job_id_ok(#[trigger] out@[t])
                        && matches_job_filter(self.job(out@[t]), *f),
            decreases self.jobs@.len() - k,
        {
            proof {
                assert(self.jobs@.take(k as int + 1).drop_last() =~= self.jobs@.take(k as int));
                assert(self.jobs@.take(k as int + 1).last() == self.jobs@[k as int]);
                assert(self.wf_job(k as int));
            }
            if Self::job_matches(&self.jobs[k], f) {
                out.push(self.jobs[k].id);
            }
            k += 1;
        }
        proof {
            assert(self.jobs@.take(self.jobs@.len() as int) =~= self.jobs@);
        }
        out
    }

    /// Whether the job under `a` sorts at or before the job under `b`.
    fn job_leq_exec(&self, a: u64, b: u64, field: JobSortField, dir: SortDirection) -> (r: bool)
        requires
            self.wf(),
            self.job_id_ok(a),
            self.job_id_ok(b),
        ensures
            r == job_leq(self.job(a), self.job(b), field, dir),
    {
        let n = self.jobs.len();
        let ja = &self.jobs[(a - 1) as usize];
        let jb = &self.jobs[(b - 1) as usize];
        let (ka, kb) = match field {
            JobSortField::CreatedAt => (ja.created_at, jb.created_at),
            JobSortField::Payment => (ja.payment, jb.payment),
            JobSortField::Id => (ja.id, jb.id),
        };
        match dir {
            SortDirection::Asc => ka <= kb,
            SortDirection::Desc => kb <= ka,
        }
    }

    /// Sort job identifiers by the requested order: the result is a
    /// permutation of the input, sorted.
    fn sort_job_ids(&self, ids: Vec<u64>, field: JobSortField, dir: SortDirection) -> (r: Vec<u64>)
        requires
            self.wf(),
            forall|k: int| 0 <= k < ids@.len() ==> self.job_id_ok(#[trigger] ids@[k]),
        ensures
            r@.len() == ids@.len(),
            r@.to_multiset() == ids@.to_multiset(),
            forall|k: int| 0 <= k < r@.len() ==> self.job_id_ok(#[trigger] r@[k]),
            forall|k1: int, k2: int|
                0 <= k1 < k2 < r@.len() ==> job_leq(
                    self.job(#[trigger] r@[k1]),
                    self.job(#[trigger] r@[k2]),
                    field,
                    dir,
                ),
    {
        broadcast use vstd::seq_lib::group_to_multiset_ensures;

        let mut rest = ids;
        let mut out: Vec<u64> = Vec::new();
        proof {
            assert(out@.to_multiset().add(rest@.to_multiset()) =~= ids@.to_multiset());
        }
        while rest.len() > 0
            invariant
                self.wf(),
                out@.len() + rest@.len() == ids@.len(),
                out@.to_multiset().add(rest@.to_multiset()) == ids@.to_multiset(),
                forall|k: int| 0 <= k < out@.len() ==> self.job_id_ok(#[trigger] out@[k]),
                forall|k: int| 0 <= k < rest@.len() ==> self.job_id_ok(#[trigger] rest@[k]),
                forall|k1: int, k2: int|
                    0 <= k1 < k2 < out@.len() ==> job_leq(
                        self.job(#[trigger] out@[k1]),
                        self.job(#[trigger] out@[k2]),
                        field,
                        dir,
                    ),
                forall|k1: int, k2: int|
                    0 <= k1 < out@.len() && 0 <= k2 < rest@.len() ==> job_leq(
                        self.job(#[trigger] out@[k1]),
                        self.job(#[trigger] rest@[k2]),
                        field,
                        dir,
                    ),
            decreases rest@.len(),
        {
            let mut m: usize = 0;
            let mut t: usize = 1;
            while t < rest.len()
                invariant
                    self.wf(),
                    forall|k: int| 0 <= k < rest@.len() ==> self.job_id_ok(#[trigger] rest@[k]),
                    m < t <= rest@.len(),
                    forall|k: int|
                        0 <= k < t ==> job_leq(
                            self.job(rest@[m as int]),
                            self.job(#[trigger] rest@[k]),
                            field,
                            dir,
                        ),
                decreases rest@.len() - t,
            {
                if !self.job_leq_exec(rest[m], rest[t], field, dir) {
                    m = t;
                }
                t += 1;
            }
            let ghost rest0 = rest@;
            let ghost out0 = out@;
            let v = rest.remove(m);
            out.push(v);
            proof {
                rest0.to_multiset_ensures();
                out0.to_multiset_ensures();
                assert(v == rest0[m as int]);
                assert(rest0.contains(v));
                assert(rest0.to_multiset().count(v) > 0);
                assert(out@ == out0.push(v));
                assert(out0.push(v).to_multiset() =~= out0.to_multiset().insert(v));
                assert(rest@ == rest0.remove(m as int));
                assert(rest0.remove(m as int).to_multiset() =~= rest0.to_multiset().remove(
                    rest0[m as int],
                ));
                assert(out@.to_multiset().add(rest@.to_multiset()) =~= ids@.to_multiset());
            }
        }
        proof {
            assert(rest@.to_multiset() =~= Multiset::<u64>::empty());
            assert(out@.to_multiset() =~= ids@.to_multiset());
            assert(out@.to_multiset().len() == ids@.to_multiset().len());
        }
        out
    }

    /// The page [offset, offset+limit) of `v`.
    fn paginate(v: Vec<u64>, offset: usize, limit: usize) -> (r: Vec<u64>)
        ensures
            r@.len() == page_len(v@.len() as int, offset as int, limit as int),
            forall|k: int| 0 <= k < r@.len() ==> #[trigger] r@[k] == v@[offset + k],
    {
        let mut out: Vec<u64> = Vec::new();
        if offset >= v.len() {
            return out;
        }
        let hi: usize = if limit < v.len() - offset {
            offset + limit
        } else {
            v.len()
        };
        let mut k: usize = offset;
        while k < hi
            invariant
                offset <= k <= hi <= v@.len(),
                out@.len() == k - offset,
                forall|t: int| 0 <= t < out@.len() ==> #[trigger] out@[t] == v@[offset + t],
            decreases hi - k,
        {
            out.push(v[k]);
            k += 1;
        }
        out
    }

    /// List jobs: the identifiers of the jobs passing `f`, sorted by the
    /// requested order, windowed to the page [offset, offset+limit). A page
    /// covering every match is a permutation of all matching identifiers.
    pub fn query_jobs(
        &self,
        f: &JobFilter,
        sort_by: JobSortField,
        dir: SortDirection,
        offset: usize,
        limit: usize,
    ) -> (r: Vec<u64>)
        requires
            self.wf(),
        ensures
            forall|k: int|
                0 <= k < r@.len() ==> self.job_id_ok(#[trigger] r@[k]) && matches_job_filter(
                    self.job(r@[k]),
                    *f,
                ),
            forall|k1: int, k2: int|
                0 <= k1 < k2 < r@.len() ==> job_leq(
                    self.job(#[trigger] r@[k1]),
                    self.job(#[trigger] r@[k2]),
                    sort_by,
                    dir,
                ),
            r@.len() == page_len(
                filtered_job_ids(self.jobs@, *f).len() as int,
                offset as int,
                limit as int,
            ),
            (offset == 0 && limit >= filtered_job_ids(self.jobs@, *f).len()) ==> r@.to_multiset()
                == filtered_job_ids(self.jobs@, *f).to_multiset(),
    {
        broadcast use vstd::seq_lib::group_to_multiset_ensures;

        let ids = self.collect_job_ids(f);
        let ghost all = ids@;
        let sorted = self.sort_job_ids(ids, sort_by, dir);
        proof {
            // every sorted entry is one of the collected matches
            assert forall|k: int|
                0 <= k < sorted@.len() implies self.job_id_ok(#[trigger] sorted@[k])
                && matches_job_filter(self.job(sorted@[k]), *f) by {
                assert(sorted@.to_multiset().contains(sorted@[k]));
                assert(all.contains(sorted@[k]));
            }
        }
        let r = Self::paginate(sorted, offset, limit);
        proof {
            if offset == 0 && limit >= all.len() {
                assert(r@ =~= sorted@);
            }
        }
        r
    }

    /// Indices of the agent profiles passing the filter, in storage order.
    fn collect_agent_idxs(&self, f: &AgentFilter) -> (r: Vec<usize>)
        requires
            self.wf(),
        ensures
            r@.len() == filtered_agent_owners(self.agents@, *f).len(),
            forall|k: int|
                0 <= k < r@.len() ==> (#[trigger] r@[k]) < self.agents@.len()
                    && matches_agent_filter(self.agents@[r@[k] as int], *f),
    {
        let mut out: Vec<usize> = Vec::new();
        let mut k: usize = 0;
        while k < self.agents.len()
            invariant
                self.wf(),
                k <= self.agents@.len(),
                out@.len() == filtered_agent_owners(self.agents@.take(k as int), *f).len(),
                forall|t: int|
                    0 <= t < out@.len() ==> (#[trigger] out@[t]) < self.agents@.len()
                        && matches_agent_filter(self.agents@[out@[t] as int], *f),
            decreases self.agents@.len() - k,
        {
            proof {
                assert(self.agents@.take(k as int + 1).drop_last() =~= self.agents@.take(
                    k as int,
                ));
                assert(self.agents@.take(k as int + 1).last() == self.agents@[k as int]);
            }
            if Self::agent_matches(&self.agents[k], f) {
                out.push(k);
            }
            k += 1;
        }
        proof {
            assert(self.agents@.take(self.agents@.len() as int) =~= self.agents@);
        }
        out
    }

    /// Whether the profile at `a` sorts at or before the profile at `b`.
    fn agent_leq_exec(&self, a: usize, b: usize, field: AgentSortField, dir: SortDirection) -> (r:
        bool)
        requires
            a < self.agents@.len(),
            b < self.agents@.len(),
        ensures
            r == agent_leq(self.agents@[a as int], self.agents@[b as int], field, dir),
    {
        let pa = &self.agents[a];
        let pb = &self.agents[b];
        match field {
            AgentSortField::JobsCompleted => match dir {
                SortDirection::Asc => pa.jobs_completed <= pb.jobs_completed,
                SortDirection::Desc => pb.jobs_completed <= pa.jobs_completed,
            },
            AgentSortField::RegisteredAt => match dir {
                SortDirection::Asc => pa.registered_at <= pb.registered_at,
                SortDirection::Desc => pb.registered_at <= pa.registered_at,
            },
            AgentSortField::Rating => {
                let (na, da): (u128, u128) = if pa.total_ratings == 0 {
                    (0, 1)
                } else {
                    (pa.total_rating_points as u128, pa.total_ratings as u128)
                };
                let (nb, db): (u128, u128) = if pb.total_ratings == 0 {
                    (0, 1)
                } else {
                    (pb.total_rating_points as u128, pb.total_ratings as u128)
                };
                proof {
                    assert(na * db <= u128::MAX && nb * da <= u128::MAX) by (nonlinear_arith)
                        requires
                            na <= u64::MAX,
                            nb <= u64::MAX,
                            da <= u64::MAX,
                            db <= u64::MAX,
                    ;
                }
                match dir {
                    SortDirection::Asc => na * db <= nb * da,
                    SortDirection::Desc => nb * da <= na * db,
                }
            },
        }
    }

    /// Sort agent indices by the requested order: the result is a
    /// permutation of the input, sorted.
    fn sort_agent_idxs(&self, idxs: Vec<usize>, field: AgentSortField, dir: SortDirection) -> (r:
        Vec<usize>)
        requires
            self.wf(),
            forall|k: int| 0 <= k < idxs@.len() ==> (#[trigger] idxs@[k]) < self.agents@.len(),
        ensures
            r@.len() == idxs@.len(),
            r@.to_multiset() == idxs@.to_multiset(),
            forall|k: int| 0 <= k < r@.len() ==> (#[trigger] r@[k]) < self.agents@.len(),
            forall|k1: int, k2: int|
                0 <= k1 < k2 < r@.len() ==> agent_leq(
                    self.agents@[(#[trigger] r@[k1]) as int],
                    self.agents@[(#[trigger] r@[k2]) as int],
                    field,
                    dir,
                ),
    {
        broadcast use vstd::seq_lib::group_to_multiset_ensures;

        let mut rest = idxs;
        let mut out: Vec<usize> = Vec::new();
        proof {
            assert(out@.to_multiset().add(rest@.to_multiset()) =~= idxs@.to_multiset());
        }
        while rest.len() > 0
            invariant
                self.wf(),
                out@.len() + rest@.len() == idxs@.len(),
                out@.to_multiset().add(rest@.to_multiset()) == idxs@.to_multiset(),
                forall|k: int| 0 <= k < out@.len() ==> (#[trigger] out@[k]) < self.agents@.len(),
                forall|k: int| 0 <= k < rest@.len() ==> (#[trigger] rest@[k]) < self.agents@.len(),
                forall|k1: int, k2: int|
                    0 <= k1 < k2 < out@.len() ==> agent_leq(
                        self.agents@[(#[trigger] out@[k1]) as int],
                        self.agents@[(#[trigger] out@[k2]) as int],
                        field,
                        dir,
                    ),
                forall|k1: int, k2: int|
                    0 <= k1 < out@.len() && 0 <= k2 < rest@.len() ==> agent_leq(
                        self.agents@[(#[trigger] out@[k1]) as int],
                        self.agents@[(#[trigger] rest@[k2]) as int],
                        field,
                        dir,
                    ),
            decreases rest@.len(),
        {
            let mut m: usize = 0;
            let mut t: usize = 1;
            while t < rest.len()
                invariant
                    self.wf(),
                    forall|k: int|
                        0 <= k < rest@.len() ==> (#[trigger] rest@[k]) < self.agents@.len(),
                    m < t <= rest@.len(),
                    forall|k: int|
                        0 <= k < t ==> agent_leq(
                            self.agents@[rest@[m as int] as int],
                            self.agents@[(#[trigger] rest@[k]) as int],
                            field,
                            dir,
                        ),
                decreases rest@.len() - t,
            {
                if !self.agent_leq_exec(rest[m], rest[t], field, dir) {
                    proof {
                        lemma_agent_leq_total(
                            self.agents@[rest@[m as int] as int],
                            self.agents@[rest@[t as int] as int],
                            field,
                            dir,
                        );
                        assert forall|k: int| 0 <= k < t implies agent_leq(
                            self.agents@[rest@[t as int] as int],
                            self.agents@[(#[trigger] rest@[k]) as int],
                            field,
                            dir,
                        ) by {
                            lemma_agent_leq_trans(
                                self.agents@[rest@[t as int] as int],
                                self.agents@[rest@[m as int] as int],
                                self.agents@[rest@[k] as int],
                                field,
                                dir,
                            );
                        }
                    }
                    m = t;
                }
                t += 1;
            }
            let ghost rest0 = rest@;
            let ghost out0 = out@;
            let v = rest.remove(m);
            out.push(v);
            proof {
                rest0.to_multiset_ensures();
                out0.to_multiset_ensures();
                assert(v == rest0[m as int]);
                assert(rest0.contains(v));
                assert(rest0.to_multiset().count(v) > 0);
                assert(out@ == out0.push(v));
                assert(out0.push(v).to_multiset() =~= out0.to_multiset().insert(v));
                assert(rest@ == rest0.remove(m as int));
                assert(rest0.remove(m as int).to_multiset() =~= rest0.to_multiset().remove(
                    rest0[m as int],
                ));
                assert(out@.to_multiset().add(rest@.to_multiset()) =~= idxs@.to_multiset());
            }
        }
        proof {
            assert(rest@.to_multiset() =~= Multiset::<usize>::empty());
            assert(out@.to_multiset() =~= idxs@.to_multiset());
            assert(out@.to_multiset().len() == idxs@.to_multiset().len());
        }
        out
    }

    /// List agents: the owners of the profiles passing `f`, sorted by the
    /// requested order, windowed to the page [offset, offset+limit).
    pub fn query_agents(
        &self,
        f: &AgentFilter,
        sort_by: AgentSortField,
        dir: SortDirection,
        offset: usize,
        limit: usize,
    ) -> (r: Vec<u64>)
        requires
            self.wf(),
        ensures
            forall|k: int|
                0 <= k < r@.len() ==> is_registered(self.agents@, #[trigger] r@[k])
                    && matches_agent_filter(profile_of(*self, r@[k]), *f),
            forall|k1: int, k2: int|
                0 <= k1 < k2 < r@.len() ==> agent_leq(
                    profile_of(*self, #[trigger] r@[k1]),
                    profile_of(*self, #[trigger] r@[k2]),
                    sort_by,
                    dir,
                ),
            r@.len() == page_len(
                filtered_agent_owners(self.agents@, *f).len() as int,
                offset as int,
                limit as int,
            ),
    {
        broadcast use vstd::seq_lib::group_to_multiset_ensures;

        let idxs = self.collect_agent_idxs(f);
        let ghost all = idxs@;
        let sorted = self.sort_agent_idxs(idxs, sort_by, dir);
        proof {
            assert forall|k: int|
                0 <= k < sorted@.len() implies (#[trigger] sorted@[k]) < self.agents@.len()
                && matches_agent_filter(self.agents@[sorted@[k] as int], *f) by {
                assert(sorted@.to_multiset().contains(sorted@[k]));
                assert(all.contains(sorted@[k]));
            }
        }
        let mut owners: Vec<u64> = Vec::new();
        let mut k: usize = 0;
        while k < sorted.len()
            invariant
                self.wf(),
                k <= sorted@.len(),
                owners@.len() == k,
                forall|t: int|
                    0 <= t < sorted@.len() ==> (#[trigger] sorted@[t]) < self.agents@.len()
                        && matches_agent_filter(self.agents@[sorted@[t] as int], *f),
                forall|t1: int, t2: int|
                    0 <= t1 < t2 < sorted@.len() ==> agent_leq(
                        self.agents@[(#[trigger] sorted@[t1]) as int],
                        self.agents@[(#[trigger] sorted@[t2]) as int],
                        sort_by,
                        dir,
                    ),
                forall|t: int|
                    0 <= t < k ==> (#[trigger] owners@[t]) == self.agents@[sorted@[t] as int].owner,
            decreases sorted@.len() - k,
        {
            owners.push(self.agents[sorted[k]].owner);
            k += 1;
        }
        proof {
            assert forall|t: int|
                0 <= t < owners@.len() implies is_registered(self.agents@, #[trigger] owners@[t])
                && profile_of(*self, owners@[t]) == self.agents@[sorted@[t] as int] by {
                lemma_agent_index_of(*self, sorted@[t] as int);
                assert(self.agents@[sorted@[t] as int].owner == owners@[t]);
            }
        }
        Self::paginate(owners, offset, limit)
    }

    /// The identifiers of the ratings recorded against `agent`.
    pub fn agent_ratings(&self, agent: u64) -> (r: Vec<u64>)
        requires
            self.wf(),
        ensures
            forall|k: int|
                0 <= k < r@.len() ==> 1 <= (#[trigger] r@[k]) && r@[k] <= self.ratings@.len()
                    && self.ratings@[r@[k] - 1].agent == agent,
            r@.len() == count_by(self.ratings@, |x: AgentRating| x.agent == agent),
    {
        let ghost f = |x: AgentRating| x.agent == agent;
        let mut out: Vec<u64> = Vec::new();
        let mut k: usize = 0;
        while k < self.ratings.len()
            invariant
                self.wf(),
                agent == agent,
                k <= self.ratings@.len(),
                out@.len() == count_by(self.ratings@.take(k as int), f),
                f == (|x: AgentRating| x.agent == agent),
                forall|t: int|
                    0 <= t < out@.len() ==> 1 <= (#[trigger] out@[t]) && out@[t]
                        <= self.ratings@.len() && self.ratings@[out@[t] - 1].agent == agent,
            decreases self.ratings@.len() - k,
        {
            proof {
                assert(self.ratings@.take(k as int + 1).drop_last() =~= self.ratings@.take(
                    k as int,
                ));
                assert(self.ratings@.take(k as int + 1).last() == self.ratings@[k as int]);
                assert(self.wf_rating(k as int));
            }
            if self.ratings[k].agent == agent {
                out.push(self.ratings[k].rating_id);
            }
            k += 1;
        }
        proof {
            assert(self.ratings@.take(self.ratings@.len() as int) =~= self.ratings@);
        }
        out
    }

    /// Aggregate statistics over the whole marketplace.
    pub fn stats(&self) -> (r: MarketplaceStats)
        requires
            self.wf(),
        ensures
            r.total_jobs == self.jobs@.len(),
            r.posted_jobs == count_by(self.jobs@, |j: Job| j.status == JobStatus::Posted),
            r.in_progress_jobs == count_by(self.jobs@, |j: Job| j.status == JobStatus::InProgress),
            r.pending_approval_jobs == count_by(
                self.jobs@,
                |j: Job| j.status == JobStatus::PendingApproval,
            ),
            r.completed_jobs == count_by(self.jobs@, |j: Job| j.status == JobStatus::Completed),
            r.cancelled_jobs == count_by(self.jobs@, |j: Job| j.status == JobStatus::Cancelled),
            r.disputed_jobs == count_by(self.jobs@, |j: Job| j.status == JobStatus::Disputed),
            r.total_agents == self.agents@.len(),
            r.total_payment_volume == sum_payments(self.jobs@),
    {
        let total_jobs = self.jobs.len() as u64;
        let posted_jobs = self.jobs_count(Some(JobStatus::Posted));
        let in_progress_jobs = self.jobs_count(Some(JobStatus::InProgress));
        let pending_approval_jobs = self.jobs_count(Some(JobStatus::PendingApproval));
        let completed_jobs = self.jobs_count(Some(JobStatus::Completed));
        let cancelled_jobs = self.jobs_count(Some(JobStatus::Cancelled));
        let disputed_jobs = self.jobs_count(Some(JobStatus::Disputed));
        let total_agents = self.agents.len() as u64;
        let mut volume: u128 = 0;
        let mut k: usize = 0;
        while k < self.jobs.len()
            invariant
                self.wf(),
                k <= self.jobs@.len(),
                volume == sum_payments(self.jobs@.take(k as int)),
                volume <= (k as int) * (u64::MAX as int),
            decreases self.jobs@.len() - k,
        {
            proof {
                assert(self.jobs@.take(k as int + 1).drop_last() =~= self.jobs@.take(k as int));
                assert(self.jobs@.take(k as int + 1).last() == self.jobs@[k as int]);
                assert((k as int + 1) * (u64::MAX as int) == (k as int) * (u64::MAX as int)
                    + u64::MAX);
                assert((k as int + 1) * (u64::MAX as int) <= (u64::MAX as int) * (
                u64::MAX as int)) by (nonlinear_arith)
                    requires
                        0 <= k,
                        k as int + 1 <= u64::MAX,
                ;
                assert((u64::MAX as int) * (u64::MAX as int) <= u128::MAX as int)
                    by (nonlinear_arith);
            }
            volume = volume + self.jobs[k].payment as u128;
            k += 1;
        }
        proof {
            assert(self.jobs@.take(self.jobs@.len() as int) =~= self.jobs@);
        }
        MarketplaceStats {
            total_jobs,
            posted_jobs,
            in_progress_jobs,
            pending_approval_jobs,
            completed_jobs,
            cancelled_jobs,
            disputed_jobs,
            total_agents,
            total_payment_volume: volume,
        }
    }

    /// The job stored under `job_id`, if any.
    pub fn get_job(&self, job_id: u64) -> (r: Option<&Job>)
        ensures
            match r {
                Some(j) => self.job_id_ok(job_id) && *j == self.job(job_id),
                None => !self.job_id_ok(job_id),
            },
    {
        if job_id < 1 || job_id > self.jobs.len() as u64 {
            None
        } else {
            Some(&self.jobs[(job_id - 1) as usize])
        }
    }

    /// The profile registered under `owner`, if any.
    pub fn get_agent(&self, owner: u64) -> (r: Option<&AgentProfile>)
        ensures
            match r {
                Some(p) => is_registered(self.agents@, owner) && *p == profile_of(*self, owner),
                None => !is_registered(self.agents@, owner),
            },
    {
        match self.find_agent(owner) {
            None => None,
            Some(i) => Some(&self.agents[i]),
        }
    }

    /// The dispute stored under `dispute_id`, if any.
    pub fn get_dispute(&self, dispute_id: u64) -> (r: Option<&Dispute>)
        ensures
            match r {
                Some(d) => self.dispute_id_ok(dispute_id) && *d == self.dispute(dispute_id),
                None => !self.dispute_id_ok(dispute_id),
            },
    {
        if dispute_id < 1 || dispute_id > self.disputes.len() as u64 {
            None
        } else {
            Some(&self.disputes[(dispute_id - 1) as usize])
        }
    }

    /// The escrow record held against `job_id`, if any.
    pub fn escrow_of_job(&self, job_id: u64) -> (r: Option<&EscrowRecord>)
        ensures
            match r {
                Some(e) => e.job_id == job_id && exists|k: int|
                    0 <= k < self.escrows@.len() && *e == self.escrows@[k],
                None => forall|k: int|
                    0 <= k < self.escrows@.len() ==> (#[trigger] self.escrows@[k]).job_id != job_id,
            },
    {
        let mut k: usize = 0;
        while k < self.escrows.len()
            invariant
                k <= self.escrows@.len(),
                forall|t: int|
                    0 <= t < k ==> (#[trigger] self.escrows@[t]).job_id != job_id,
            decreases self.escrows@.len() - k,
        {
            if self.escrows[k].job_id == job_id {
                return Some(&self.escrows[k]);
            }
            k += 1;
        }
        None
    }
}

} // verus!
