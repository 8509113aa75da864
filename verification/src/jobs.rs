//! Background jobs: per-kind leases with an owner and an expiry, and the log
//! of job runs, listed newest first and pruned by age.

use vstd::prelude::*;
use crate::errors::MemcoreError;
use crate::pagination::{
    PageCursor, cursor_of_last, key_id, keys_unique, kept_keys, lemma_cursor_pages, is_desc_page, cut_page, page_continues, after_cursor, is_after_cursor_in_desc_order, is_top_page, is_top_positions, lemma_top_page_order,
    page_limit_error_text, page_limit_valid, top_desc_positions, validate_page_limit,
};
use crate::seqs::{lemma_filter_members, lemma_filter_take_step, lemma_take_full};
use crate::text::str_eq;
use crate::types::copy_opt_string;

verus! {

/// Job the scheduler runs.
#[derive(Clone, Copy, Debug, PartialEq, Eq, Structural)]
pub enum BackgroundJobKind {
    MemoryUsageSnapshot,
    ProviderUsageRetention,
}

/// Outcome of one job run.
#[derive(Clone, Copy, Debug, PartialEq, Eq, Structural)]
pub enum BackgroundJobStatus {
    Succeeded,
    Failed,
    Skipped,
}

pub open spec fn kind_slot(kind: BackgroundJobKind) -> int {
    match kind {
        BackgroundJobKind::MemoryUsageSnapshot => 0,
        BackgroundJobKind::ProviderUsageRetention => 1,
    }
}

fn kind_index(kind: BackgroundJobKind) -> (r: usize)
    ensures
        r == kind_slot(kind),
{
    match kind {
        BackgroundJobKind::MemoryUsageSnapshot => 0,
        BackgroundJobKind::ProviderUsageRetention => 1,
    }
}

/// The lease a job kind is held under.
#[derive(Debug)]
pub struct JobLockRecord {
    pub kind: BackgroundJobKind,
    pub owner_id: String,
    pub locked_until: i128,
    pub acquired_at: i128,
    pub heartbeat_at: Option<i128>,
}

pub struct JobLockView {
    pub kind: BackgroundJobKind,
    pub owner_id: Seq<char>,
    pub locked_until: i128,
    pub acquired_at: i128,
    pub heartbeat_at: Option<i128>,
}

impl View for JobLockRecord {
    type V = JobLockView;

    open spec fn view(&self) -> JobLockView {
        JobLockView {
            kind: self.kind,
            owner_id: self.owner_id@,
            locked_until: self.locked_until,
            acquired_at: self.acquired_at,
            heartbeat_at: self.heartbeat_at,
        }
    }
}

impl JobLockRecord {
    pub fn duplicate(&self) -> (r: JobLockRecord)
        ensures
            r@ == self@,
    {
        JobLockRecord {
            kind: self.kind,
            owner_id: self.owner_id.clone(),
            locked_until: self.locked_until,
            acquired_at: self.acquired_at,
            heartbeat_at: self.heartbeat_at,
        }
    }
}

/// What a successful acquisition hands back.
#[derive(Debug)]
pub struct AcquiredJobLock {
    pub kind: BackgroundJobKind,
    pub owner_id: String,
    pub locked_until: i128,
}

/// End of a lease of `ttl_nanos` taken at `now`, saturating at the largest
/// timestamp.
pub open spec fn lease_end(now: i128, ttl_nanos: u64) -> i128 {
    if now + ttl_nanos > i128::MAX {
        i128::MAX
    } else {
        (now + ttl_nanos) as i128
    }
}

pub fn lock_until_from_ttl(now: i128, ttl_nanos: u64) -> (r: i128)
    ensures
        r == lease_end(now, ttl_nanos),
{
    let ttl = ttl_nanos as i128;
    if now > i128::MAX - ttl {
        i128::MAX
    } else {
        now + ttl
    }
}

/// Another owner holds an unexpired lease on `kind`.
pub open spec fn acquire_blocked(locks: Map<BackgroundJobKind, JobLockView>, kind: BackgroundJobKind, owner: Seq<char>, now: i128) -> bool {
    locks.contains_key(kind) && locks[kind].locked_until > now && locks[kind].owner_id != owner
}

/// The lease a successful acquisition records.
pub open spec fn fresh_lease(kind: BackgroundJobKind, owner: Seq<char>, ttl_nanos: u64, now: i128) -> JobLockView {
    JobLockView { kind, owner_id: owner, locked_until: lease_end(now, ttl_nanos), acquired_at: now, heartbeat_at: None }
}

/// `owner` holds the lease on `kind`, expired or not.
pub open spec fn held_by(locks: Map<BackgroundJobKind, JobLockView>, kind: BackgroundJobKind, owner: Seq<char>) -> bool {
    locks.contains_key(kind) && locks[kind].owner_id == owner
}

/// What a row-backed store writes to take a lease, given the row it read
/// for the kind inside its transaction.
#[derive(Clone, Copy, Debug, PartialEq, Eq, Structural)]
pub enum LeaseWrite {
    /// Another owner's lease is still running: nothing is written.
    Blocked,
    /// The row is overwritten with a fresh lease.
    Replace,
    /// No row exists: a fresh lease is inserted.
    Insert,
}

pub open spec fn lease_write_of(existing: Option<JobLockView>, owner: Seq<char>, now: i128) -> LeaseWrite {
    match existing {
        None => LeaseWrite::Insert,
        Some(l) => if l.locked_until > now && l.owner_id != owner {
            LeaseWrite::Blocked
        } else {
            LeaseWrite::Replace
        },
    }
}

/// Decides the write for an acquisition by `owner_id` at `now`.
pub fn lease_write(existing: &Option<JobLockRecord>, owner_id: &str, now: i128) -> (r: LeaseWrite)
    ensures
        r == lease_write_of(
            match existing {
                Some(l) => Some(l@),
                None => None,
            },
            owner_id@,
            now,
        ),
{
    match existing {
        None => LeaseWrite::Insert,
        Some(l) => if l.locked_until > now && !str_eq(l.owner_id.as_str(), owner_id) {
            LeaseWrite::Blocked
        } else {
            LeaseWrite::Replace
        },
    }
}

/// The row-backed decision refuses exactly when the in-memory store does:
/// reading the kind's lease from the same state, it blocks iff another
/// owner's lease is unexpired, and otherwise writes the fresh lease.
pub proof fn law_lease_write_agrees(locks: Map<BackgroundJobKind, JobLockView>, kind: BackgroundJobKind, owner: Seq<char>, now: i128)
    ensures
        (lease_write_of(if locks.contains_key(kind) { Some(locks[kind]) } else { None }, owner, now) == LeaseWrite::Blocked)
            <==> acquire_blocked(locks, kind, owner, now),
        (lease_write_of(if locks.contains_key(kind) { Some(locks[kind]) } else { None }, owner, now) == LeaseWrite::Insert)
            <==> !locks.contains_key(kind),
{
}

/// Leases kept in memory, one slot per job kind.
pub struct MockBackgroundJobLockStore {
    slots: Vec<Option<JobLockRecord>>,
}

impl View for MockBackgroundJobLockStore {
    type V = Map<BackgroundJobKind, JobLockView>;

    closed spec fn view(&self) -> Map<BackgroundJobKind, JobLockView> {
        Map::new(
            |k: BackgroundJobKind| self.slots@[kind_slot(k)] is Some,
            |k: BackgroundJobKind| self.slots@[kind_slot(k)]->Some_0@,
        )
    }
}

impl MockBackgroundJobLockStore {
    pub closed spec fn wf(&self) -> bool {
        &&& self.slots@.len() == 2
        &&& forall|k: BackgroundJobKind| (#[trigger] self.slots@[kind_slot(k)]) matches Some(r) ==> r.kind == k
    }

    pub fn new() -> (s: MockBackgroundJobLockStore)
        ensures
            s.wf(),
            s@ == Map::<BackgroundJobKind, JobLockView>::empty(),
    {
        let mut slots: Vec<Option<JobLockRecord>> = Vec::new();
        slots.push(None);
        slots.push(None);
        let s = MockBackgroundJobLockStore { slots };
        assert(s@ =~= Map::<BackgroundJobKind, JobLockView>::empty());
        s
    }

    /// Takes the lease on `kind` for `owner_id` unless another owner holds an
    /// unexpired one; the owner may take over its own lease at any time.
    pub fn try_acquire_lock(&mut self, kind: BackgroundJobKind, owner_id: &str, ttl_nanos: u64, now: i128) -> (r: Result<Option<AcquiredJobLock>, MemcoreError>)
        requires
            old(self).wf(),
        ensures
            final(self).wf(),
            if acquire_blocked(old(self)@, kind, owner_id@, now) {
                r matches Ok(None) && final(self)@ == old(self)@
            } else {
                &&& r matches Ok(Some(a)) && a.kind == kind && a.owner_id@ == owner_id@ && a.locked_until == lease_end(now, ttl_nanos)
                &&& final(self)@ == old(self)@.insert(kind, fresh_lease(kind, owner_id@, ttl_nanos, now))
            },
    {
        let idx = kind_index(kind);
        let locked_until = lock_until_from_ttl(now, ttl_nanos);
        if let Some(existing) = &self.slots[idx] {
            if existing.locked_until > now && !str_eq(existing.owner_id.as_str(), owner_id) {
                return Ok(None);
            }
        }
        let ghost before = self@;
        let record = JobLockRecord {
            kind,
            owner_id: String::from_str(owner_id),
            locked_until,
            acquired_at: now,
            heartbeat_at: None,
        };
        self.slots.set(idx, Some(record));
        assert(self@ =~= before.insert(kind, fresh_lease(kind, owner_id@, ttl_nanos, now)));
        Ok(Some(AcquiredJobLock { kind, owner_id: String::from_str(owner_id), locked_until }))
    }

    /// Extends the lease on `kind` when `owner_id` holds it, expired or not.
    pub fn renew_lock(&mut self, kind: BackgroundJobKind, owner_id: &str, ttl_nanos: u64, now: i128) -> (r: Result<bool, MemcoreError>)
        requires
            old(self).wf(),
        ensures
            final(self).wf(),
            if held_by(old(self)@, kind, owner_id@) {
                &&& r == Ok::<bool, MemcoreError>(true)
                &&& final(self)@ == old(self)@.insert(kind, JobLockView {
                    locked_until: lease_end(now, ttl_nanos),
                    heartbeat_at: Some(now),
                    ..old(self)@[kind]
                })
            } else {
                r == Ok::<bool, MemcoreError>(false) && final(self)@ == old(self)@
            },
    {
        let idx = kind_index(kind);
        let ghost before = self@;
        let renewed = match &self.slots[idx] {
            Some(lock) => {
                if !str_eq(lock.owner_id.as_str(), owner_id) {
                    return Ok(false);
                }
                let mut r = lock.duplicate();
                r.locked_until = lock_until_from_ttl(now, ttl_nanos);
                r.heartbeat_at = Some(now);
                r
            },
            None => {
                return Ok(false);
            },
        };
        self.slots.set(idx, Some(renewed));
        assert(self@ =~= before.insert(kind, JobLockView {
            locked_until: lease_end(now, ttl_nanos),
            heartbeat_at: Some(now),
            ..before[kind]
        }));
        Ok(true)
    }

    /// Gives up the lease on `kind` when `owner_id` holds it.
    pub fn release_lock(&mut self, kind: BackgroundJobKind, owner_id: &str) -> (r: Result<bool, MemcoreError>)
        requires
            old(self).wf(),
        ensures
            final(self).wf(),
            if held_by(old(self)@, kind, owner_id@) {
                r == Ok::<bool, MemcoreError>(true) && final(self)@ == old(self)@.remove(kind)
            } else {
                r == Ok::<bool, MemcoreError>(false) && final(self)@ == old(self)@
            },
    {
        let idx = kind_index(kind);
        let held = match &self.slots[idx] {
            Some(lock) => str_eq(lock.owner_id.as_str(), owner_id),
            None => false,
        };
        if !held {
            return Ok(false);
        }
        let ghost before = self@;
        self.slots.set(idx, None);
        assert(self@ =~= before.remove(kind));
        Ok(true)
    }

    /// The lease on `kind`, if any.
    pub fn get_lock(&self, kind: BackgroundJobKind) -> (r: Result<Option<JobLockRecord>, MemcoreError>)
        requires
            self.wf(),
        ensures
            r matches Ok(found) && match found {
                Some(l) => self@.contains_key(kind) && l@ == self@[kind],
                None => !self@.contains_key(kind),
            },
    {
        let idx = kind_index(kind);
        match &self.slots[idx] {
            Some(lock) => Ok(Some(lock.duplicate())),
            None => Ok(None),
        }
    }
}

/// While one owner's lease is unexpired, no other owner can take it: after
/// `a` acquires `kind` at `now`, an acquisition by any other owner at a time
/// before the lease ends is refused.
pub proof fn law_lease_excludes_others(
    locks: Map<BackgroundJobKind, JobLockView>,
    kind: BackgroundJobKind,
    a: Seq<char>,
    ttl_nanos: u64,
    now: i128,
    b: Seq<char>,
    later: i128,
)
    requires
        a != b,
        later < lease_end(now, ttl_nanos),
    ensures
        acquire_blocked(locks.insert(kind, fresh_lease(kind, a, ttl_nanos, now)), kind, b, later),
{
}

/// Once a lease has expired, any owner can take it.
pub proof fn law_expired_lease_is_free(locks: Map<BackgroundJobKind, JobLockView>, kind: BackgroundJobKind, owner: Seq<char>, now: i128)
    requires
        locks.contains_key(kind),
        locks[kind].locked_until <= now,
    ensures
        !acquire_blocked(locks, kind, owner, now),
{
}

/// Only the holder can release a lease; after its release the kind is free.
pub proof fn law_release_only_by_holder(
    locks: Map<BackgroundJobKind, JobLockView>,
    kind: BackgroundJobKind,
    owner: Seq<char>,
    other: Seq<char>,
    now: i128,
)
    requires
        held_by(locks, kind, owner),
        owner != other,
    ensures
        !held_by(locks, kind, other),
        !locks.remove(kind).contains_key(kind),
        !acquire_blocked(locks.remove(kind), kind, other, now),
{
}

/// One recorded run of a background job.
#[derive(Debug)]
pub struct StoredBackgroundJobRun {
    pub id: u128,
    pub kind: BackgroundJobKind,
    pub status: BackgroundJobStatus,
    pub started_at: i128,
    pub finished_at: Option<i128>,
    pub duration_ms: Option<u64>,
    pub attempt_count: usize,
    pub max_attempts: usize,
    pub retried: bool,
    pub error_code: Option<String>,
    pub error_message: Option<String>,
    pub metadata_json: Option<String>,
}

impl StoredBackgroundJobRun {
    pub open spec fn sort_key(self) -> (i128, u128) {
        (self.started_at, self.id)
    }

    pub fn duplicate(&self) -> (r: StoredBackgroundJobRun)
        ensures
            r == *self,
    {
        StoredBackgroundJobRun {
            id: self.id,
            kind: self.kind,
            status: self.status,
            started_at: self.started_at,
            finished_at: self.finished_at,
            duration_ms: self.duration_ms,
            attempt_count: self.attempt_count,
            max_attempts: self.max_attempts,
            retried: self.retried,
            error_code: copy_opt_string(&self.error_code),
            error_message: copy_opt_string(&self.error_message),
            metadata_json: copy_opt_string(&self.metadata_json),
        }
    }
}

/// A listing of runs; `created_after` and `created_before` bound `started_at`.
pub struct BackgroundJobRunQuery {
    pub kind: Option<BackgroundJobKind>,
    pub status: Option<BackgroundJobStatus>,
    pub created_after: Option<i128>,
    pub created_before: Option<i128>,
    pub limit: usize,
    pub cursor: Option<PageCursor>,
}

/// One page of runs and where the next one starts.
pub struct BackgroundJobRunQueryResult {
    pub runs: Vec<StoredBackgroundJobRun>,
    pub next_cursor: Option<PageCursor>,
}

/// The filters of a run listing, cursor excluded.
pub open spec fn run_matches(q: BackgroundJobRunQuery, r: StoredBackgroundJobRun) -> bool {
    &&& (q.kind matches Some(k) ==> r.kind == k)
    &&& (q.status matches Some(s) ==> r.status == s)
    &&& (q.created_after matches Some(t) ==> r.started_at >= t)
    &&& (q.created_before matches Some(t) ==> r.started_at < t)
}

/// A run a listing can show: matching, and after the cursor if one is given.
pub open spec fn run_listed(q: BackgroundJobRunQuery, r: StoredBackgroundJobRun) -> bool {
    run_matches(q, r) && (q.cursor matches Some(c) ==> after_cursor(r.started_at, r.id, c))
}

pub open spec fn run_key() -> spec_fn(StoredBackgroundJobRun) -> (i128, u128) {
    |r: StoredBackgroundJobRun| r.sort_key()
}

/// Whether a run passes the listing filters.
pub fn matches_query(run: &StoredBackgroundJobRun, query: &BackgroundJobRunQuery) -> (r: bool)
    ensures
        r == run_matches(*query, *run),
{
    if let Some(kind) = query.kind {
        if run.kind != kind {
            return false;
        }
    }
    if let Some(status) = query.status {
        if run.status != status {
            return false;
        }
    }
    if let Some(t) = query.created_after {
        if run.started_at < t {
            return false;
        }
    }
    if let Some(t) = query.created_before {
        if run.started_at >= t {
            return false;
        }
    }
    true
}

/// The page a SQL listing returns from the runs it fetched, newest first:
/// the first `limit` runs, and the cursor of the last of them when more came.
pub fn run_page(rows: Vec<StoredBackgroundJobRun>, limit: usize) -> (r: BackgroundJobRunQueryResult)
    ensures
        r.runs@ == (if rows@.len() > limit { rows@.take(limit as int) } else { rows@ }),
        r.next_cursor == (if page_continues(rows@.len() as int, limit) {
            Some(PageCursor { last_sort_value: rows@[limit - 1].started_at, last_id: rows@[limit - 1].id })
        } else {
            None::<PageCursor>
        }),
{
    let (runs, more) = cut_page(rows, limit);
    if more && limit > 0 {
        let last = &runs[limit - 1];
        let c = PageCursor { last_sort_value: last.started_at, last_id: last.id };
        BackgroundJobRunQueryResult { runs, next_cursor: Some(c) }
    } else {
        BackgroundJobRunQueryResult { runs, next_cursor: None }
    }
}

/// Run log kept in memory, in insertion order.
pub struct MockBackgroundJobRunStore {
    runs: Vec<StoredBackgroundJobRun>,
    max_limit: usize,
}

impl View for MockBackgroundJobRunStore {
    type V = Seq<StoredBackgroundJobRun>;

    closed spec fn view(&self) -> Seq<StoredBackgroundJobRun> {
        self.runs@
    }
}

impl MockBackgroundJobRunStore {
    pub closed spec fn max_limit(&self) -> usize {
        self.max_limit
    }

    /// An empty log whose listings accept limits up to `max_limit`.
    pub fn new(max_limit: usize) -> (s: MockBackgroundJobRunStore)
        ensures
            s@ == Seq::<StoredBackgroundJobRun>::empty(),
            s.max_limit() == max_limit,
    {
        MockBackgroundJobRunStore { runs: Vec::new(), max_limit }
    }

    pub fn insert_run(&mut self, run: StoredBackgroundJobRun) -> (r: Result<StoredBackgroundJobRun, MemcoreError>)
        ensures
            final(self)@ == old(self)@.push(run),
            final(self).max_limit() == old(self).max_limit(),
            r == Ok::<StoredBackgroundJobRun, MemcoreError>(run),
    {
        self.runs.push(run.duplicate());
        Ok(run)
    }

    /// First `n` of `cands` newest first.
    fn top_runs(cands: &Vec<StoredBackgroundJobRun>, n: usize) -> (r: Vec<StoredBackgroundJobRun>)
        ensures
            is_top_page(cands@, run_key(), n as int, r@),
    {
        let mut keys: Vec<(i128, u128)> = Vec::new();
        for k in 0..cands.len()
            invariant
                keys@.len() == k,
                forall|m: int| 0 <= m < k ==> keys@[m] == (#[trigger] cands@[m]).sort_key(),
        {
            keys.push((cands[k].started_at, cands[k].id));
        }
        let out = top_desc_positions(&keys, n);
        let mut page: Vec<StoredBackgroundJobRun> = Vec::new();
        for k in 0..out.len()
            invariant
                is_top_positions(keys@, n as int, out@),
                keys@.len() == cands@.len(),
                page@.len() == k,
                forall|m: int| 0 <= m < k ==> page@[m] == cands@[#[trigger] out@[m] as int],
        {
            page.push(cands[out[k]].duplicate());
        }
        proof {
            assert(keys@ =~= cands@.map_values(run_key()));
            assert(page@ =~= out@.map_values(|p: usize| cands@[p as int]));
        }
        page
    }

    /// The query's page of runs, newest first, and the cursor of its last
    /// run when more runs follow.
    pub fn query_runs(&self, query: BackgroundJobRunQuery) -> (r: Result<BackgroundJobRunQueryResult, MemcoreError>)
        ensures
            if page_limit_valid(self.max_limit(), query.limit) {
                r matches Ok(res) && {
                    let pool = self@.filter(|x: StoredBackgroundJobRun| run_listed(query, x));
                    &&& is_top_page(pool, run_key(), query.limit as int, res.runs@)
                    &&& res.next_cursor == if pool.len() > query.limit {
                        Some(PageCursor { last_sort_value: res.runs@.last().started_at, last_id: res.runs@.last().id })
                    } else {
                        None::<PageCursor>
                    }
                }
            } else {
                r matches Err(MemcoreError::ValidationError(msg)) && msg@ == page_limit_error_text(self.max_limit())
            },
    {
        let limit = validate_page_limit(self.max_limit, query.limit)?;
        let ghost pred = |x: StoredBackgroundJobRun| run_listed(query, x);
        let mut cands: Vec<StoredBackgroundJobRun> = Vec::new();
        for i in 0..self.runs.len()
            invariant
                pred == (|x: StoredBackgroundJobRun| run_listed(query, x)),
                cands@ == self.runs@.take(i as int).filter(pred),
        {
            let run = &self.runs[i];
            proof {
                lemma_filter_take_step(self.runs@, pred, i as int);
            }
            let cursor_ok = match &query.cursor {
                Some(c) => is_after_cursor_in_desc_order(run.started_at, run.id, c),
                None => true,
            };
            if matches_query(run, &query) && cursor_ok {
                cands.push(run.duplicate());
            }
        }
        proof {
            lemma_take_full(self.runs@);
        }
        let runs = Self::top_runs(&cands, limit);
        proof {
            let out = choose|out: Seq<usize>|
                is_top_positions(cands@.map_values(run_key()), limit as int, out) && runs@ == out.map_values(|p: usize| cands@[p as int]);
            assert(runs@.len() == out.len());
        }
        let next_cursor = if cands.len() > limit {
            let last = &runs[runs.len() - 1];
            Some(PageCursor { last_sort_value: last.started_at, last_id: last.id })
        } else {
            None
        };
        Ok(BackgroundJobRunQueryResult { runs, next_cursor })
    }

    /// Counts, and unless `dry_run` removes, the runs started before `cutoff`.
    pub fn delete_runs_older_than(&mut self, cutoff: i128, dry_run: bool) -> (r: Result<usize, MemcoreError>)
        ensures
            final(self).max_limit() == old(self).max_limit(),
            r matches Ok(n) && n == old(self)@.filter(|x: StoredBackgroundJobRun| x.started_at < cutoff).len(),
            final(self)@ == if dry_run {
                old(self)@
            } else {
                old(self)@.filter(|x: StoredBackgroundJobRun| x.started_at >= cutoff)
            },
    {
        let ghost pred = |x: StoredBackgroundJobRun| x.started_at < cutoff;
        let ghost keep = |x: StoredBackgroundJobRun| x.started_at >= cutoff;
        let mut count: usize = 0;
        let mut kept: Vec<StoredBackgroundJobRun> = Vec::new();
        let ghost mut matched: Seq<StoredBackgroundJobRun> = Seq::empty();
        for i in 0..self.runs.len()
            invariant
                pred == (|x: StoredBackgroundJobRun| x.started_at < cutoff),
                keep == (|x: StoredBackgroundJobRun| x.started_at >= cutoff),
                matched == self.runs@.take(i as int).filter(pred),
                count == matched.len(),
                count <= i,
                kept@ == self.runs@.take(i as int).filter(keep),
        {
            let run = &self.runs[i];
            proof {
                lemma_filter_take_step(self.runs@, pred, i as int);
                lemma_filter_take_step(self.runs@, keep, i as int);
            }
            if run.started_at < cutoff {
                count = count + 1;
                proof {
                    matched = matched.push(self.runs@[i as int]);
                }
            } else {
                kept.push(run.duplicate());
            }
        }
        proof {
            lemma_take_full(self.runs@);
        }
        if !dry_run {
            self.runs = kept;
        }
        Ok(count)
    }
}

/// Paging through runs: the first page of a query, followed by the page of
/// the same query continued from the cursor that page handed out, is the
/// first two pages' worth of the query's runs, newest first. Run keys
/// (start time, id) are taken to be unique.
pub proof fn law_run_pages_continue(
    runs: Seq<StoredBackgroundJobRun>,
    q: BackgroundJobRunQuery,
    first: Seq<StoredBackgroundJobRun>,
    second: Seq<StoredBackgroundJobRun>,
)
    requires
        runs.len() <= usize::MAX,
        keys_unique(runs, run_key()),
        q.cursor is None,
        first.len() > 0,
        is_top_page(runs.filter(|x: StoredBackgroundJobRun| run_listed(q, x)), run_key(), q.limit as int, first),
        is_top_page(
            runs.filter(
                |x: StoredBackgroundJobRun|
                    run_listed(
                        BackgroundJobRunQuery {
                            cursor: Some(PageCursor { last_sort_value: first.last().started_at, last_id: first.last().id }),
                            ..q
                        },
                        x,
                    ),
            ),
            run_key(),
            q.limit as int,
            second,
        ),
    ensures
        is_desc_page(
            kept_keys(runs, run_key(), |x: StoredBackgroundJobRun| run_listed(q, x)),
            key_id(),
            q.limit + q.limit,
            (first + second).map_values(run_key()),
        ),
{
    let q2 = BackgroundJobRunQuery {
        cursor: Some(PageCursor { last_sort_value: first.last().started_at, last_id: first.last().id }),
        ..q
    };
    let base = |x: StoredBackgroundJobRun| run_listed(q, x);
    let next = |x: StoredBackgroundJobRun| run_listed(q2, x);
    assert(cursor_of_last(first.map_values(run_key())) == q2.cursor.unwrap());
    lemma_cursor_pages(runs, run_key(), base, q.limit as int, first, next, q.limit as int, second);
}

/// A run listing holds only stored runs of the asked kind and status that
/// started at or after `created_after` and before `created_before` and lie
/// past the cursor; it lists them newest first (by `started_at`, then id);
/// and it leaves out a qualifying run only when the page is full and the run
/// is listed no earlier than all of the page.
pub proof fn law_run_listing(runs: Seq<StoredBackgroundJobRun>, q: BackgroundJobRunQuery, page: Seq<StoredBackgroundJobRun>)
    requires
        runs.len() <= usize::MAX,
        is_top_page(runs.filter(|x: StoredBackgroundJobRun| run_listed(q, x)), run_key(), q.limit as int, page),
    ensures
        forall|k: int| 0 <= k < page.len() ==> {
            let r = #[trigger] page[k];
            &&& runs.contains(r)
            &&& (q.kind matches Some(kd) ==> r.kind == kd)
            &&& (q.status matches Some(st) ==> r.status == st)
            &&& (q.created_after matches Some(t) ==> r.started_at >= t)
            &&& (q.created_before matches Some(t) ==> r.started_at < t)
            &&& (q.cursor matches Some(c) ==> r.started_at < c.last_sort_value || (r.started_at == c.last_sort_value && r.id < c.last_id))
        },
        forall|k: int, l: int| 0 <= k < l < page.len() ==>
            (#[trigger] page[k]).started_at > (#[trigger] page[l]).started_at
                || (page[k].started_at == page[l].started_at && page[k].id >= page[l].id),
        forall|r: StoredBackgroundJobRun| {
            &&& runs.contains(r)
            &&& (q.kind matches Some(kd) ==> r.kind == kd)
            &&& (q.status matches Some(st) ==> r.status == st)
            &&& (q.created_after matches Some(t) ==> r.started_at >= t)
            &&& (q.created_before matches Some(t) ==> r.started_at < t)
            &&& (q.cursor matches Some(c) ==> r.started_at < c.last_sort_value || (r.started_at == c.last_sort_value && r.id < c.last_id))
            &&& !page.contains(r)
        } ==> {
            &&& page.len() == q.limit
            &&& forall|k: int| 0 <= k < page.len() ==> (#[trigger] page[k]).started_at > r.started_at
                || (page[k].started_at == r.started_at && page[k].id >= r.id)
        },
{
    let pred = |x: StoredBackgroundJobRun| run_listed(q, x);
    lemma_filter_members(runs, pred);
    lemma_top_page_order(runs.filter(pred), run_key(), q.limit as int, page);
}

} // verus!
