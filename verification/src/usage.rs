//! Usage records kept in memory: provider call events with their running
//! totals, and periodic snapshots of an organization's memory counts.

use vstd::prelude::*;
use crate::errors::MemcoreError;
use crate::pagination::{
    PageCursor, cursor_of_last, key_id, keys_unique, kept_keys, lemma_cursor_pages, is_desc_page, cut_page, page_continues, after_cursor, is_after_cursor_in_desc_order, is_top_page, is_top_positions, lemma_top_page_order,
    page_limit_error_text, page_limit_valid, top_desc_positions, validate_page_limit,
};
use crate::seqs::{lemma_filter_members, lemma_filter_take_step, lemma_take_full};
use crate::text::str_eq;
use crate::types::{ProviderCallStatus, ProviderUsageCapability, copy_opt_string};

verus! {

/// One call to an LLM or embedding provider. `estimated_cost_bits` is the
/// IEEE-754 bit pattern of the `f64` cost in US dollars.
#[derive(Debug)]
pub struct ProviderUsageEventRecord {
    pub id: u128,
    pub org_id: String,
    pub user_id: Option<String>,
    pub provider_name: String,
    pub model_name: Option<String>,
    pub capability: ProviderUsageCapability,
    pub operation_name: String,
    pub status: ProviderCallStatus,
    pub input_tokens: Option<u64>,
    pub output_tokens: Option<u64>,
    pub total_tokens: Option<u64>,
    pub retry_count: u64,
    pub fallback_used: bool,
    pub circuit_blocked: bool,
    pub timed_out: bool,
    pub estimated_cost_bits: Option<u64>,
    pub metadata_json: Option<String>,
    pub created_at: i128,
}

impl ProviderUsageEventRecord {
    pub open spec fn sort_key(self) -> (i128, u128) {
        (self.created_at, self.id)
    }

    pub fn duplicate(&self) -> (r: ProviderUsageEventRecord)
        ensures
            r == *self,
    {
        ProviderUsageEventRecord {
            id: self.id,
            org_id: self.org_id.clone(),
            user_id: copy_opt_string(&self.user_id),
            provider_name: self.provider_name.clone(),
            model_name: copy_opt_string(&self.model_name),
            capability: self.capability,
            operation_name: self.operation_name.clone(),
            status: self.status,
            input_tokens: self.input_tokens,
            output_tokens: self.output_tokens,
            total_tokens: self.total_tokens,
            retry_count: self.retry_count,
            fallback_used: self.fallback_used,
            circuit_blocked: self.circuit_blocked,
            timed_out: self.timed_out,
            estimated_cost_bits: self.estimated_cost_bits,
            metadata_json: copy_opt_string(&self.metadata_json),
            created_at: self.created_at,
        }
    }
}

/// A listing of one organization's provider usage.
pub struct ProviderUsageQuery {
    pub org_id: String,
    pub user_id: Option<String>,
    pub provider_name: Option<String>,
    pub model_name: Option<String>,
    pub capability: Option<ProviderUsageCapability>,
    pub operation_name: Option<String>,
    pub created_after: Option<i128>,
    pub created_before: Option<i128>,
    pub limit: usize,
    pub cursor: Option<PageCursor>,
}

impl ProviderUsageQuery {
    /// All of `org_id`'s usage, `limit` per page.
    pub fn new(org_id: &str, limit: usize) -> (q: ProviderUsageQuery)
        ensures
            q.org_id@ == org_id@,
            q.user_id is None,
            q.provider_name is None,
            q.model_name is None,
            q.capability is None,
            q.operation_name is None,
            q.created_after is None,
            q.created_before is None,
            q.limit == limit,
            q.cursor is None,
    {
        ProviderUsageQuery {
            org_id: String::from_str(org_id),
            user_id: None,
            provider_name: None,
            model_name: None,
            capability: None,
            operation_name: None,
            created_after: None,
            created_before: None,
            limit,
            cursor: None,
        }
    }
}

/// Totals over the events a query matches. The costs are the bit patterns of
/// the costs the events carry, in event order; their sum is a floating-point
/// matter left to the caller.
#[derive(Debug)]
pub struct ProviderUsagePersistedSummary {
    pub total_requests: u64,
    pub total_successes: u64,
    pub total_errors: u64,
    pub total_retries: u64,
    pub total_fallbacks: u64,
    pub total_circuit_blocks: u64,
    pub total_timeouts: u64,
    pub total_input_tokens: u64,
    pub total_output_tokens: u64,
    pub total_tokens: u64,
    pub estimated_costs_bits: Vec<u64>,
}

pub struct UsageTotals {
    pub total_requests: u64,
    pub total_successes: u64,
    pub total_errors: u64,
    pub total_retries: u64,
    pub total_fallbacks: u64,
    pub total_circuit_blocks: u64,
    pub total_timeouts: u64,
    pub total_input_tokens: u64,
    pub total_output_tokens: u64,
    pub total_tokens: u64,
    pub estimated_costs_bits: Seq<u64>,
}

impl View for ProviderUsagePersistedSummary {
    type V = UsageTotals;

    open spec fn view(&self) -> UsageTotals {
        UsageTotals {
            total_requests: self.total_requests,
            total_successes: self.total_successes,
            total_errors: self.total_errors,
            total_retries: self.total_retries,
            total_fallbacks: self.total_fallbacks,
            total_circuit_blocks: self.total_circuit_blocks,
            total_timeouts: self.total_timeouts,
            total_input_tokens: self.total_input_tokens,
            total_output_tokens: self.total_output_tokens,
            total_tokens: self.total_tokens,
            estimated_costs_bits: self.estimated_costs_bits@,
        }
    }
}

/// `a + b`, stopping at `u64::MAX`.
pub open spec fn sat_add(a: u64, b: u64) -> u64 {
    if a + b > u64::MAX {
        u64::MAX
    } else {
        (a + b) as u64
    }
}

pub open spec fn flag(b: bool) -> u64 {
    if b {
        1
    } else {
        0
    }
}

pub open spec fn or_zero(v: Option<u64>) -> u64 {
    match v {
        Some(x) => x,
        None => 0,
    }
}

/// Totals after counting one more event.
pub open spec fn add_event(t: UsageTotals, e: ProviderUsageEventRecord) -> UsageTotals {
    UsageTotals {
        total_requests: sat_add(t.total_requests, 1),
        total_successes: sat_add(t.total_successes, flag(e.status == ProviderCallStatus::Success)),
        total_errors: sat_add(t.total_errors, flag(e.status == ProviderCallStatus::Error)),
        total_retries: sat_add(t.total_retries, e.retry_count),
        total_fallbacks: sat_add(t.total_fallbacks, flag(e.fallback_used)),
        total_circuit_blocks: sat_add(t.total_circuit_blocks, flag(e.circuit_blocked)),
        total_timeouts: sat_add(t.total_timeouts, flag(e.timed_out)),
        total_input_tokens: sat_add(t.total_input_tokens, or_zero(e.input_tokens)),
        total_output_tokens: sat_add(t.total_output_tokens, or_zero(e.output_tokens)),
        total_tokens: sat_add(t.total_tokens, or_zero(e.total_tokens)),
        estimated_costs_bits: match e.estimated_cost_bits {
            Some(c) => t.estimated_costs_bits.push(c),
            None => t.estimated_costs_bits,
        },
    }
}

pub open spec fn zero_totals() -> UsageTotals {
    UsageTotals {
        total_requests: 0,
        total_successes: 0,
        total_errors: 0,
        total_retries: 0,
        total_fallbacks: 0,
        total_circuit_blocks: 0,
        total_timeouts: 0,
        total_input_tokens: 0,
        total_output_tokens: 0,
        total_tokens: 0,
        estimated_costs_bits: Seq::empty(),
    }
}

/// Totals over `events`, counted in order.
pub open spec fn usage_totals(events: Seq<ProviderUsageEventRecord>) -> UsageTotals
    decreases events.len(),
{
    if events.len() == 0 {
        zero_totals()
    } else {
        add_event(usage_totals(events.drop_last()), events.last())
    }
}

fn sat_add_exec(a: u64, b: u64) -> (r: u64)
    ensures
        r == sat_add(a, b),
{
    a.saturating_add(b)
}

/// Totals of requests, outcomes, retries, tokens and costs over `events`.
pub fn compute_summary(events: &Vec<ProviderUsageEventRecord>) -> (r: ProviderUsagePersistedSummary)
    ensures
        r@ == usage_totals(events@),
{
    let mut s = ProviderUsagePersistedSummary {
        total_requests: 0,
        total_successes: 0,
        total_errors: 0,
        total_retries: 0,
        total_fallbacks: 0,
        total_circuit_blocks: 0,
        total_timeouts: 0,
        total_input_tokens: 0,
        total_output_tokens: 0,
        total_tokens: 0,
        estimated_costs_bits: Vec::new(),
    };
    assert(events@.take(0) =~= Seq::<ProviderUsageEventRecord>::empty());
    assert(s@ == zero_totals());
    for i in 0..events.len()
        invariant
            s@ == usage_totals(events@.take(i as int)),
    {
        let e = &events[i];
        proof {
            assert(events@.take(i + 1).drop_last() =~= events@.take(i as int));
            assert(events@.take(i + 1).last() == *e);
        }
        s.total_requests = sat_add_exec(s.total_requests, 1);
        match e.status {
            ProviderCallStatus::Success => {
                s.total_successes = sat_add_exec(s.total_successes, 1);
                s.total_errors = sat_add_exec(s.total_errors, 0);
            },
            ProviderCallStatus::Error => {
                s.total_successes = sat_add_exec(s.total_successes, 0);
                s.total_errors = sat_add_exec(s.total_errors, 1);
            },
        }
        s.total_retries = sat_add_exec(s.total_retries, e.retry_count);
        s.total_fallbacks = sat_add_exec(s.total_fallbacks, if e.fallback_used { 1 } else { 0 });
        s.total_circuit_blocks = sat_add_exec(s.total_circuit_blocks, if e.circuit_blocked { 1 } else { 0 });
        s.total_timeouts = sat_add_exec(s.total_timeouts, if e.timed_out { 1 } else { 0 });
        s.total_input_tokens = sat_add_exec(s.total_input_tokens, match e.input_tokens { Some(v) => v, None => 0 });
        s.total_output_tokens = sat_add_exec(s.total_output_tokens, match e.output_tokens { Some(v) => v, None => 0 });
        s.total_tokens = sat_add_exec(s.total_tokens, match e.total_tokens { Some(v) => v, None => 0 });
        if let Some(c) = e.estimated_cost_bits {
            s.estimated_costs_bits.push(c);
        }
        assert(s@ == add_event(usage_totals(events@.take(i as int)), *e));
    }
    assert(events@.take(events@.len() as int) =~= events@);
    s
}

/// The filters of a usage listing, cursor excluded.
pub open spec fn usage_matches(q: ProviderUsageQuery, e: ProviderUsageEventRecord) -> bool {
    &&& e.org_id@ == q.org_id@
    &&& (q.user_id matches Some(u) ==> (e.user_id matches Some(v) && v@ == u@))
    &&& (q.provider_name matches Some(p) ==> e.provider_name@ == p@)
    &&& (q.model_name matches Some(m) ==> (e.model_name matches Some(v) && v@ == m@))
    &&& (q.capability matches Some(c) ==> e.capability == c)
    &&& (q.operation_name matches Some(o) ==> e.operation_name@ == o@)
    &&& (q.created_after matches Some(t) ==> e.created_at >= t)
    &&& (q.created_before matches Some(t) ==> e.created_at < t)
}

pub open spec fn usage_listed(q: ProviderUsageQuery, e: ProviderUsageEventRecord) -> bool {
    usage_matches(q, e) && (q.cursor matches Some(c) ==> after_cursor(e.created_at, e.id, c))
}

pub open spec fn usage_key() -> spec_fn(ProviderUsageEventRecord) -> (i128, u128) {
    |e: ProviderUsageEventRecord| e.sort_key()
}

fn opt_text_eq(value: &Option<String>, wanted: &String) -> (r: bool)
    ensures
        r == (*value matches Some(v) && v@ == wanted@),
{
    match value {
        Some(v) => str_eq(v.as_str(), wanted.as_str()),
        None => false,
    }
}

/// Whether an event passes the listing filters (the cursor aside).
pub fn usage_matches_query(event: &ProviderUsageEventRecord, query: &ProviderUsageQuery) -> (r: bool)
    ensures
        r == usage_matches(*query, *event),
{
    if !str_eq(event.org_id.as_str(), query.org_id.as_str()) {
        return false;
    }
    if let Some(u) = &query.user_id {
        if !opt_text_eq(&event.user_id, u) {
            return false;
        }
    }
    if let Some(p) = &query.provider_name {
        if !str_eq(event.provider_name.as_str(), p.as_str()) {
            return false;
        }
    }
    if let Some(m) = &query.model_name {
        if !opt_text_eq(&event.model_name, m) {
            return false;
        }
    }
    if let Some(c) = query.capability {
        if event.capability != c {
            return false;
        }
    }
    if let Some(o) = &query.operation_name {
        if !str_eq(event.operation_name.as_str(), o.as_str()) {
            return false;
        }
    }
    if let Some(t) = query.created_after {
        if event.created_at < t {
            return false;
        }
    }
    if let Some(t) = query.created_before {
        if event.created_at >= t {
            return false;
        }
    }
    true
}

/// A page of usage events, the next page's cursor, and totals over every
/// matching event (all pages).
pub struct ProviderUsageQueryResult {
    pub events: Vec<ProviderUsageEventRecord>,
    pub next_cursor: Option<PageCursor>,
    pub summary: ProviderUsagePersistedSummary,
}

/// The page a SQL listing returns from the events it fetched, newest first,
/// with the totals computed apart.
pub fn usage_page(rows: Vec<ProviderUsageEventRecord>, limit: usize, summary: ProviderUsagePersistedSummary) -> (r: ProviderUsageQueryResult)
    ensures
        r.events@ == (if rows@.len() > limit { rows@.take(limit as int) } else { rows@ }),
        r.next_cursor == (if page_continues(rows@.len() as int, limit) {
            Some(PageCursor { last_sort_value: rows@[limit - 1].created_at, last_id: rows@[limit - 1].id })
        } else {
            None::<PageCursor>
        }),
        r.summary == summary,
{
    let (events, more) = cut_page(rows, limit);
    if more && limit > 0 {
        let last = &events[limit - 1];
        let c = PageCursor { last_sort_value: last.created_at, last_id: last.id };
        ProviderUsageQueryResult { events, next_cursor: Some(c), summary }
    } else {
        ProviderUsageQueryResult { events, next_cursor: None, summary }
    }
}

/// Provider usage events kept in memory, in recording order.
pub struct MockProviderUsageStore {
    events: Vec<ProviderUsageEventRecord>,
    max_limit: usize,
}

impl View for MockProviderUsageStore {
    type V = Seq<ProviderUsageEventRecord>;

    closed spec fn view(&self) -> Seq<ProviderUsageEventRecord> {
        self.events@
    }
}

impl MockProviderUsageStore {
    pub closed spec fn max_limit(&self) -> usize {
        self.max_limit
    }

    /// An empty store whose listings accept limits up to `max_limit`.
    pub fn new(max_limit: usize) -> (s: MockProviderUsageStore)
        ensures
            s@ == Seq::<ProviderUsageEventRecord>::empty(),
            s.max_limit() == max_limit,
    {
        MockProviderUsageStore { events: Vec::new(), max_limit }
    }

    pub fn record_usage_event(&mut self, event: ProviderUsageEventRecord) -> (r: Result<(), MemcoreError>)
        ensures
            r is Ok,
            final(self)@ == old(self)@.push(event),
            final(self).max_limit() == old(self).max_limit(),
    {
        self.events.push(event);
        Ok(())
    }

    /// First `n` of `cands` newest first.
    fn top_usage(cands: &Vec<ProviderUsageEventRecord>, n: usize) -> (r: Vec<ProviderUsageEventRecord>)
        ensures
            is_top_page(cands@, usage_key(), n as int, r@),
    {
        let mut keys: Vec<(i128, u128)> = Vec::new();
        for k in 0..cands.len()
            invariant
                keys@.len() == k,
                forall|m: int| 0 <= m < k ==> keys@[m] == (#[trigger] cands@[m]).sort_key(),
        {
            keys.push((cands[k].created_at, cands[k].id));
        }
        let out = top_desc_positions(&keys, n);
        let mut page: Vec<ProviderUsageEventRecord> = Vec::new();
        for k in 0..out.len()
            invariant
                is_top_positions(keys@, n as int, out@),
                keys@.len() == cands@.len(),
                page@.len() == k,
                forall|m: int| 0 <= m < k ==> page@[m] == cands@[#[trigger] out@[m] as int],
        {
            page.push(cands[out[k]].duplicate());
        }
        proof {
            assert(keys@ =~= cands@.map_values(usage_key()));
            assert(page@ =~= out@.map_values(|p: usize| cands@[p as int]));
        }
        page
    }

    /// The query's page of events newest first, the cursor of its last event
    /// when more follow, and totals over all matching events regardless of
    /// the cursor and the limit.
    pub fn query_usage(&self, query: ProviderUsageQuery) -> (r: Result<ProviderUsageQueryResult, MemcoreError>)
        ensures
            if page_limit_valid(self.max_limit(), query.limit) {
                r matches Ok(res) && {
                    let pool = self@.filter(|e: ProviderUsageEventRecord| usage_listed(query, e));
                    &&& is_top_page(pool, usage_key(), query.limit as int, res.events@)
                    &&& res.next_cursor == if pool.len() > query.limit {
                        Some(PageCursor { last_sort_value: res.events@.last().created_at, last_id: res.events@.last().id })
                    } else {
                        None::<PageCursor>
                    }
                    &&& res.summary@ == usage_totals(self@.filter(|e: ProviderUsageEventRecord| usage_matches(query, e)))
                }
            } else {
                r matches Err(MemcoreError::ValidationError(msg)) && msg@ == page_limit_error_text(self.max_limit())
            },
    {
        let limit = validate_page_limit(self.max_limit, query.limit)?;
        let ghost all = |e: ProviderUsageEventRecord| usage_matches(query, e);
        let ghost listed = |e: ProviderUsageEventRecord| usage_listed(query, e);
        let mut matching: Vec<ProviderUsageEventRecord> = Vec::new();
        let mut cands: Vec<ProviderUsageEventRecord> = Vec::new();
        for i in 0..self.events.len()
            invariant
                all == (|e: ProviderUsageEventRecord| usage_matches(query, e)),
                listed == (|e: ProviderUsageEventRecord| usage_listed(query, e)),
                matching@ == self.events@.take(i as int).filter(all),
                cands@ == self.events@.take(i as int).filter(listed),
        {
            let e = &self.events[i];
            proof {
                lemma_filter_take_step(self.events@, all, i as int);
                lemma_filter_take_step(self.events@, listed, i as int);
            }
            if usage_matches_query(e, &query) {
                matching.push(e.duplicate());
                let after = match &query.cursor {
                    Some(c) => is_after_cursor_in_desc_order(e.created_at, e.id, c),
                    None => true,
                };
                if after {
                    cands.push(e.duplicate());
                }
            }
        }
        proof {
            lemma_take_full(self.events@);
        }
        let summary = compute_summary(&matching);
        let events = Self::top_usage(&cands, limit);
        proof {
            let out = choose|out: Seq<usize>|
                is_top_positions(cands@.map_values(usage_key()), limit as int, out) && events@ == out.map_values(|p: usize| cands@[p as int]);
            assert(events@.len() == out.len());
        }
        let next_cursor = if cands.len() > limit {
            let last = &events[events.len() - 1];
            Some(PageCursor { last_sort_value: last.created_at, last_id: last.id })
        } else {
            None
        };
        Ok(ProviderUsageQueryResult { events, next_cursor, summary })
    }
}

/// The totals a usage listing reports do not depend on the page: the cursor
/// and the limit leave them unchanged.
pub proof fn law_usage_summary_ignores_paging(events: Seq<ProviderUsageEventRecord>, q1: ProviderUsageQuery, q2: ProviderUsageQuery)
    requires
        q1.org_id@ == q2.org_id@,
        q1.user_id == q2.user_id || (q1.user_id matches Some(a) && q2.user_id matches Some(b) && a@ == b@),
        q1.provider_name == q2.provider_name || (q1.provider_name matches Some(a) && q2.provider_name matches Some(b) && a@ == b@),
        q1.model_name == q2.model_name || (q1.model_name matches Some(a) && q2.model_name matches Some(b) && a@ == b@),
        q1.capability == q2.capability,
        q1.operation_name == q2.operation_name || (q1.operation_name matches Some(a) && q2.operation_name matches Some(b) && a@ == b@),
        q1.created_after == q2.created_after,
        q1.created_before == q2.created_before,
    ensures
        usage_totals(events.filter(|e: ProviderUsageEventRecord| usage_matches(q1, e)))
            == usage_totals(events.filter(|e: ProviderUsageEventRecord| usage_matches(q2, e))),
{
    assert(events.filter(|e: ProviderUsageEventRecord| usage_matches(q1, e)) =~= events.filter(|e: ProviderUsageEventRecord| usage_matches(q2, e))) by {
        assert((|e: ProviderUsageEventRecord| usage_matches(q1, e)) =~= (|e: ProviderUsageEventRecord| usage_matches(q2, e)));
    }
}

/// Every request counted is either a success or an error, until the
/// counters saturate.
pub proof fn law_usage_outcomes_partition(events: Seq<ProviderUsageEventRecord>)
    requires
        events.len() <= u64::MAX,
    ensures
        usage_totals(events).total_requests == events.len(),
        usage_totals(events).total_successes + usage_totals(events).total_errors == events.len(),
    decreases events.len(),
{
    if events.len() > 0 {
        law_usage_outcomes_partition(events.drop_last());
    }
}

/// Counts of an organization's memory at one moment.
#[derive(Debug)]
pub struct MemoryUsageSnapshot {
    pub id: u128,
    pub org_id: String,
    pub total_users: u64,
    pub total_memories: u64,
    pub active_memories: u64,
    pub deleted_memories: Option<u64>,
    pub captured_at: i128,
    pub metadata_json: Option<String>,
}

impl MemoryUsageSnapshot {
    pub open spec fn sort_key(self) -> (i128, u128) {
        (self.captured_at, self.id)
    }

    pub fn duplicate(&self) -> (r: MemoryUsageSnapshot)
        ensures
            r == *self,
    {
        MemoryUsageSnapshot {
            id: self.id,
            org_id: self.org_id.clone(),
            total_users: self.total_users,
            total_memories: self.total_memories,
            active_memories: self.active_memories,
            deleted_memories: self.deleted_memories,
            captured_at: self.captured_at,
            metadata_json: copy_opt_string(&self.metadata_json),
        }
    }
}

/// A listing of one organization's snapshots; the bounds apply to
/// `captured_at`.
pub struct MemoryUsageSnapshotQuery {
    pub org_id: String,
    pub created_after: Option<i128>,
    pub created_before: Option<i128>,
    pub limit: usize,
    pub cursor: Option<PageCursor>,
}

pub struct MemoryUsageSnapshotQueryResult {
    pub snapshots: Vec<MemoryUsageSnapshot>,
    pub next_cursor: Option<PageCursor>,
}

/// The page a SQL listing returns from the snapshots it fetched, newest
/// first.
pub fn snapshot_page(rows: Vec<MemoryUsageSnapshot>, limit: usize) -> (r: MemoryUsageSnapshotQueryResult)
    ensures
        r.snapshots@ == (if rows@.len() > limit { rows@.take(limit as int) } else { rows@ }),
        r.next_cursor == (if page_continues(rows@.len() as int, limit) {
            Some(PageCursor { last_sort_value: rows@[limit - 1].captured_at, last_id: rows@[limit - 1].id })
        } else {
            None::<PageCursor>
        }),
{
    let (snapshots, more) = cut_page(rows, limit);
    if more && limit > 0 {
        let last = &snapshots[limit - 1];
        let c = PageCursor { last_sort_value: last.captured_at, last_id: last.id };
        MemoryUsageSnapshotQueryResult { snapshots, next_cursor: Some(c) }
    } else {
        MemoryUsageSnapshotQueryResult { snapshots, next_cursor: None }
    }
}

pub open spec fn snapshot_listed(q: MemoryUsageSnapshotQuery, s: MemoryUsageSnapshot) -> bool {
    &&& s.org_id@ == q.org_id@
    &&& (q.created_after matches Some(t) ==> s.captured_at >= t)
    &&& (q.created_before matches Some(t) ==> s.captured_at < t)
    &&& (q.cursor matches Some(c) ==> after_cursor(s.captured_at, s.id, c))
}

pub open spec fn snapshot_key() -> spec_fn(MemoryUsageSnapshot) -> (i128, u128) {
    |s: MemoryUsageSnapshot| s.sort_key()
}

/// Whether a snapshot belongs in a listing, cursor included.
pub fn snapshot_matches_query(snapshot: &MemoryUsageSnapshot, query: &MemoryUsageSnapshotQuery) -> (r: bool)
    ensures
        r == snapshot_listed(*query, *snapshot),
{
    if !str_eq(snapshot.org_id.as_str(), query.org_id.as_str()) {
        return false;
    }
    if let Some(t) = query.created_after {
        if snapshot.captured_at < t {
            return false;
        }
    }
    if let Some(t) = query.created_before {
        if snapshot.captured_at >= t {
            return false;
        }
    }
    if let Some(c) = &query.cursor {
        return is_after_cursor_in_desc_order(snapshot.captured_at, snapshot.id, c);
    }
    true
}

/// Snapshots kept in memory, in insertion order.
pub struct MockMemoryUsageSnapshotStore {
    snapshots: Vec<MemoryUsageSnapshot>,
}

impl View for MockMemoryUsageSnapshotStore {
    type V = Seq<MemoryUsageSnapshot>;

    closed spec fn view(&self) -> Seq<MemoryUsageSnapshot> {
        self.snapshots@
    }
}

impl MockMemoryUsageSnapshotStore {
    pub fn new() -> (s: MockMemoryUsageSnapshotStore)
        ensures
            s@ == Seq::<MemoryUsageSnapshot>::empty(),
    {
        MockMemoryUsageSnapshotStore { snapshots: Vec::new() }
    }

    pub fn insert_snapshot(&mut self, snapshot: MemoryUsageSnapshot) -> (r: Result<MemoryUsageSnapshot, MemcoreError>)
        ensures
            final(self)@ == old(self)@.push(snapshot),
            r == Ok::<MemoryUsageSnapshot, MemcoreError>(snapshot),
    {
        self.snapshots.push(snapshot.duplicate());
        Ok(snapshot)
    }

    /// First `n` of `cands` newest first.
    fn top_snapshots(cands: &Vec<MemoryUsageSnapshot>, n: usize) -> (r: Vec<MemoryUsageSnapshot>)
        ensures
            is_top_page(cands@, snapshot_key(), n as int, r@),
    {
        let mut keys: Vec<(i128, u128)> = Vec::new();
        for k in 0..cands.len()
            invariant
                keys@.len() == k,
                forall|m: int| 0 <= m < k ==> keys@[m] == (#[trigger] cands@[m]).sort_key(),
        {
            keys.push((cands[k].captured_at, cands[k].id));
        }
        let out = top_desc_positions(&keys, n);
        let mut page: Vec<MemoryUsageSnapshot> = Vec::new();
        for k in 0..out.len()
            invariant
                is_top_positions(keys@, n as int, out@),
                keys@.len() == cands@.len(),
                page@.len() == k,
                forall|m: int| 0 <= m < k ==> page@[m] == cands@[#[trigger] out@[m] as int],
        {
            page.push(cands[out[k]].duplicate());
        }
        proof {
            assert(keys@ =~= cands@.map_values(snapshot_key()));
            assert(page@ =~= out@.map_values(|p: usize| cands@[p as int]));
        }
        page
    }

    /// The query's page of snapshots newest first, and the cursor of its last
    /// snapshot when more follow.
    pub fn query_snapshots(&self, query: MemoryUsageSnapshotQuery) -> (r: Result<MemoryUsageSnapshotQueryResult, MemcoreError>)
        ensures
            r matches Ok(res) && {
                let pool = self@.filter(|s: MemoryUsageSnapshot| snapshot_listed(query, s));
                &&& is_top_page(pool, snapshot_key(), query.limit as int, res.snapshots@)
                &&& res.next_cursor == if pool.len() > query.limit && query.limit > 0 {
                    Some(PageCursor { last_sort_value: res.snapshots@.last().captured_at, last_id: res.snapshots@.last().id })
                } else {
                    None::<PageCursor>
                }
            },
    {
        let ghost pred = |s: MemoryUsageSnapshot| snapshot_listed(query, s);
        let mut cands: Vec<MemoryUsageSnapshot> = Vec::new();
        for i in 0..self.snapshots.len()
            invariant
                pred == (|s: MemoryUsageSnapshot| snapshot_listed(query, s)),
                cands@ == self.snapshots@.take(i as int).filter(pred),
        {
            let s = &self.snapshots[i];
            proof {
                lemma_filter_take_step(self.snapshots@, pred, i as int);
            }
            if snapshot_matches_query(s, &query) {
                cands.push(s.duplicate());
            }
        }
        proof {
            lemma_take_full(self.snapshots@);
        }
        let snapshots = Self::top_snapshots(&cands, query.limit);
        proof {
            let out = choose|out: Seq<usize>|
                is_top_positions(cands@.map_values(snapshot_key()), query.limit as int, out) && snapshots@ == out.map_values(|p: usize| cands@[p as int]);
            assert(snapshots@.len() == out.len());
        }
        let next_cursor = if cands.len() > query.limit && query.limit > 0 {
            let last = &snapshots[snapshots.len() - 1];
            Some(PageCursor { last_sort_value: last.captured_at, last_id: last.id })
        } else {
            None
        };
        Ok(MemoryUsageSnapshotQueryResult { snapshots, next_cursor })
    }
}

/// Paging through usage events: the first page of a query, followed by the
/// page of the same query continued from the cursor that page handed out,
/// is the first two pages' worth of the query's events, newest first. Event
/// keys (creation time, id) are taken to be unique.
pub proof fn law_usage_pages_continue(
    events: Seq<ProviderUsageEventRecord>,
    q: ProviderUsageQuery,
    first: Seq<ProviderUsageEventRecord>,
    second: Seq<ProviderUsageEventRecord>,
)
    requires
        events.len() <= usize::MAX,
        keys_unique(events, usage_key()),
        q.cursor is None,
        first.len() > 0,
        is_top_page(events.filter(|e: ProviderUsageEventRecord| usage_listed(q, e)), usage_key(), q.limit as int, first),
        is_top_page(
            events.filter(
                |e: ProviderUsageEventRecord|
                    usage_listed(
                        ProviderUsageQuery {
                            cursor: Some(PageCursor { last_sort_value: first.last().created_at, last_id: first.last().id }),
                            ..q
                        },
                        e,
                    ),
            ),
            usage_key(),
            q.limit as int,
            second,
        ),
    ensures
        is_desc_page(
            kept_keys(events, usage_key(), |e: ProviderUsageEventRecord| usage_listed(q, e)),
            key_id(),
            q.limit + q.limit,
            (first + second).map_values(usage_key()),
        ),
{
    let q2 = ProviderUsageQuery {
        cursor: Some(PageCursor { last_sort_value: first.last().created_at, last_id: first.last().id }),
        ..q
    };
    let base = |e: ProviderUsageEventRecord| usage_listed(q, e);
    let next = |e: ProviderUsageEventRecord| usage_listed(q2, e);
    assert(cursor_of_last(first.map_values(usage_key())) == q2.cursor.unwrap());
    lemma_cursor_pages(events, usage_key(), base, q.limit as int, first, next, q.limit as int, second);
}

/// A usage listing holds only events of the query's organization that pass
/// every filter given (user, provider, model, capability, operation name,
/// time range) and lie past the cursor; it lists them newest first (by
/// `created_at`, then id); it leaves out a qualifying event only when the
/// page is full and the event is listed no earlier than all of the page; and
/// its totals are taken over exactly the events that pass the filters, on
/// every page.
pub proof fn law_usage_listing(
    events: Seq<ProviderUsageEventRecord>,
    q: ProviderUsageQuery,
    page: Seq<ProviderUsageEventRecord>,
    summary: UsageTotals,
)
    requires
        events.len() <= usize::MAX,
        is_top_page(events.filter(|e: ProviderUsageEventRecord| usage_listed(q, e)), usage_key(), q.limit as int, page),
        summary == usage_totals(events.filter(|e: ProviderUsageEventRecord| usage_matches(q, e))),
    ensures
        forall|k: int| 0 <= k < page.len() ==> {
            let e = #[trigger] page[k];
            &&& events.contains(e)
            &&& e.org_id@ == q.org_id@
            &&& (q.user_id matches Some(u) ==> (e.user_id matches Some(v) && v@ == u@))
            &&& (q.provider_name matches Some(p) ==> e.provider_name@ == p@)
            &&& (q.model_name matches Some(m) ==> (e.model_name matches Some(v) && v@ == m@))
            &&& (q.capability matches Some(c) ==> e.capability == c)
            &&& (q.operation_name matches Some(o) ==> e.operation_name@ == o@)
            &&& (q.created_after matches Some(t) ==> e.created_at >= t)
            &&& (q.created_before matches Some(t) ==> e.created_at < t)
            &&& (q.cursor matches Some(c) ==> e.created_at < c.last_sort_value || (e.created_at == c.last_sort_value && e.id < c.last_id))
        },
        forall|k: int, l: int| 0 <= k < l < page.len() ==>
            (#[trigger] page[k]).created_at > (#[trigger] page[l]).created_at
                || (page[k].created_at == page[l].created_at && page[k].id >= page[l].id),
        forall|e: ProviderUsageEventRecord| {
            &&& events.contains(e)
            &&& e.org_id@ == q.org_id@
            &&& (q.user_id matches Some(u) ==> (e.user_id matches Some(v) && v@ == u@))
            &&& (q.provider_name matches Some(p) ==> e.provider_name@ == p@)
            &&& (q.model_name matches Some(m) ==> (e.model_name matches Some(v) && v@ == m@))
            &&& (q.capability matches Some(c) ==> e.capability == c)
            &&& (q.operation_name matches Some(o) ==> e.operation_name@ == o@)
            &&& (q.created_after matches Some(t) ==> e.created_at >= t)
            &&& (q.created_before matches Some(t) ==> e.created_at < t)
            &&& (q.cursor matches Some(c) ==> e.created_at < c.last_sort_value || (e.created_at == c.last_sort_value && e.id < c.last_id))
            &&& !page.contains(e)
        } ==> {
            &&& page.len() == q.limit
            &&& forall|k: int| 0 <= k < page.len() ==> (#[trigger] page[k]).created_at > e.created_at
                || (page[k].created_at == e.created_at && page[k].id >= e.id)
        },
        summary == usage_totals(events.filter(|e: ProviderUsageEventRecord| {
            &&& e.org_id@ == q.org_id@
            &&& (q.user_id matches Some(u) ==> (e.user_id matches Some(v) && v@ == u@))
            &&& (q.provider_name matches Some(p) ==> e.provider_name@ == p@)
            &&& (q.model_name matches Some(m) ==> (e.model_name matches Some(v) && v@ == m@))
            &&& (q.capability matches Some(c) ==> e.capability == c)
            &&& (q.operation_name matches Some(o) ==> e.operation_name@ == o@)
            &&& (q.created_after matches Some(t) ==> e.created_at >= t)
            &&& (q.created_before matches Some(t) ==> e.created_at < t)
        })),
{
    let listed = |e: ProviderUsageEventRecord| usage_listed(q, e);
    lemma_filter_members(events, listed);
    lemma_top_page_order(events.filter(listed), usage_key(), q.limit as int, page);
    let raw = |e: ProviderUsageEventRecord| {
        &&& e.org_id@ == q.org_id@
        &&& (q.user_id matches Some(u) ==> (e.user_id matches Some(v) && v@ == u@))
        &&& (q.provider_name matches Some(p) ==> e.provider_name@ == p@)
        &&& (q.model_name matches Some(m) ==> (e.model_name matches Some(v) && v@ == m@))
        &&& (q.capability matches Some(c) ==> e.capability == c)
        &&& (q.operation_name matches Some(o) ==> e.operation_name@ == o@)
        &&& (q.created_after matches Some(t) ==> e.created_at >= t)
        &&& (q.created_before matches Some(t) ==> e.created_at < t)
    };
    assert((|e: ProviderUsageEventRecord| usage_matches(q, e)) =~= raw);
}

/// A snapshot listing holds only stored snapshots of the query's
/// organization captured at or after `created_after` and before
/// `created_before` and lying past the cursor; it lists them newest first (by
/// `captured_at`, then id); and it leaves out a qualifying snapshot only when
/// the page is full and the snapshot is listed no earlier than all of the
/// page.
pub proof fn law_snapshot_listing(snaps: Seq<MemoryUsageSnapshot>, q: MemoryUsageSnapshotQuery, page: Seq<MemoryUsageSnapshot>)
    requires
        snaps.len() <= usize::MAX,
        is_top_page(snaps.filter(|s: MemoryUsageSnapshot| snapshot_listed(q, s)), snapshot_key(), q.limit as int, page),
    ensures
        forall|k: int| 0 <= k < page.len() ==> {
            let s = #[trigger] page[k];
            &&& snaps.contains(s)
            &&& s.org_id@ == q.org_id@
            &&& (q.created_after matches Some(t) ==> s.captured_at >= t)
            &&& (q.created_before matches Some(t) ==> s.captured_at < t)
            &&& (q.cursor matches Some(c) ==> s.captured_at < c.last_sort_value || (s.captured_at == c.last_sort_value && s.id < c.last_id))
        },
        forall|k: int, l: int| 0 <= k < l < page.len() ==>
            (#[trigger] page[k]).captured_at > (#[trigger] page[l]).captured_at
                || (page[k].captured_at == page[l].captured_at && page[k].id >= page[l].id),
        forall|s: MemoryUsageSnapshot| {
            &&& snaps.contains(s)
            &&& s.org_id@ == q.org_id@
            &&& (q.created_after matches Some(t) ==> s.captured_at >= t)
            &&& (q.created_before matches Some(t) ==> s.captured_at < t)
            &&& (q.cursor matches Some(c) ==> s.captured_at < c.last_sort_value || (s.captured_at == c.last_sort_value && s.id < c.last_id))
            &&& !page.contains(s)
        } ==> {
            &&& page.len() == q.limit
            &&& forall|k: int| 0 <= k < page.len() ==> (#[trigger] page[k]).captured_at > s.captured_at
                || (page[k].captured_at == s.captured_at && page[k].id >= s.id)
        },
{
    let pred = |s: MemoryUsageSnapshot| snapshot_listed(q, s);
    lemma_filter_members(snaps, pred);
    lemma_top_page_order(snaps.filter(pred), snapshot_key(), q.limit as int, page);
}

} // verus!
