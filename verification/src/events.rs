//! In-memory memory-event log: append-only, tenant-checked on write, listed
//! newest first per tenant or per organization, pruned by age.

use vstd::prelude::*;
use crate::errors::MemcoreError;
use crate::pagination::{
    PageCursor, after_cursor, fetch_limit_spec, is_after_cursor_in_desc_order, is_top_page,
    lemma_top_page_order, page_fetch_limit, top_desc_positions,
};
use crate::seqs::{lemma_filter_members, lemma_filter_take_step, lemma_take_full};
use crate::text::str_eq;
use crate::types::{MemoryEvent, MemoryEventOperation, TenantContext, same_tenant};

verus! {

/// Bounds on how many events one listing may return.
#[derive(Clone, Copy, Debug)]
pub struct EventListLimits {
    /// Used when the query asks for 0.
    pub default_limit: usize,
    /// Largest limit a query may ask for.
    pub max_limit: usize,
}

/// Listing of one tenant's events.
pub struct MemoryEventQuery {
    pub tenant: TenantContext,
    pub fact_id: Option<u128>,
    pub operation: Option<MemoryEventOperation>,
    pub created_after: Option<i128>,
    pub created_before: Option<i128>,
    pub cursor: Option<PageCursor>,
    pub limit: usize,
}

/// Listing of one organization's events, optionally of one user.
pub struct OrgMemoryEventQuery {
    pub org_id: String,
    pub user_id: Option<String>,
    pub fact_id: Option<u128>,
    pub operation: Option<MemoryEventOperation>,
    pub created_after: Option<i128>,
    pub created_before: Option<i128>,
    pub cursor: Option<PageCursor>,
    pub limit: usize,
}

pub open spec fn event_key() -> spec_fn(MemoryEvent) -> (i128, u128) {
    |e: MemoryEvent| e.sort_key()
}

/// The filters both listings share.
pub open spec fn event_common_match(
    fact_id: Option<u128>,
    operation: Option<MemoryEventOperation>,
    created_after: Option<i128>,
    created_before: Option<i128>,
    cursor: Option<PageCursor>,
    e: MemoryEvent,
) -> bool {
    &&& (fact_id matches Some(id) ==> e.fact_id == Some(id))
    &&& (operation matches Some(op) ==> e.operation == op)
    &&& (created_after matches Some(t) ==> e.created_at >= t)
    &&& (created_before matches Some(t) ==> e.created_at < t)
    &&& (cursor matches Some(c) ==> after_cursor(e.created_at, e.id, c))
}

pub open spec fn tenant_event_match(q: MemoryEventQuery, e: MemoryEvent) -> bool {
    &&& same_tenant(e.org_id@, e.user_id@, q.tenant)
    &&& event_common_match(q.fact_id, q.operation, q.created_after, q.created_before, q.cursor, e)
}

pub open spec fn org_event_match(q: OrgMemoryEventQuery, e: MemoryEvent) -> bool {
    &&& e.org_id@ == q.org_id@
    &&& (q.user_id matches Some(u) ==> e.user_id@ == u@)
    &&& event_common_match(q.fact_id, q.operation, q.created_after, q.created_before, q.cursor, e)
}

/// The limit a listing runs with: the default for 0, refused above the maximum.
pub open spec fn normalized_limit(limits: EventListLimits, limit: usize) -> Option<usize> {
    if limit == 0 {
        Some(limits.default_limit)
    } else if limit > limits.max_limit {
        None
    } else {
        Some(limit)
    }
}

pub open spec fn limit_error_text(limits: EventListLimits) -> Seq<char> {
    "limit cannot exceed "@ + crate::text::decimal_text(limits.max_limit as nat)
}

/// Applies the default and the maximum to a requested limit.
pub fn normalize_event_list_limit(limits: EventListLimits, limit: usize) -> (r: Result<usize, MemcoreError>)
    ensures
        match normalized_limit(limits, limit) {
            Some(n) => r == Ok::<usize, MemcoreError>(n),
            None => r matches Err(MemcoreError::ValidationError(msg)) && msg@ == limit_error_text(limits),
        },
{
    if limit == 0 {
        return Ok(limits.default_limit);
    }
    if limit > limits.max_limit {
        let mut msg = String::from_str("limit cannot exceed ");
        crate::text::push_decimal(&mut msg, limits.max_limit);
        return Err(MemcoreError::ValidationError(msg));
    }
    Ok(limit)
}

/// Event log kept in memory, in recording order.
pub struct MockMemoryEventStore {
    events: Vec<MemoryEvent>,
    limits: EventListLimits,
}

impl View for MockMemoryEventStore {
    type V = Seq<MemoryEvent>;

    closed spec fn view(&self) -> Seq<MemoryEvent> {
        self.events@
    }
}

impl MockMemoryEventStore {
    pub closed spec fn limits(&self) -> EventListLimits {
        self.limits
    }

    pub fn new(limits: EventListLimits) -> (s: MockMemoryEventStore)
        ensures
            s@ == Seq::<MemoryEvent>::empty(),
            s.limits() == limits,
    {
        MockMemoryEventStore { events: Vec::new(), limits }
    }

    /// Appends `event` when it belongs to `tenant`.
    pub fn record_event(&mut self, tenant: &TenantContext, event: MemoryEvent) -> (r: Result<MemoryEvent, MemcoreError>)
        ensures
            final(self).limits() == old(self).limits(),
            if same_tenant(event.org_id@, event.user_id@, *tenant) {
                &&& r == Ok::<MemoryEvent, MemcoreError>(event)
                &&& final(self)@ == old(self)@.push(event)
            } else {
                &&& r matches Err(MemcoreError::Forbidden)
                &&& final(self)@ == old(self)@
            },
    {
        if !tenant.owns(&event.org_id, &event.user_id) {
            return Err(MemcoreError::Forbidden);
        }
        self.events.push(event.duplicate());
        Ok(event)
    }

    fn common_match(
        fact_id: Option<u128>,
        operation: Option<MemoryEventOperation>,
        created_after: Option<i128>,
        created_before: Option<i128>,
        cursor: &Option<PageCursor>,
        e: &MemoryEvent,
    ) -> (r: bool)
        ensures
            r == event_common_match(fact_id, operation, created_after, created_before, *cursor, *e),
    {
        if let Some(id) = fact_id {
            match e.fact_id {
                Some(f) => {
                    if f != id {
                        return false;
                    }
                },
                None => {
                    return false;
                },
            }
        }
        if let Some(op) = operation {
            if e.operation != op {
                return false;
            }
        }
        if let Some(t) = created_after {
            if e.created_at < t {
                return false;
            }
        }
        if let Some(t) = created_before {
            if e.created_at >= t {
                return false;
            }
        }
        if let Some(c) = cursor {
            if !is_after_cursor_in_desc_order(e.created_at, e.id, c) {
                return false;
            }
        }
        true
    }

    /// First `n` of `cands` newest first.
    fn top_events(cands: &Vec<MemoryEvent>, n: usize) -> (r: Vec<MemoryEvent>)
        ensures
            is_top_page(cands@, event_key(), n as int, r@),
    {
        let mut keys: Vec<(i128, u128)> = Vec::new();
        for k in 0..cands.len()
            invariant
                keys@.len() == k,
                forall|m: int| 0 <= m < k ==> keys@[m] == (#[trigger] cands@[m]).sort_key(),
        {
            keys.push((cands[k].created_at, cands[k].id));
        }
        let out = top_desc_positions(&keys, n);
        let mut page: Vec<MemoryEvent> = Vec::new();
        for k in 0..out.len()
            invariant
                crate::pagination::is_top_positions(keys@, n as int, out@),
                keys@.len() == cands@.len(),
                page@.len() == k,
                forall|m: int| 0 <= m < k ==> page@[m] == cands@[#[trigger] out@[m] as int],
        {
            page.push(cands[out[k]].duplicate());
        }
        proof {
            assert(keys@ =~= cands@.map_values(event_key()));
            assert(page@ =~= out@.map_values(|p: usize| cands@[p as int]));
        }
        page
    }

    /// The query's page of the tenant's events, newest first, holding one row
    /// more than the normalized limit when that many match.
    pub fn list_events(&self, query: MemoryEventQuery) -> (r: Result<Vec<MemoryEvent>, MemcoreError>)
        ensures
            match normalized_limit(self.limits(), query.limit) {
                Some(_) => r matches Ok(page) && is_top_page(
                    self@.filter(|e: MemoryEvent| tenant_event_match(query, e)),
                    event_key(),
                    fetch_limit_spec(query.limit) as int,
                    page@,
                ),
                None => r matches Err(MemcoreError::ValidationError(msg)) && msg@ == limit_error_text(self.limits()),
            },
    {
        let _ = normalize_event_list_limit(self.limits, query.limit)?;
        let ghost pred = |e: MemoryEvent| tenant_event_match(query, e);
        let mut cands: Vec<MemoryEvent> = Vec::new();
        for i in 0..self.events.len()
            invariant
                pred == (|e: MemoryEvent| tenant_event_match(query, e)),
                cands@ == self.events@.take(i as int).filter(pred),
        {
            let e = &self.events[i];
            proof {
                lemma_filter_take_step(self.events@, pred, i as int);
            }
            if query.tenant.owns(&e.org_id, &e.user_id) && Self::common_match(
                query.fact_id,
                query.operation,
                query.created_after,
                query.created_before,
                &query.cursor,
                e,
            ) {
                cands.push(e.duplicate());
            }
        }
        proof {
            lemma_take_full(self.events@);
        }
        Ok(Self::top_events(&cands, page_fetch_limit(query.limit)))
    }

    /// The query's page of the organization's events, newest first, holding
    /// one row more than the normalized limit when that many match.
    pub fn list_events_by_org(&self, query: OrgMemoryEventQuery) -> (r: Result<Vec<MemoryEvent>, MemcoreError>)
        ensures
            match normalized_limit(self.limits(), query.limit) {
                Some(n) => r matches Ok(page) && is_top_page(
                    self@.filter(|e: MemoryEvent| org_event_match(query, e)),
                    event_key(),
                    fetch_limit_spec(n) as int,
                    page@,
                ),
                None => r matches Err(MemcoreError::ValidationError(msg)) && msg@ == limit_error_text(self.limits()),
            },
    {
        let limit = normalize_event_list_limit(self.limits, query.limit)?;
        let ghost pred = |e: MemoryEvent| org_event_match(query, e);
        let mut cands: Vec<MemoryEvent> = Vec::new();
        for i in 0..self.events.len()
            invariant
                pred == (|e: MemoryEvent| org_event_match(query, e)),
                cands@ == self.events@.take(i as int).filter(pred),
        {
            let e = &self.events[i];
            proof {
                lemma_filter_take_step(self.events@, pred, i as int);
            }
            let user_ok = match &query.user_id {
                Some(u) => str_eq(e.user_id.as_str(), u.as_str()),
                None => true,
            };
            if str_eq(e.org_id.as_str(), query.org_id.as_str()) && user_ok && Self::common_match(
                query.fact_id,
                query.operation,
                query.created_after,
                query.created_before,
                &query.cursor,
                e,
            ) {
                cands.push(e.duplicate());
            }
        }
        proof {
            lemma_take_full(self.events@);
        }
        Ok(Self::top_events(&cands, page_fetch_limit(limit)))
    }

    /// Counts, and unless `dry_run` removes, the tenant's events created
    /// before `cutoff`.
    pub fn delete_events_older_than(&mut self, tenant: &TenantContext, cutoff: i128, dry_run: bool) -> (r: Result<usize, MemcoreError>)
        ensures
            final(self).limits() == old(self).limits(),
            r matches Ok(n) && n == old(self)@.filter(|e: MemoryEvent| same_tenant(e.org_id@, e.user_id@, *tenant) && e.created_at < cutoff).len(),
            final(self)@ == if dry_run {
                old(self)@
            } else {
                old(self)@.filter(|e: MemoryEvent| !(same_tenant(e.org_id@, e.user_id@, *tenant) && e.created_at < cutoff))
            },
    {
        let ghost pred = |e: MemoryEvent| same_tenant(e.org_id@, e.user_id@, *tenant) && e.created_at < cutoff;
        let ghost keep = |e: MemoryEvent| !(same_tenant(e.org_id@, e.user_id@, *tenant) && e.created_at < cutoff);
        let mut count: usize = 0;
        let mut kept: Vec<MemoryEvent> = Vec::new();
        let ghost mut matched: Seq<MemoryEvent> = Seq::empty();
        for i in 0..self.events.len()
            invariant
                pred == (|e: MemoryEvent| same_tenant(e.org_id@, e.user_id@, *tenant) && e.created_at < cutoff),
                keep == (|e: MemoryEvent| !(same_tenant(e.org_id@, e.user_id@, *tenant) && e.created_at < cutoff)),
                matched == self.events@.take(i as int).filter(pred),
                count == matched.len(),
                count <= i,
                kept@ == self.events@.take(i as int).filter(keep),
        {
            let e = &self.events[i];
            proof {
                lemma_filter_take_step(self.events@, pred, i as int);
                lemma_filter_take_step(self.events@, keep, i as int);
            }
            if tenant.owns(&e.org_id, &e.user_id) && e.created_at < cutoff {
                count = count + 1;
                proof {
                    matched = matched.push(self.events@[i as int]);
                }
            } else {
                kept.push(e.duplicate());
            }
        }
        proof {
            lemma_take_full(self.events@);
        }
        if !dry_run {
            self.events = kept;
        }
        Ok(count)
    }

    /// Number of events recorded for organization `org_id`.
    pub fn count_events_by_org(&self, org_id: &str) -> (r: Result<usize, MemcoreError>)
        ensures
            r matches Ok(n) && n == self@.filter(|e: MemoryEvent| e.org_id@ == org_id@).len(),
    {
        let ghost pred = |e: MemoryEvent| e.org_id@ == org_id@;
        let mut count: usize = 0;
        let ghost mut matched: Seq<MemoryEvent> = Seq::empty();
        for i in 0..self.events.len()
            invariant
                pred == (|e: MemoryEvent| e.org_id@ == org_id@),
                matched == self.events@.take(i as int).filter(pred),
                count == matched.len(),
                count <= i,
        {
            proof {
                lemma_filter_take_step(self.events@, pred, i as int);
            }
            if str_eq(self.events[i].org_id.as_str(), org_id) {
                count = count + 1;
                proof {
                    matched = matched.push(self.events@[i as int]);
                }
            }
        }
        proof {
            lemma_take_full(self.events@);
        }
        Ok(count)
    }
}

/// Every event a tenant listing returns belongs to that tenant.
pub proof fn law_event_listing_isolation(log: Seq<MemoryEvent>, q: MemoryEventQuery, e: MemoryEvent)
    requires
        log.filter(|x: MemoryEvent| tenant_event_match(q, x)).contains(e),
    ensures
        same_tenant(e.org_id@, e.user_id@, q.tenant),
{
    let s = log.filter(|x: MemoryEvent| tenant_event_match(q, x));
    let k = choose|k: int| 0 <= k < s.len() && s[k] == e;
    log.lemma_filter_pred(|x: MemoryEvent| tenant_event_match(q, x), k);
}

/// A dry run of age-based deletion and an applied one report the same count,
/// and the applied one keeps exactly the events it did not count.
pub proof fn law_event_prune_partitions(log: Seq<MemoryEvent>, tenant: TenantContext, cutoff: i128)
    ensures
        log.filter(|e: MemoryEvent| same_tenant(e.org_id@, e.user_id@, tenant) && e.created_at < cutoff).len()
            + log.filter(|e: MemoryEvent| !(same_tenant(e.org_id@, e.user_id@, tenant) && e.created_at < cutoff)).len() == log.len(),
    decreases log.len(),
{
    reveal(Seq::filter);
    if log.len() > 0 {
        law_event_prune_partitions(log.drop_last(), tenant, cutoff);
    }
}

/// Only the tenant an event belongs to may record it.
pub fn ensure_event_tenant(event: &MemoryEvent, tenant: &TenantContext) -> (r: Result<(), MemcoreError>)
    ensures
        if same_tenant(event.org_id@, event.user_id@, *tenant) {
            r is Ok
        } else {
            r matches Err(MemcoreError::Forbidden)
        },
{
    if tenant.owns(&event.org_id, &event.user_id) {
        Ok(())
    } else {
        Err(MemcoreError::Forbidden)
    }
}

/// An organization's audit listing holds only events of that organization
/// (of the one user when a user is given) that pass the fact, operation and
/// time filters and lie past the cursor; it lists them newest first (by
/// `created_at`, then id); and it leaves out a qualifying event only when the
/// page is full and the event is listed no earlier than all of the page.
pub proof fn law_org_event_listing(events: Seq<MemoryEvent>, q: OrgMemoryEventQuery, n: int, page: Seq<MemoryEvent>)
    requires
        events.len() <= usize::MAX,
        is_top_page(events.filter(|e: MemoryEvent| org_event_match(q, e)), event_key(), n, page),
    ensures
        forall|k: int| 0 <= k < page.len() ==> {
            let e = #[trigger] page[k];
            &&& events.contains(e)
            &&& e.org_id@ == q.org_id@
            &&& (q.user_id matches Some(u) ==> e.user_id@ == u@)
            &&& (q.fact_id matches Some(id) ==> e.fact_id == Some(id))
            &&& (q.operation matches Some(op) ==> e.operation == op)
            &&& (q.created_after matches Some(t) ==> e.created_at >= t)
            &&& (q.created_before matches Some(t) ==> e.created_at < t)
            &&& (q.cursor matches Some(c) ==> e.created_at < c.last_sort_value || (e.created_at == c.last_sort_value && e.id < c.last_id))
        },
        forall|k: int, l: int| 0 <= k < l < page.len() ==>
            (#[trigger] page[k]).created_at > (#[trigger] page[l]).created_at
                || (page[k].created_at == page[l].created_at && page[k].id >= page[l].id),
        forall|e: MemoryEvent| {
            &&& events.contains(e)
            &&& e.org_id@ == q.org_id@
            &&& (q.user_id matches Some(u) ==> e.user_id@ == u@)
            &&& (q.fact_id matches Some(id) ==> e.fact_id == Some(id))
            &&& (q.operation matches Some(op) ==> e.operation == op)
            &&& (q.created_after matches Some(t) ==> e.created_at >= t)
            &&& (q.created_before matches Some(t) ==> e.created_at < t)
            &&& (q.cursor matches Some(c) ==> e.created_at < c.last_sort_value || (e.created_at == c.last_sort_value && e.id < c.last_id))
            &&& !page.contains(e)
        } ==> {
            &&& page.len() == n
            &&& forall|k: int| 0 <= k < page.len() ==> (#[trigger] page[k]).created_at > e.created_at
                || (page[k].created_at == e.created_at && page[k].id >= e.id)
        },
{
    let pred = |e: MemoryEvent| org_event_match(q, e);
    lemma_filter_members(events, pred);
    lemma_top_page_order(events.filter(pred), event_key(), n, page);
}

/// A tenant's listing holds only that tenant's events that pass the fact,
/// operation and time filters and lie past the cursor; it lists them newest
/// first (by `created_at`, then id); and it leaves out a qualifying event
/// only when the page is full and the event is listed no earlier than all of
/// the page.
pub proof fn law_tenant_event_listing(events: Seq<MemoryEvent>, q: MemoryEventQuery, n: int, page: Seq<MemoryEvent>)
    requires
        events.len() <= usize::MAX,
        is_top_page(events.filter(|e: MemoryEvent| tenant_event_match(q, e)), event_key(), n, page),
    ensures
        forall|k: int| 0 <= k < page.len() ==> {
            let e = #[trigger] page[k];
            &&& events.contains(e)
            &&& e.org_id@ == q.tenant.org_id@
            &&& e.user_id@ == q.tenant.user_id@
            &&& (q.fact_id matches Some(id) ==> e.fact_id == Some(id))
            &&& (q.operation matches Some(op) ==> e.operation == op)
            &&& (q.created_after matches Some(t) ==> e.created_at >= t)
            &&& (q.created_before matches Some(t) ==> e.created_at < t)
            &&& (q.cursor matches Some(c) ==> e.created_at < c.last_sort_value || (e.created_at == c.last_sort_value && e.id < c.last_id))
        },
        forall|k: int, l: int| 0 <= k < l < page.len() ==>
            (#[trigger] page[k]).created_at > (#[trigger] page[l]).created_at
                || (page[k].created_at == page[l].created_at && page[k].id >= page[l].id),
        forall|e: MemoryEvent| {
            &&& events.contains(e)
            &&& e.org_id@ == q.tenant.org_id@
            &&& e.user_id@ == q.tenant.user_id@
            &&& (q.fact_id matches Some(id) ==> e.fact_id == Some(id))
            &&& (q.operation matches Some(op) ==> e.operation == op)
            &&& (q.created_after matches Some(t) ==> e.created_at >= t)
            &&& (q.created_before matches Some(t) ==> e.created_at < t)
            &&& (q.cursor matches Some(c) ==> e.created_at < c.last_sort_value || (e.created_at == c.last_sort_value && e.id < c.last_id))
            &&& !page.contains(e)
        } ==> {
            &&& page.len() == n
            &&& forall|k: int| 0 <= k < page.len() ==> (#[trigger] page[k]).created_at > e.created_at
                || (page[k].created_at == e.created_at && page[k].id >= e.id)
        },
{
    let pred = |e: MemoryEvent| tenant_event_match(q, e);
    lemma_filter_members(events, pred);
    lemma_top_page_order(events.filter(pred), event_key(), n, page);
}

} // verus!
