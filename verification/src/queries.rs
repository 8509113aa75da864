//! The SQLite statements the stores run, as text and bound values.

use vstd::prelude::*;
use crate::conversions::{
    capability_parse, capability_to_str, law_labels_round_trip, memory_event_operation_parse, memory_event_operation_to_str,
    memory_type_to_str,
};
use crate::errors::MemcoreError;
use crate::events::{MemoryEventQuery, OrgMemoryEventQuery};
use crate::facts::FactSearchQuery;
use crate::ids::{uuid_string, uuid_text};
use crate::jobs::BackgroundJobRunQuery;
use crate::pagination::{fetch_limit_spec, page_fetch_limit};
use crate::sql::{
    SqlPartView, SqlQuery, SqlValue, SqlValueView, bind_text, bind_time, desc_cursor_parts, job_run_filter_parts,
    push_job_run_filters, push_sqlite_desc_cursor, sqlite_like_pattern, sqlite_like_text, text,
};
use crate::types::{MemoryEvent, MemoryType, TenantContext};
use crate::usage::{MemoryUsageSnapshotQuery, ProviderUsageEventRecord, ProviderUsageQuery};
use crate::seqs::{lemma_skip_regroup, lemma_skip_regroup5};

verus! {

pub open spec fn bind_int(v: i64) -> SqlPartView {
    SqlPartView::Bind(SqlValueView::Int(v))
}

pub open spec fn fact_search_head() -> Seq<char> {
    "SELECT id, org_id, user_id, memory_type, content, summary, source, confidence, importance, valid_at, invalid_at, recorded_at, updated_at, metadata FROM facts WHERE org_id = "@
}

/// `IN` list pieces of the first `n` types: one bound label each, separated
/// by `, `.
pub open spec fn type_list_parts(types: Seq<MemoryType>, n: int) -> Seq<SqlPartView>
    decreases n,
{
    if n <= 0 {
        Seq::empty()
    } else if n == 1 {
        seq![bind_text(types[0].label())]
    } else {
        type_list_parts(types, n - 1) + seq![text(", "@), bind_text(types[n - 1].label())]
    }
}

/// The memory-type condition, when types are named: an `IN` list of their
/// bound labels.
pub open spec fn memory_types_parts(types: Option<Vec<MemoryType>>) -> Seq<SqlPartView> {
    match types {
        Some(types) => if types@.len() > 0 {
            seq![text(" AND memory_type IN ("@)] + type_list_parts(types@, types@.len() as int) + seq![text(") "@)]
        } else {
            Seq::empty()
        },
        None => Seq::empty(),
    }
}

pub(crate) fn push_memory_types(q: &mut SqlQuery, memory_types: &Option<Vec<MemoryType>>)
    ensures
        final(q)@ == old(q)@ + memory_types_parts(*memory_types),
{
    let ghost start = q@;
    if let Some(types) = memory_types {
        if types.len() > 0 {
            q.push(" AND memory_type IN (");
            let ghost c = q@;
            for i in 0..types.len()
                invariant
                    q@ == c + type_list_parts(types@, i as int),
            {
                if i > 0 {
                    q.push(", ");
                }
                q.push_bind(SqlValue::Text(String::from_str(memory_type_to_str(types[i]))));
                proof {
                    if i == 0 {
                        assert(q@ =~= c + type_list_parts(types@, 1));
                    } else {
                        assert(q@ =~= c + type_list_parts(types@, i + 1));
                    }
                }
            }
            q.push(") ");
        }
    }
    assert(q@ =~= start + memory_types_parts(*memory_types));
}

/// The pieces of a fact search: the tenant, live facts unless deleted ones
/// are asked for, the memory types, a keyword on the content, newest first.
pub open spec fn fact_search_parts(q: FactSearchQuery) -> Seq<SqlPartView> {
    seq![text(fact_search_head()), bind_text(q.tenant.org_id@), text(" AND user_id = "@), bind_text(q.tenant.user_id@)]
        + (if q.include_deleted {
        Seq::empty()
    } else {
        seq![text(" AND deleted_at IS NULL"@)]
    }) + memory_types_parts(q.memory_types) + (match q.query_text {
        Some(t) => seq![text(" AND LOWER(content) LIKE "@), bind_text(sqlite_like_text(t@))],
        None => Seq::empty(),
    }) + seq![text(" ORDER BY updated_at DESC LIMIT "@), bind_int(q.limit as i64)]
}

/// The statement of a SQLite fact search.
pub fn sqlite_fact_search_query(query: &FactSearchQuery) -> (r: SqlQuery)
    ensures
        r@ == fact_search_parts(*query),
{
    let mut q = SqlQuery::new(
        "SELECT id, org_id, user_id, memory_type, content, summary, source, confidence, importance, valid_at, invalid_at, recorded_at, updated_at, metadata FROM facts WHERE org_id = ",
    );
    q.push_bind(SqlValue::Text(query.tenant.org_id.clone()));
    q.push(" AND user_id = ");
    q.push_bind(SqlValue::Text(query.tenant.user_id.clone()));
    let ghost a = q@;
    if !query.include_deleted {
        q.push(" AND deleted_at IS NULL");
    }
    push_memory_types(&mut q, &query.memory_types);
    let ghost d = q@;
    if let Some(t) = &query.query_text {
        q.push(" AND LOWER(content) LIKE ");
        q.push_bind(SqlValue::Text(sqlite_like_pattern(t.as_str())));
    }
    q.push(" ORDER BY updated_at DESC LIMIT ");
    q.push_bind(SqlValue::Int(query.limit as i64));
    assert(q@ =~= fact_search_parts(*query));
    q
}

/// The pieces of a fetch of one fact of a tenant by id, live only unless
/// deleted facts are asked for; `id` is the bound id as the backend stores it.
pub open spec fn fact_fetch_parts(id: SqlValueView, org_id: Seq<char>, user_id: Seq<char>, include_deleted: bool) -> Seq<SqlPartView> {
    seq![
        text("SELECT id, org_id, user_id, memory_type, content, summary, source, confidence, importance, valid_at, invalid_at, recorded_at, updated_at, metadata FROM facts WHERE id = "@),
        SqlPartView::Bind(id),
        text(" AND org_id = "@),
        bind_text(org_id),
        text(" AND user_id = "@),
        bind_text(user_id),
    ] + (if include_deleted {
        Seq::empty()
    } else {
        seq![text(" AND deleted_at IS NULL"@)]
    })
}

pub(crate) fn fact_fetch_query(id: SqlValue, tenant: &TenantContext, include_deleted: bool) -> (r: SqlQuery)
    ensures
        r@ == fact_fetch_parts(id@, tenant.org_id@, tenant.user_id@, include_deleted),
{
    let ghost idv = id@;
    let mut q = SqlQuery::new(
        "SELECT id, org_id, user_id, memory_type, content, summary, source, confidence, importance, valid_at, invalid_at, recorded_at, updated_at, metadata FROM facts WHERE id = ",
    );
    q.push_bind(id);
    q.push(" AND org_id = ");
    q.push_bind(SqlValue::Text(tenant.org_id.clone()));
    q.push(" AND user_id = ");
    q.push_bind(SqlValue::Text(tenant.user_id.clone()));
    if !include_deleted {
        q.push(" AND deleted_at IS NULL");
    }
    assert(q@ =~= fact_fetch_parts(idv, tenant.org_id@, tenant.user_id@, include_deleted));
    q
}

/// The statement of a SQLite fetch of one fact, its id bound as text.
pub fn sqlite_fact_fetch_query(tenant: &TenantContext, fact_id: u128, include_deleted: bool) -> (r: SqlQuery)
    ensures
        r@ == fact_fetch_parts(SqlValueView::Text(uuid_text(fact_id)), tenant.org_id@, tenant.user_id@, include_deleted),
{
    fact_fetch_query(SqlValue::Text(uuid_string(fact_id)), tenant, include_deleted)
}

pub open spec fn event_select_head() -> Seq<char> {
    "SELECT id, org_id, user_id, fact_id, operation, input_text, previous_content, new_content, provider_name, model_name, metadata, created_at FROM memory_events WHERE org_id = "@
}

/// The filters both event listings share, after the owner.
pub open spec fn event_filter_parts(
    fact_id: Option<u128>,
    operation: Option<crate::types::MemoryEventOperation>,
    created_after: Option<i128>,
    created_before: Option<i128>,
) -> Seq<SqlPartView> {
    (match fact_id {
        Some(f) => seq![text(" AND fact_id = "@), bind_text(uuid_text(f))],
        None => Seq::empty(),
    }) + (match operation {
        Some(o) => seq![text(" AND operation = "@), bind_text(o.label())],
        None => Seq::empty(),
    }) + (match created_after {
        Some(t) => seq![text(" AND created_at >= "@), bind_time(t)],
        None => Seq::empty(),
    }) + (match created_before {
        Some(t) => seq![text(" AND created_at < "@), bind_time(t)],
        None => Seq::empty(),
    })
}

fn push_event_filters(
    q: &mut SqlQuery,
    fact_id: Option<u128>,
    operation: Option<crate::types::MemoryEventOperation>,
    created_after: Option<i128>,
    created_before: Option<i128>,
)
    ensures
        final(q)@ == old(q)@ + event_filter_parts(fact_id, operation, created_after, created_before),
{
    let ghost start = q@;
    if let Some(f) = fact_id {
        q.push(" AND fact_id = ");
        q.push_bind(SqlValue::Text(uuid_string(f)));
    }
    let ghost a = q@;
    if let Some(o) = operation {
        q.push(" AND operation = ");
        q.push_bind(SqlValue::Text(String::from_str(memory_event_operation_to_str(o))));
    }
    let ghost b = q@;
    if let Some(t) = created_after {
        q.push(" AND created_at >= ");
        q.push_bind(SqlValue::Timestamp(t));
    }
    let ghost c = q@;
    if let Some(t) = created_before {
        q.push(" AND created_at < ");
        q.push_bind(SqlValue::Timestamp(t));
    }
    assert(q@ =~= start + event_filter_parts(fact_id, operation, created_after, created_before));
}

/// The limit as a SQL integer; a limit beyond `i64` is refused with a
/// message starting with `context`.
pub(crate) fn limit_as_i64(limit: usize, context: &str) -> (r: Result<i64, MemcoreError>)
    ensures
        limit <= i64::MAX ==> r == Ok::<i64, MemcoreError>(limit as i64),
        limit > i64::MAX ==> (r matches Err(MemcoreError::StorageError(m)) && exists|t: Seq<char>| m@ == context@ + ": "@ + t),
{
    match i64::try_from(limit) {
        Ok(v) => Ok(v),
        Err(e) => {
            let mut m = String::from_str(context);
            m.append(": ");
            let detail = e.to_string();
            m.append(detail.as_str());
            Err(MemcoreError::StorageError(m))
        },
    }
}

/// The pieces of a tenant's event listing, newest first.
pub open spec fn event_list_parts(q: MemoryEventQuery, limit: i64) -> Seq<SqlPartView> {
    seq![text(event_select_head()), bind_text(q.tenant.org_id@), text(" AND user_id = "@), bind_text(q.tenant.user_id@)]
        + event_filter_parts(q.fact_id, q.operation, q.created_after, q.created_before)
        + seq![text(" ORDER BY created_at DESC LIMIT "@), bind_int(limit)]
}

/// The statement of a SQLite tenant event listing of `limit` rows.
pub fn sqlite_event_list_query(query: &MemoryEventQuery, limit: usize) -> (r: Result<SqlQuery, MemcoreError>)
    ensures
        limit <= i64::MAX ==> (r matches Ok(q) && q@ == event_list_parts(*query, limit as i64)),
        limit > i64::MAX ==> r matches Err(MemcoreError::StorageError(_)),
{
    let mut q = SqlQuery::new(
        "SELECT id, org_id, user_id, fact_id, operation, input_text, previous_content, new_content, provider_name, model_name, metadata, created_at FROM memory_events WHERE org_id = ",
    );
    q.push_bind(SqlValue::Text(query.tenant.org_id.clone()));
    q.push(" AND user_id = ");
    q.push_bind(SqlValue::Text(query.tenant.user_id.clone()));
    push_event_filters(&mut q, query.fact_id, query.operation, query.created_after, query.created_before);
    q.push(" ORDER BY created_at DESC LIMIT ");
    let n = limit_as_i64(limit, "event list limit out of range for sqlite")?;
    q.push_bind(SqlValue::Int(n));
    assert(q@ =~= event_list_parts(*query, limit as i64));
    Ok(q)
}

/// The pieces of an organization's event listing, newest first.
pub open spec fn org_event_list_parts(q: OrgMemoryEventQuery, limit: i64) -> Seq<SqlPartView> {
    seq![text(event_select_head()), bind_text(q.org_id@)] + (match q.user_id {
        Some(u) => seq![text(" AND user_id = "@), bind_text(u@)],
        None => Seq::empty(),
    }) + event_filter_parts(q.fact_id, q.operation, q.created_after, q.created_before)
        + seq![text(" ORDER BY created_at DESC LIMIT "@), bind_int(limit)]
}

/// The statement of a SQLite organization event listing of `limit` rows.
pub fn sqlite_org_event_list_query(query: &OrgMemoryEventQuery, limit: usize) -> (r: Result<SqlQuery, MemcoreError>)
    ensures
        limit <= i64::MAX ==> (r matches Ok(q) && q@ == org_event_list_parts(*query, limit as i64)),
        limit > i64::MAX ==> r matches Err(MemcoreError::StorageError(_)),
{
    let mut q = SqlQuery::new(
        "SELECT id, org_id, user_id, fact_id, operation, input_text, previous_content, new_content, provider_name, model_name, metadata, created_at FROM memory_events WHERE org_id = ",
    );
    q.push_bind(SqlValue::Text(query.org_id.clone()));
    let ghost a = q@;
    if let Some(u) = &query.user_id {
        q.push(" AND user_id = ");
        q.push_bind(SqlValue::Text(u.clone()));
    }
    push_event_filters(&mut q, query.fact_id, query.operation, query.created_after, query.created_before);
    q.push(" ORDER BY created_at DESC LIMIT ");
    let n = limit_as_i64(limit, "org event list limit out of range for sqlite")?;
    q.push_bind(SqlValue::Int(n));
    assert(q@ =~= org_event_list_parts(*query, limit as i64));
    Ok(q)
}

pub open spec fn job_runs_head() -> Seq<char> {
    "SELECT id, kind, status, started_at, finished_at, duration_ms, attempt_count, max_attempts, retried, error_code, error_message, metadata FROM background_job_runs"@
}

/// The pieces of a job run listing: one row more than `limit`, newest first.
pub open spec fn job_runs_parts(q: BackgroundJobRunQuery, limit: usize) -> Seq<SqlPartView> {
    seq![text(job_runs_head())] + job_run_filter_parts(q) + (match q.cursor {
        Some(c) => desc_cursor_parts("started_at"@, "id"@, c.last_sort_value, SqlValueView::Text(uuid_text(c.last_id))),
        None => Seq::empty(),
    }) + seq![text(" ORDER BY started_at DESC, id DESC LIMIT "@), bind_int(fetch_limit_spec(limit) as i64)]
}

/// The statement of a SQLite job run listing.
pub fn sqlite_job_runs_query(query: &BackgroundJobRunQuery, limit: usize) -> (r: SqlQuery)
    ensures
        r@ == job_runs_parts(*query, limit),
{
    let mut q = SqlQuery::new(
        "SELECT id, kind, status, started_at, finished_at, duration_ms, attempt_count, max_attempts, retried, error_code, error_message, metadata FROM background_job_runs",
    );
    push_job_run_filters(&mut q, query);
    let ghost a = q@;
    if let Some(c) = &query.cursor {
        push_sqlite_desc_cursor(&mut q, "started_at", "id", c);
    }
    q.push(" ORDER BY started_at DESC, id DESC LIMIT ");
    q.push_bind(SqlValue::Int(page_fetch_limit(limit) as i64));
    assert(q@ =~= job_runs_parts(*query, limit));
    q
}

/// `sql` and the bound text, when there is a text.
pub open spec fn opt_text_parts(sql: Seq<char>, value: Option<String>) -> Seq<SqlPartView> {
    match value {
        Some(v) => seq![text(sql), bind_text(v@)],
        None => Seq::empty(),
    }
}

/// `sql` and the bound timestamp, when there is one.
pub open spec fn opt_time_parts(sql: Seq<char>, value: Option<i128>) -> Seq<SqlPartView> {
    match value {
        Some(t) => seq![text(sql), bind_time(t)],
        None => Seq::empty(),
    }
}

fn push_opt_text(q: &mut SqlQuery, sql: &str, value: &Option<String>)
    ensures
        final(q)@ == old(q)@ + opt_text_parts(sql@, *value),
{
    let ghost start = q@;
    if let Some(v) = value {
        q.push(sql);
        q.push_bind(SqlValue::Text(v.clone()));
    }
    assert(q@ =~= start + opt_text_parts(sql@, *value));
}

fn push_opt_time(q: &mut SqlQuery, sql: &str, value: Option<i128>)
    ensures
        final(q)@ == old(q)@ + opt_time_parts(sql@, value),
{
    let ghost start = q@;
    if let Some(t) = value {
        q.push(sql);
        q.push_bind(SqlValue::Timestamp(t));
    }
    assert(q@ =~= start + opt_time_parts(sql@, value));
}

/// `prefix` followed by the filter pieces of a provider usage listing or
/// summary.
pub open spec fn usage_filters_onto(prefix: Seq<SqlPartView>, q: ProviderUsageQuery) -> Seq<SqlPartView> {
    prefix + seq![text(" WHERE org_id = "@), bind_text(q.org_id@)]
        + opt_text_parts(" AND user_id = "@, q.user_id)
        + opt_text_parts(" AND provider_name = "@, q.provider_name)
        + opt_text_parts(" AND model_name = "@, q.model_name)
        + (match q.capability {
        Some(c) => seq![text(" AND capability = "@), bind_text(c.label())],
        None => Seq::empty(),
    })
        + opt_text_parts(" AND operation_name = "@, q.operation_name)
        + opt_time_parts(" AND created_at >= "@, q.created_after)
        + opt_time_parts(" AND created_at < "@, q.created_before)
}

/// Appends the organization, user, provider, model, capability, operation
/// and time filters of a usage query.
pub fn push_usage_filters(q: &mut SqlQuery, query: &ProviderUsageQuery)
    ensures
        final(q)@ == usage_filters_onto(old(q)@, *query),
{
    let ghost start = q@;
    q.push(" WHERE org_id = ");
    q.push_bind(SqlValue::Text(query.org_id.clone()));
    assert(q@ =~= start + seq![text(" WHERE org_id = "@), bind_text(query.org_id@)]);
    push_opt_text(q, " AND user_id = ", &query.user_id);
    push_opt_text(q, " AND provider_name = ", &query.provider_name);
    push_opt_text(q, " AND model_name = ", &query.model_name);
    let ghost s4 = q@;
    if let Some(c) = query.capability {
        q.push(" AND capability = ");
        q.push_bind(SqlValue::Text(String::from_str(capability_to_str(c))));
    }
    proof {
        let cap = match query.capability {
            Some(c) => seq![text(" AND capability = "@), bind_text(c.label())],
            None => Seq::<SqlPartView>::empty(),
        };
        assert(q@ =~= s4 + cap);
    }
    push_opt_text(q, " AND operation_name = ", &query.operation_name);
    push_opt_time(q, " AND created_at >= ", query.created_after);
    push_opt_time(q, " AND created_at < ", query.created_before);
}

pub open spec fn usage_select_head() -> Seq<char> {
    "SELECT id, org_id, user_id, provider_name, model_name, capability, operation_name, status, input_tokens, output_tokens, total_tokens, retry_count, fallback_used, circuit_blocked, timed_out, estimated_cost_usd, metadata, created_at FROM provider_usage_events"@
}

/// The pieces of a usage listing: one row more than `limit`, newest first.
pub open spec fn usage_list_parts(q: ProviderUsageQuery, limit: usize) -> Seq<SqlPartView> {
    usage_filters_onto(seq![text(usage_select_head())], q) + (match q.cursor {
        Some(c) => desc_cursor_parts("created_at"@, "id"@, c.last_sort_value, SqlValueView::Text(uuid_text(c.last_id))),
        None => Seq::empty(),
    }) + seq![text(" ORDER BY created_at DESC, id DESC LIMIT "@), bind_int(fetch_limit_spec(limit) as i64)]
}

/// The statement of a SQLite provider usage listing.
pub fn sqlite_usage_query(query: &ProviderUsageQuery, limit: usize) -> (r: SqlQuery)
    ensures
        r@ == usage_list_parts(*query, limit),
{
    let mut q = SqlQuery::new(
        "SELECT id, org_id, user_id, provider_name, model_name, capability, operation_name, status, input_tokens, output_tokens, total_tokens, retry_count, fallback_used, circuit_blocked, timed_out, estimated_cost_usd, metadata, created_at FROM provider_usage_events",
    );
    push_usage_filters(&mut q, query);
    let ghost a = q@;
    if let Some(c) = &query.cursor {
        push_sqlite_desc_cursor(&mut q, "created_at", "id", c);
    }
    q.push(" ORDER BY created_at DESC, id DESC LIMIT ");
    q.push_bind(SqlValue::Int(page_fetch_limit(limit) as i64));
    assert(q@ =~= usage_list_parts(*query, limit));
    q
}

pub open spec fn usage_summary_head() -> Seq<char> {
    "SELECT COUNT(*) AS total_requests, COALESCE(SUM(CASE WHEN status = 'success' THEN 1 ELSE 0 END), 0) AS total_successes, COALESCE(SUM(CASE WHEN status = 'error' THEN 1 ELSE 0 END), 0) AS total_errors, COALESCE(SUM(retry_count), 0) AS total_retries, COALESCE(SUM(CASE WHEN fallback_used = 1 THEN 1 ELSE 0 END), 0) AS total_fallbacks, COALESCE(SUM(CASE WHEN circuit_blocked = 1 THEN 1 ELSE 0 END), 0) AS total_circuit_blocks, COALESCE(SUM(CASE WHEN timed_out = 1 THEN 1 ELSE 0 END), 0) AS total_timeouts, COALESCE(SUM(input_tokens), 0) AS total_input_tokens, COALESCE(SUM(output_tokens), 0) AS total_output_tokens, COALESCE(SUM(total_tokens), 0) AS total_tokens, SUM(estimated_cost_usd) AS total_estimated_cost_usd FROM provider_usage_events"@
}

/// The statement of the SQLite usage totals over a query's filters (cursor
/// and limit aside).
pub fn sqlite_usage_summary_query(query: &ProviderUsageQuery) -> (r: SqlQuery)
    ensures
        r@ == usage_filters_onto(seq![text(usage_summary_head())], *query),
{
    let mut q = SqlQuery::new(
        "SELECT COUNT(*) AS total_requests, COALESCE(SUM(CASE WHEN status = 'success' THEN 1 ELSE 0 END), 0) AS total_successes, COALESCE(SUM(CASE WHEN status = 'error' THEN 1 ELSE 0 END), 0) AS total_errors, COALESCE(SUM(retry_count), 0) AS total_retries, COALESCE(SUM(CASE WHEN fallback_used = 1 THEN 1 ELSE 0 END), 0) AS total_fallbacks, COALESCE(SUM(CASE WHEN circuit_blocked = 1 THEN 1 ELSE 0 END), 0) AS total_circuit_blocks, COALESCE(SUM(CASE WHEN timed_out = 1 THEN 1 ELSE 0 END), 0) AS total_timeouts, COALESCE(SUM(input_tokens), 0) AS total_input_tokens, COALESCE(SUM(output_tokens), 0) AS total_output_tokens, COALESCE(SUM(total_tokens), 0) AS total_tokens, SUM(estimated_cost_usd) AS total_estimated_cost_usd FROM provider_usage_events",
    );
    push_usage_filters(&mut q, query);
    q
}

pub open spec fn snapshot_head() -> Seq<char> {
    "SELECT id, org_id, total_users, total_memories, active_memories, deleted_memories, captured_at, metadata FROM memory_usage_snapshots WHERE org_id = "@
}

/// The pieces of a snapshot listing: one row more than the limit, newest
/// first.
pub open spec fn snapshot_list_parts(q: MemoryUsageSnapshotQuery) -> Seq<SqlPartView> {
    seq![text(snapshot_head()), bind_text(q.org_id@)] + (match q.created_after {
        Some(t) => seq![text(" AND captured_at >= "@), bind_time(t)],
        None => Seq::empty(),
    }) + (match q.created_before {
        Some(t) => seq![text(" AND captured_at < "@), bind_time(t)],
        None => Seq::empty(),
    }) + (match q.cursor {
        Some(c) => desc_cursor_parts("captured_at"@, "id"@, c.last_sort_value, SqlValueView::Text(uuid_text(c.last_id))),
        None => Seq::empty(),
    }) + seq![text(" ORDER BY captured_at DESC, id DESC LIMIT "@), bind_int(fetch_limit_spec(q.limit) as i64)]
}

/// The statement of a SQLite snapshot listing.
pub fn sqlite_snapshot_query(query: &MemoryUsageSnapshotQuery) -> (r: SqlQuery)
    ensures
        r@ == snapshot_list_parts(*query),
{
    let mut q = SqlQuery::new(
        "SELECT id, org_id, total_users, total_memories, active_memories, deleted_memories, captured_at, metadata FROM memory_usage_snapshots WHERE org_id = ",
    );
    q.push_bind(SqlValue::Text(query.org_id.clone()));
    let ghost a = q@;
    if let Some(t) = query.created_after {
        q.push(" AND captured_at >= ");
        q.push_bind(SqlValue::Timestamp(t));
    }
    let ghost b = q@;
    if let Some(t) = query.created_before {
        q.push(" AND captured_at < ");
        q.push_bind(SqlValue::Timestamp(t));
    }
    let ghost c = q@;
    if let Some(cur) = &query.cursor {
        push_sqlite_desc_cursor(&mut q, "captured_at", "id", cur);
    }
    q.push(" ORDER BY captured_at DESC, id DESC LIMIT ");
    q.push_bind(SqlValue::Int(page_fetch_limit(query.limit) as i64));
    assert(q@ =~= snapshot_list_parts(*query));
    q
}

/// What one usage condition, the text `c` with the value `v` bound to it,
/// demands of an event, read as SQL (a NULL column matches no bound value).
pub open spec fn usage_condition_holds(c: SqlPartView, v: SqlPartView, e: ProviderUsageEventRecord) -> bool {
    if c == text(" WHERE org_id = "@) {
        v == bind_text(e.org_id@)
    } else if c == text(" AND user_id = "@) {
        e.user_id matches Some(u) && v == bind_text(u@)
    } else if c == text(" AND provider_name = "@) {
        v == bind_text(e.provider_name@)
    } else if c == text(" AND model_name = "@) {
        e.model_name matches Some(m) && v == bind_text(m@)
    } else if c == text(" AND capability = "@) {
        v == bind_text(e.capability.label())
    } else if c == text(" AND operation_name = "@) {
        v == bind_text(e.operation_name@)
    } else if c == text(" AND created_at >= "@) {
        v matches SqlPartView::Bind(SqlValueView::Timestamp(t)) && e.created_at >= t
    } else {
        v matches SqlPartView::Bind(SqlValueView::Timestamp(t)) && e.created_at < t
    }
}

/// What the conditions at the front of `parts` demand of a usage event:
/// every condition must hold; reading stops at the first piece that opens
/// no condition.
pub open spec fn usage_conditions_hold(parts: Seq<SqlPartView>, e: ProviderUsageEventRecord) -> bool
    decreases parts.len(),
{
    if parts.len() >= 2 && is_usage_condition(parts[0]) {
        usage_condition_holds(parts[0], parts[1], e) && usage_conditions_hold(parts.skip(2), e)
    } else {
        true
    }
}

/// A piece that opens one of the usage conditions.
pub open spec fn is_usage_condition(p: SqlPartView) -> bool {
    ||| p == text(" WHERE org_id = "@)
    ||| p == text(" AND user_id = "@)
    ||| p == text(" AND provider_name = "@)
    ||| p == text(" AND model_name = "@)
    ||| p == text(" AND capability = "@)
    ||| p == text(" AND operation_name = "@)
    ||| p == text(" AND created_at >= "@)
    ||| p == text(" AND created_at < "@)
}

/// One condition, then more: the event must meet both.
proof fn lemma_usage_conditions_front(seg: Seq<SqlPartView>, rest: Seq<SqlPartView>, e: ProviderUsageEventRecord)
    requires
        seg.len() == 0 || (seg.len() == 2 && is_usage_condition(seg[0])),
    ensures
        usage_conditions_hold(seg + rest, e) == (usage_conditions_hold(seg, e) && usage_conditions_hold(rest, e)),
{
    if seg.len() == 2 {
        assert((seg + rest).skip(2) =~= rest);
        assert(seg.skip(2) =~= Seq::<SqlPartView>::empty());
        assert(usage_conditions_hold(seg.skip(2), e));
        assert((seg + rest)[0] == seg[0] && (seg + rest)[1] == seg[1]);
    } else {
        assert(seg + rest =~= rest);
    }
}

/// The condition texts of a usage listing differ from one another.
proof fn lemma_usage_condition_texts()
    ensures
        " WHERE org_id = "@.len() == 16,
        " AND user_id = "@.len() == 15,
        " AND provider_name = "@.len() == 21,
        " AND model_name = "@.len() == 18,
        " AND capability = "@.len() == 18,
        " AND operation_name = "@.len() == 22,
        " AND created_at >= "@.len() == 19,
        " AND created_at < "@.len() == 18,
        " AND model_name = "@[5] == 'm',
        " AND capability = "@[5] == 'c',
        " AND created_at < "@[5] == 'c',
        " AND capability = "@[6] == 'a',
        " AND created_at < "@[6] == 'r',
{
    reveal_strlit(" WHERE org_id = ");
    reveal_strlit(" AND user_id = ");
    reveal_strlit(" AND provider_name = ");
    reveal_strlit(" AND model_name = ");
    reveal_strlit(" AND capability = ");
    reveal_strlit(" AND operation_name = ");
    reveal_strlit(" AND created_at >= ");
    reveal_strlit(" AND created_at < ");
}

/// The filters a usage listing or summary appends keep exactly the events
/// that pass them: read as SQL, they demand the query's organization, and the
/// asked user, provider, model, capability and operation name and a creation
/// time at or after `created_after` and before `created_before`, with no
/// condition for a filter that is not given.
pub proof fn law_usage_sql_filters(before: Seq<SqlPartView>, q: ProviderUsageQuery)
    ensures
        forall|e: ProviderUsageEventRecord| #[trigger] usage_conditions_hold(usage_filters_onto(before, q).skip(before.len() as int), e) == {
            &&& e.org_id@ == q.org_id@
            &&& (q.user_id matches Some(u) ==> (e.user_id matches Some(v) && v@ == u@))
            &&& (q.provider_name matches Some(p) ==> e.provider_name@ == p@)
            &&& (q.model_name matches Some(m) ==> (e.model_name matches Some(v) && v@ == m@))
            &&& (q.capability matches Some(c) ==> e.capability == c)
            &&& (q.operation_name matches Some(o) ==> e.operation_name@ == o@)
            &&& (q.created_after matches Some(t) ==> e.created_at >= t)
            &&& (q.created_before matches Some(t) ==> e.created_at < t)
        },
{
    let og = seq![text(" WHERE org_id = "@), bind_text(q.org_id@)];
    let us = opt_text_parts(" AND user_id = "@, q.user_id);
    let pr = opt_text_parts(" AND provider_name = "@, q.provider_name);
    let md = opt_text_parts(" AND model_name = "@, q.model_name);
    let cp: Seq<SqlPartView> = match q.capability {
        Some(c) => seq![text(" AND capability = "@), bind_text(c.label())],
        None => Seq::empty(),
    };
    let op = opt_text_parts(" AND operation_name = "@, q.operation_name);
    let ca = opt_time_parts(" AND created_at >= "@, q.created_after);
    let cb = opt_time_parts(" AND created_at < "@, q.created_before);
    lemma_skip_regroup(before, og, us, pr, md, cp, op, ca, cb);
    assert forall|e: ProviderUsageEventRecord| #[trigger] usage_conditions_hold(usage_filters_onto(before, q).skip(before.len() as int), e) == {
        &&& e.org_id@ == q.org_id@
        &&& (q.user_id matches Some(u) ==> (e.user_id matches Some(v) && v@ == u@))
        &&& (q.provider_name matches Some(p) ==> e.provider_name@ == p@)
        &&& (q.model_name matches Some(m) ==> (e.model_name matches Some(v) && v@ == m@))
        &&& (q.capability matches Some(c) ==> e.capability == c)
        &&& (q.operation_name matches Some(o) ==> e.operation_name@ == o@)
        &&& (q.created_after matches Some(t) ==> e.created_at >= t)
        &&& (q.created_before matches Some(t) ==> e.created_at < t)
    } by {
        lemma_usage_conditions_front(og, us + (pr + (md + (cp + (op + (ca + cb))))), e);
        lemma_usage_conditions_front(us, pr + (md + (cp + (op + (ca + cb)))), e);
        lemma_usage_conditions_front(pr, md + (cp + (op + (ca + cb))), e);
        lemma_usage_conditions_front(md, cp + (op + (ca + cb)), e);
        lemma_usage_conditions_front(cp, op + (ca + cb), e);
        lemma_usage_conditions_front(op, ca + cb, e);
        lemma_usage_conditions_front(ca, cb, e);
        lemma_usage_segments(q, e);
    }
}

/// Each filter of a usage query, read as SQL, demands what it says.
proof fn lemma_usage_segments(q: ProviderUsageQuery, e: ProviderUsageEventRecord)
    ensures
        usage_conditions_hold(seq![text(" WHERE org_id = "@), bind_text(q.org_id@)], e) == (e.org_id@ == q.org_id@),
        usage_conditions_hold(opt_text_parts(" AND user_id = "@, q.user_id), e)
            == (q.user_id matches Some(u) ==> (e.user_id matches Some(v) && v@ == u@)),
        usage_conditions_hold(opt_text_parts(" AND provider_name = "@, q.provider_name), e)
            == (q.provider_name matches Some(p) ==> e.provider_name@ == p@),
        usage_conditions_hold(opt_text_parts(" AND model_name = "@, q.model_name), e)
            == (q.model_name matches Some(m) ==> (e.model_name matches Some(v) && v@ == m@)),
        usage_conditions_hold(
            match q.capability {
                Some(c) => seq![text(" AND capability = "@), bind_text(c.label())],
                None => Seq::empty(),
            },
            e,
        ) == (q.capability matches Some(c) ==> e.capability == c),
        usage_conditions_hold(opt_text_parts(" AND operation_name = "@, q.operation_name), e)
            == (q.operation_name matches Some(o) ==> e.operation_name@ == o@),
        usage_conditions_hold(opt_time_parts(" AND created_at >= "@, q.created_after), e)
            == (q.created_after matches Some(t) ==> e.created_at >= t),
        usage_conditions_hold(opt_time_parts(" AND created_at < "@, q.created_before), e)
            == (q.created_before matches Some(t) ==> e.created_at < t),
{
    lemma_usage_condition_texts();
    let e0 = Seq::<SqlPartView>::empty();
    assert(usage_conditions_hold(e0, e));
    assert(seq![text(" WHERE org_id = "@), bind_text(q.org_id@)].skip(2) =~= e0);
    if let Some(u) = q.user_id {
        assert(opt_text_parts(" AND user_id = "@, q.user_id).skip(2) =~= e0);
    }
    if let Some(p) = q.provider_name {
        assert(opt_text_parts(" AND provider_name = "@, q.provider_name).skip(2) =~= e0);
    }
    if let Some(m) = q.model_name {
        assert(opt_text_parts(" AND model_name = "@, q.model_name).skip(2) =~= e0);
    }
    if let Some(c) = q.capability {
        let cp = seq![text(" AND capability = "@), bind_text(c.label())];
        assert(cp.skip(2) =~= e0);
        law_labels_round_trip();
        assert(capability_parse(c.label()) == Some(c));
        assert(capability_parse(e.capability.label()) == Some(e.capability));
        assert(usage_conditions_hold(cp, e) == (c.label() == e.capability.label()));
    }
    if let Some(o) = q.operation_name {
        assert(opt_text_parts(" AND operation_name = "@, q.operation_name).skip(2) =~= e0);
    }
    if let Some(t) = q.created_after {
        assert(opt_time_parts(" AND created_at >= "@, q.created_after).skip(2) =~= e0);
    }
    if let Some(t) = q.created_before {
        assert(opt_time_parts(" AND created_at < "@, q.created_before).skip(2) =~= e0);
    }
}

/// A piece that opens one of the event listing conditions.
pub open spec fn is_event_condition(p: SqlPartView) -> bool {
    ||| p == text(" AND user_id = "@)
    ||| p == text(" AND fact_id = "@)
    ||| p == text(" AND operation = "@)
    ||| p == text(" AND created_at >= "@)
    ||| p == text(" AND created_at < "@)
}

/// What one event condition, the text `c` with the value `v` bound to it,
/// demands of a memory event, read as SQL (a fact id is bound as its text or
/// as a UUID; a NULL fact id matches no bound value).
pub open spec fn event_condition_holds(c: SqlPartView, v: SqlPartView, e: MemoryEvent) -> bool {
    if c == text(" AND user_id = "@) {
        v == bind_text(e.user_id@)
    } else if c == text(" AND fact_id = "@) {
        e.fact_id matches Some(f) && (v == bind_text(uuid_text(f)) || v == SqlPartView::Bind(SqlValueView::Uuid(f)))
    } else if c == text(" AND operation = "@) {
        v == bind_text(e.operation.label())
    } else if c == text(" AND created_at >= "@) {
        v matches SqlPartView::Bind(SqlValueView::Timestamp(t)) && e.created_at >= t
    } else {
        v matches SqlPartView::Bind(SqlValueView::Timestamp(t)) && e.created_at < t
    }
}

/// What the conditions at the front of `parts` demand of a memory event:
/// every condition must hold; reading stops at the first piece that opens
/// no condition.
pub open spec fn event_conditions_hold(parts: Seq<SqlPartView>, e: MemoryEvent) -> bool
    decreases parts.len(),
{
    if parts.len() >= 2 && is_event_condition(parts[0]) {
        event_condition_holds(parts[0], parts[1], e) && event_conditions_hold(parts.skip(2), e)
    } else {
        true
    }
}

/// One condition, then more: the event must meet both.
pub(crate) proof fn lemma_event_conditions_front(seg: Seq<SqlPartView>, rest: Seq<SqlPartView>, e: MemoryEvent)
    requires
        seg.len() == 0 || (seg.len() == 2 && is_event_condition(seg[0])),
    ensures
        event_conditions_hold(seg + rest, e) == (event_conditions_hold(seg, e) && event_conditions_hold(rest, e)),
{
    if seg.len() == 2 {
        assert((seg + rest).skip(2) =~= rest);
        assert(seg.skip(2) =~= Seq::<SqlPartView>::empty());
        assert(event_conditions_hold(seg.skip(2), e));
        assert((seg + rest)[0] == seg[0] && (seg + rest)[1] == seg[1]);
    } else {
        assert(seg + rest =~= rest);
    }
}

/// Each filter of an event listing, read as SQL, demands what it says.
proof fn lemma_event_segments(
    user: Option<Seq<char>>,
    fact_id: Option<u128>,
    operation: Option<crate::types::MemoryEventOperation>,
    created_after: Option<i128>,
    created_before: Option<i128>,
    e: MemoryEvent,
)
    ensures
        event_conditions_hold(
            match user {
                Some(u) => seq![text(" AND user_id = "@), bind_text(u)],
                None => Seq::empty(),
            },
            e,
        ) == (user matches Some(u) ==> e.user_id@ == u),
        event_conditions_hold(
            match fact_id {
                Some(f) => seq![text(" AND fact_id = "@), bind_text(uuid_text(f))],
                None => Seq::empty(),
            },
            e,
        ) == (fact_id matches Some(f) ==> (e.fact_id matches Some(g) && uuid_text(g) == uuid_text(f))),
        event_conditions_hold(
            match operation {
                Some(o) => seq![text(" AND operation = "@), bind_text(o.label())],
                None => Seq::empty(),
            },
            e,
        ) == (operation matches Some(o) ==> e.operation == o),
        event_conditions_hold(
            match created_after {
                Some(t) => seq![text(" AND created_at >= "@), bind_time(t)],
                None => Seq::empty(),
            },
            e,
        ) == (created_after matches Some(t) ==> e.created_at >= t),
        event_conditions_hold(
            match created_before {
                Some(t) => seq![text(" AND created_at < "@), bind_time(t)],
                None => Seq::empty(),
            },
            e,
        ) == (created_before matches Some(t) ==> e.created_at < t),
{
    reveal_strlit(" AND user_id = ");
    reveal_strlit(" AND fact_id = ");
    reveal_strlit(" AND operation = ");
    reveal_strlit(" AND created_at >= ");
    reveal_strlit(" AND created_at < ");
    let e0 = Seq::<SqlPartView>::empty();
    assert(event_conditions_hold(e0, e));
    if let Some(u) = user {
        assert(seq![text(" AND user_id = "@), bind_text(u)].skip(2) =~= e0);
    }
    if let Some(f) = fact_id {
        assert(seq![text(" AND fact_id = "@), bind_text(uuid_text(f))].skip(2) =~= e0);
        assert(" AND fact_id = "@[5] != " AND user_id = "@[5]);
    }
    if let Some(o) = operation {
        let s = seq![text(" AND operation = "@), bind_text(o.label())];
        assert(s.skip(2) =~= e0);
        assert(" AND operation = "@.len() != " AND user_id = "@.len());
        assert(" AND operation = "@.len() != " AND fact_id = "@.len());
        law_labels_round_trip();
        assert(memory_event_operation_parse(o.label()) == Some(o));
        assert(memory_event_operation_parse(e.operation.label()) == Some(e.operation));
        assert(event_conditions_hold(s, e) == (o.label() == e.operation.label()));
    }
    if let Some(t) = created_after {
        assert(seq![text(" AND created_at >= "@), bind_time(t)].skip(2) =~= e0);
        assert(" AND created_at >= "@.len() != " AND user_id = "@.len());
        assert(" AND created_at >= "@.len() != " AND fact_id = "@.len());
        assert(" AND created_at >= "@.len() != " AND operation = "@.len());
    }
    if let Some(t) = created_before {
        assert(seq![text(" AND created_at < "@), bind_time(t)].skip(2) =~= e0);
        assert(" AND created_at < "@.len() != " AND user_id = "@.len());
        assert(" AND created_at < "@.len() != " AND fact_id = "@.len());
        assert(" AND created_at < "@.len() != " AND operation = "@.len());
        assert(" AND created_at < "@.len() != " AND created_at >= "@.len());
    }
}

/// An organization's event listing on SQLite selects the organization's
/// events and then keeps exactly those of the asked user, the asked fact and
/// operation, created at or after `created_after` and before
/// `created_before`, with no condition for a filter that is not given; the
/// order and the limit follow those conditions.
pub proof fn law_org_event_sql_filters(q: OrgMemoryEventQuery, limit: i64)
    ensures
        org_event_list_parts(q, limit)[0] == text(event_select_head()),
        org_event_list_parts(q, limit)[1] == bind_text(q.org_id@),
        forall|e: MemoryEvent| #[trigger] event_conditions_hold(org_event_list_parts(q, limit).skip(2), e) == {
            &&& (q.user_id matches Some(u) ==> e.user_id@ == u@)
            &&& (q.fact_id matches Some(f) ==> (e.fact_id matches Some(g) && uuid_text(g) == uuid_text(f)))
            &&& (q.operation matches Some(o) ==> e.operation == o)
            &&& (q.created_after matches Some(t) ==> e.created_at >= t)
            &&& (q.created_before matches Some(t) ==> e.created_at < t)
        },
{
    let user: Option<Seq<char>> = match q.user_id {
        Some(u) => Some(u@),
        None => None,
    };
    let head = seq![text(event_select_head()), bind_text(q.org_id@)];
    assert(org_event_list_parts(q, limit) =~= head
        + (match user {
        Some(u) => seq![text(" AND user_id = "@), bind_text(u)],
        None => Seq::empty(),
    }) + event_filter_parts(q.fact_id, q.operation, q.created_after, q.created_before)
        + seq![text(" ORDER BY created_at DESC LIMIT "@), bind_int(limit)]);
    event_listing_filters(org_event_list_parts(q, limit), head, user, q.fact_id, q.operation, q.created_after, q.created_before, limit);
}

/// A tenant's event listing on SQLite selects the organization's events and
/// then keeps exactly those of the tenant's user, the asked fact and
/// operation, created at or after `created_after` and before
/// `created_before`, with no condition for a filter that is not given; the
/// order and the limit follow those conditions.
pub proof fn law_tenant_event_sql_filters(q: MemoryEventQuery, limit: i64)
    ensures
        event_list_parts(q, limit)[0] == text(event_select_head()),
        event_list_parts(q, limit)[1] == bind_text(q.tenant.org_id@),
        forall|e: MemoryEvent| #[trigger] event_conditions_hold(event_list_parts(q, limit).skip(2), e) == {
            &&& e.user_id@ == q.tenant.user_id@
            &&& (q.fact_id matches Some(f) ==> (e.fact_id matches Some(g) && uuid_text(g) == uuid_text(f)))
            &&& (q.operation matches Some(o) ==> e.operation == o)
            &&& (q.created_after matches Some(t) ==> e.created_at >= t)
            &&& (q.created_before matches Some(t) ==> e.created_at < t)
        },
{
    let user: Option<Seq<char>> = Some(q.tenant.user_id@);
    let head = seq![text(event_select_head()), bind_text(q.tenant.org_id@)];
    assert(event_list_parts(q, limit) =~= head
        + seq![text(" AND user_id = "@), bind_text(q.tenant.user_id@)]
        + event_filter_parts(q.fact_id, q.operation, q.created_after, q.created_before)
        + seq![text(" ORDER BY created_at DESC LIMIT "@), bind_int(limit)]);
    event_listing_filters(event_list_parts(q, limit), head, user, q.fact_id, q.operation, q.created_after, q.created_before, limit);
}

/// The user and event filters after a two-piece head, then the order: read
/// as SQL they demand exactly what each given filter says.
proof fn event_listing_filters(
    parts: Seq<SqlPartView>,
    head: Seq<SqlPartView>,
    user: Option<Seq<char>>,
    fact_id: Option<u128>,
    operation: Option<crate::types::MemoryEventOperation>,
    created_after: Option<i128>,
    created_before: Option<i128>,
    limit: i64,
)
    requires
        head.len() == 2,
        parts == head + (match user {
            Some(u) => seq![text(" AND user_id = "@), bind_text(u)],
            None => Seq::empty(),
        }) + event_filter_parts(fact_id, operation, created_after, created_before)
            + seq![text(" ORDER BY created_at DESC LIMIT "@), bind_int(limit)],
    ensures
        parts[0] == head[0],
        parts[1] == head[1],
        forall|e: MemoryEvent| #[trigger] event_conditions_hold(parts.skip(2), e) == {
            &&& (user matches Some(u) ==> e.user_id@ == u)
            &&& (fact_id matches Some(f) ==> (e.fact_id matches Some(g) && uuid_text(g) == uuid_text(f)))
            &&& (operation matches Some(o) ==> e.operation == o)
            &&& (created_after matches Some(t) ==> e.created_at >= t)
            &&& (created_before matches Some(t) ==> e.created_at < t)
        },
{
    let us: Seq<SqlPartView> = match user {
        Some(u) => seq![text(" AND user_id = "@), bind_text(u)],
        None => Seq::empty(),
    };
    let fa: Seq<SqlPartView> = match fact_id {
        Some(f) => seq![text(" AND fact_id = "@), bind_text(uuid_text(f))],
        None => Seq::empty(),
    };
    let op: Seq<SqlPartView> = match operation {
        Some(o) => seq![text(" AND operation = "@), bind_text(o.label())],
        None => Seq::empty(),
    };
    let ca: Seq<SqlPartView> = match created_after {
        Some(t) => seq![text(" AND created_at >= "@), bind_time(t)],
        None => Seq::empty(),
    };
    let cb: Seq<SqlPartView> = match created_before {
        Some(t) => seq![text(" AND created_at < "@), bind_time(t)],
        None => Seq::empty(),
    };
    let order = seq![text(" ORDER BY created_at DESC LIMIT "@), bind_int(limit)];
    assert(event_filter_parts(fact_id, operation, created_after, created_before) == fa + op + ca + cb);
    assert(parts == head + us + (fa + op + ca + cb) + order);
    lemma_skip_regroup5(head, us, fa, op, ca, cb, order);
    assert(parts[0] == head[0] && parts[1] == head[1]);
    reveal_strlit(" ORDER BY created_at DESC LIMIT ");
    reveal_strlit(" AND user_id = ");
    reveal_strlit(" AND fact_id = ");
    reveal_strlit(" AND operation = ");
    reveal_strlit(" AND created_at >= ");
    reveal_strlit(" AND created_at < ");
    assert(" ORDER BY created_at DESC LIMIT "@.len() != " AND user_id = "@.len());
    assert(" ORDER BY created_at DESC LIMIT "@.len() != " AND fact_id = "@.len());
    assert(" ORDER BY created_at DESC LIMIT "@.len() != " AND operation = "@.len());
    assert(" ORDER BY created_at DESC LIMIT "@.len() != " AND created_at >= "@.len());
    assert(" ORDER BY created_at DESC LIMIT "@.len() != " AND created_at < "@.len());
    assert(!is_event_condition(order[0]));
    assert forall|e: MemoryEvent| #[trigger] event_conditions_hold(parts.skip(2), e) == {
        &&& (user matches Some(u) ==> e.user_id@ == u)
        &&& (fact_id matches Some(f) ==> (e.fact_id matches Some(g) && uuid_text(g) == uuid_text(f)))
        &&& (operation matches Some(o) ==> e.operation == o)
        &&& (created_after matches Some(t) ==> e.created_at >= t)
        &&& (created_before matches Some(t) ==> e.created_at < t)
    } by {
        lemma_event_conditions_front(us, fa + (op + (ca + (cb + order))), e);
        lemma_event_conditions_front(fa, op + (ca + (cb + order)), e);
        lemma_event_conditions_front(op, ca + (cb + order), e);
        lemma_event_conditions_front(ca, cb + order, e);
        lemma_event_conditions_front(cb, order, e);
        assert(event_conditions_hold(order, e));
        lemma_event_segments(user, fact_id, operation, created_after, created_before, e);
    }
}

} // verus!
