//! The PostgreSQL statements the stores run, as text and bound values. Ids
//! are bound as UUIDs and timestamps as timestamps.

use vstd::prelude::*;
use crate::conversions::{law_labels_round_trip, memory_event_operation_parse, memory_event_operation_to_str};
use crate::errors::MemcoreError;
use crate::events::{MemoryEventQuery, OrgMemoryEventQuery};
use crate::ids::uuid_text;
use crate::facts::{FactSearchQuery, OrgUserListQuery};
use crate::jobs::BackgroundJobRunQuery;
use crate::pagination::{fetch_limit_spec, page_fetch_limit};
use crate::queries::{
    bind_int, fact_fetch_parts, fact_fetch_query, fact_search_head, fact_search_parts, limit_as_i64, memory_types_parts,
    type_list_parts, usage_list_parts, job_runs_parts, event_list_parts, org_event_list_parts, event_select_head,
    event_conditions_hold, lemma_event_conditions_front,
    push_memory_types, push_usage_filters, snapshot_head, snapshot_list_parts, usage_filters_onto, usage_select_head,
};
use crate::sql::{
    SqlPartView, SqlQuery, SqlValue, SqlValueView, bind_text, bind_time, desc_cursor_parts, job_run_filter_parts,
    postgres_fact_keyword_parts, push_job_run_filters, sqlite_like_text,
    push_postgres_desc_cursor_uuid, push_postgres_fact_keyword_filter, text,
};
use crate::types::{MemoryEvent, MemoryType, TenantContext};
use crate::usage::{MemoryUsageSnapshot, MemoryUsageSnapshotQuery, ProviderUsageQuery};

verus! {

/// The statement of a PostgreSQL fetch of one fact, its id bound as a UUID.
pub fn postgres_fact_fetch_query(tenant: &TenantContext, fact_id: u128, include_deleted: bool) -> (r: SqlQuery)
    ensures
        r@ == fact_fetch_parts(SqlValueView::Uuid(fact_id), tenant.org_id@, tenant.user_id@, include_deleted),
{
    fact_fetch_query(SqlValue::Uuid(fact_id), tenant, include_deleted)
}

/// The pieces of a PostgreSQL fact search of `limit` rows: the tenant, live
/// facts unless deleted ones are asked for, the memory types, a keyword on
/// content or summary, the cursor, newest first.
pub open spec fn pg_fact_search_parts(q: FactSearchQuery, limit: i64) -> Seq<SqlPartView> {
    seq![text(fact_search_head()), bind_text(q.tenant.org_id@), text(" AND user_id = "@), bind_text(q.tenant.user_id@)]
        + (if q.include_deleted {
        Seq::empty()
    } else {
        seq![text(" AND deleted_at IS NULL"@)]
    }) + memory_types_parts(q.memory_types) + (match q.query_text {
        Some(t) => postgres_fact_keyword_parts(t@),
        None => Seq::empty(),
    }) + (match q.cursor {
        Some(c) => desc_cursor_parts("updated_at"@, "id"@, c.last_sort_value, SqlValueView::Uuid(c.last_id)),
        None => Seq::empty(),
    }) + seq![text(" ORDER BY updated_at DESC, id DESC LIMIT "@), bind_int(limit)]
}

/// The statement of a PostgreSQL fact search: one row more than the limit.
pub fn postgres_fact_search_query(query: &FactSearchQuery) -> (r: Result<SqlQuery, MemcoreError>)
    ensures
        fetch_limit_spec(query.limit) <= i64::MAX ==> (r matches Ok(q)
            && q@ == pg_fact_search_parts(*query, fetch_limit_spec(query.limit) as i64)),
        fetch_limit_spec(query.limit) > i64::MAX ==> r matches Err(MemcoreError::StorageError(_)),
{
    let mut q = SqlQuery::new(
        "SELECT id, org_id, user_id, memory_type, content, summary, source, confidence, importance, valid_at, invalid_at, recorded_at, updated_at, metadata FROM facts WHERE org_id = ",
    );
    q.push_bind(SqlValue::Text(query.tenant.org_id.clone()));
    q.push(" AND user_id = ");
    q.push_bind(SqlValue::Text(query.tenant.user_id.clone()));
    let ghost a = q@;
    if !query.include_deleted {
        q.push(" AND deleted_at IS NULL");
    }
    push_memory_types(&mut q, &query.memory_types);
    let ghost c = q@;
    if let Some(t) = &query.query_text {
        push_postgres_fact_keyword_filter(&mut q, t.as_str());
    }
    let ghost d = q@;
    if let Some(cur) = &query.cursor {
        push_postgres_desc_cursor_uuid(&mut q, "updated_at", "id", cur);
    }
    q.push(" ORDER BY updated_at DESC, id DESC LIMIT ");
    let n = limit_as_i64(page_fetch_limit(query.limit), "fact search limit out of range for postgres")?;
    q.push_bind(SqlValue::Int(n));
    assert(q@ =~= pg_fact_search_parts(*query, n));
    Ok(q)
}

/// The pieces of a PostgreSQL tenant event listing of `limit` rows, newest
/// first, by fact and operation.
pub open spec fn pg_event_list_parts(q: MemoryEventQuery, limit: i64) -> Seq<SqlPartView> {
    seq![
        text("SELECT id, org_id, user_id, fact_id, operation, input_text, previous_content, new_content, provider_name, model_name, metadata, created_at FROM memory_events WHERE org_id = "@),
        bind_text(q.tenant.org_id@),
        text(" AND user_id = "@),
        bind_text(q.tenant.user_id@),
    ] + (match q.fact_id {
        Some(f) => seq![text(" AND fact_id = "@), SqlPartView::Bind(SqlValueView::Uuid(f))],
        None => Seq::empty(),
    }) + (match q.operation {
        Some(o) => seq![text(" AND operation = "@), bind_text(o.label())],
        None => Seq::empty(),
    }) + seq![text(" ORDER BY created_at DESC LIMIT "@), bind_int(limit)]
}

pub fn postgres_event_list_query(query: &MemoryEventQuery, limit: usize) -> (r: Result<SqlQuery, MemcoreError>)
    ensures
        limit <= i64::MAX ==> (r matches Ok(q) && q@ == pg_event_list_parts(*query, limit as i64)),
        limit > i64::MAX ==> r matches Err(MemcoreError::StorageError(_)),
{
    let mut q = SqlQuery::new(
        "SELECT id, org_id, user_id, fact_id, operation, input_text, previous_content, new_content, provider_name, model_name, metadata, created_at FROM memory_events WHERE org_id = ",
    );
    q.push_bind(SqlValue::Text(query.tenant.org_id.clone()));
    q.push(" AND user_id = ");
    q.push_bind(SqlValue::Text(query.tenant.user_id.clone()));
    let ghost a = q@;
    if let Some(f) = query.fact_id {
        q.push(" AND fact_id = ");
        q.push_bind(SqlValue::Uuid(f));
    }
    let ghost b = q@;
    if let Some(o) = query.operation {
        q.push(" AND operation = ");
        q.push_bind(SqlValue::Text(String::from_str(memory_event_operation_to_str(o))));
    }
    q.push(" ORDER BY created_at DESC LIMIT ");
    let n = limit_as_i64(limit, "event list limit out of range for postgres")?;
    q.push_bind(SqlValue::Int(n));
    assert(q@ =~= pg_event_list_parts(*query, limit as i64));
    Ok(q)
}

/// The pieces of a PostgreSQL job run listing: one row more than `limit`,
/// newest first.
pub open spec fn pg_job_runs_parts(q: BackgroundJobRunQuery, limit: usize) -> Seq<SqlPartView> {
    seq![text("SELECT id, kind, status, started_at, finished_at, duration_ms, attempt_count, max_attempts, retried, error_code, error_message, metadata FROM background_job_runs"@)]
        + job_run_filter_parts(q) + (match q.cursor {
        Some(c) => desc_cursor_parts("started_at"@, "id"@, c.last_sort_value, SqlValueView::Uuid(c.last_id)),
        None => Seq::empty(),
    }) + seq![text(" ORDER BY started_at DESC, id DESC LIMIT "@), bind_int(fetch_limit_spec(limit) as i64)]
}

pub fn postgres_job_runs_query(query: &BackgroundJobRunQuery, limit: usize) -> (r: SqlQuery)
    ensures
        r@ == pg_job_runs_parts(*query, limit),
{
    let mut q = SqlQuery::new(
        "SELECT id, kind, status, started_at, finished_at, duration_ms, attempt_count, max_attempts, retried, error_code, error_message, metadata FROM background_job_runs",
    );
    push_job_run_filters(&mut q, query);
    let ghost a = q@;
    if let Some(c) = &query.cursor {
        push_postgres_desc_cursor_uuid(&mut q, "started_at", "id", c);
    }
    q.push(" ORDER BY started_at DESC, id DESC LIMIT ");
    q.push_bind(SqlValue::Int(page_fetch_limit(limit) as i64));
    assert(q@ =~= pg_job_runs_parts(*query, limit));
    q
}

/// The pieces of a PostgreSQL usage listing: one row more than `limit`,
/// newest first.
pub open spec fn pg_usage_list_parts(q: ProviderUsageQuery, limit: usize) -> Seq<SqlPartView> {
    usage_filters_onto(seq![text(usage_select_head())], q) + (match q.cursor {
        Some(c) => desc_cursor_parts("created_at"@, "id"@, c.last_sort_value, SqlValueView::Uuid(c.last_id)),
        None => Seq::empty(),
    }) + seq![text(" ORDER BY created_at DESC, id DESC LIMIT "@), bind_int(fetch_limit_spec(limit) as i64)]
}

pub fn postgres_usage_query(query: &ProviderUsageQuery, limit: usize) -> (r: SqlQuery)
    ensures
        r@ == pg_usage_list_parts(*query, limit),
{
    let mut q = SqlQuery::new(
        "SELECT id, org_id, user_id, provider_name, model_name, capability, operation_name, status, input_tokens, output_tokens, total_tokens, retry_count, fallback_used, circuit_blocked, timed_out, estimated_cost_usd, metadata, created_at FROM provider_usage_events",
    );
    push_usage_filters(&mut q, query);
    let ghost a = q@;
    if let Some(c) = &query.cursor {
        push_postgres_desc_cursor_uuid(&mut q, "created_at", "id", c);
    }
    q.push(" ORDER BY created_at DESC, id DESC LIMIT ");
    q.push_bind(SqlValue::Int(page_fetch_limit(limit) as i64));
    assert(q@ =~= pg_usage_list_parts(*query, limit));
    q
}

/// PostgreSQL keeps the flags as booleans.
pub open spec fn pg_usage_summary_head() -> Seq<char> {
    "SELECT COUNT(*) AS total_requests, COALESCE(SUM(CASE WHEN status = 'success' THEN 1 ELSE 0 END), 0) AS total_successes, COALESCE(SUM(CASE WHEN status = 'error' THEN 1 ELSE 0 END), 0) AS total_errors, COALESCE(SUM(retry_count), 0) AS total_retries, COALESCE(SUM(CASE WHEN fallback_used THEN 1 ELSE 0 END), 0) AS total_fallbacks, COALESCE(SUM(CASE WHEN circuit_blocked THEN 1 ELSE 0 END), 0) AS total_circuit_blocks, COALESCE(SUM(CASE WHEN timed_out THEN 1 ELSE 0 END), 0) AS total_timeouts, COALESCE(SUM(input_tokens), 0) AS total_input_tokens, COALESCE(SUM(output_tokens), 0) AS total_output_tokens, COALESCE(SUM(total_tokens), 0) AS total_tokens, SUM(estimated_cost_usd) AS total_estimated_cost_usd FROM provider_usage_events"@
}

pub fn postgres_usage_summary_query(query: &ProviderUsageQuery) -> (r: SqlQuery)
    ensures
        r@ == usage_filters_onto(seq![text(pg_usage_summary_head())], *query),
{
    let mut q = SqlQuery::new(
        "SELECT COUNT(*) AS total_requests, COALESCE(SUM(CASE WHEN status = 'success' THEN 1 ELSE 0 END), 0) AS total_successes, COALESCE(SUM(CASE WHEN status = 'error' THEN 1 ELSE 0 END), 0) AS total_errors, COALESCE(SUM(retry_count), 0) AS total_retries, COALESCE(SUM(CASE WHEN fallback_used THEN 1 ELSE 0 END), 0) AS total_fallbacks, COALESCE(SUM(CASE WHEN circuit_blocked THEN 1 ELSE 0 END), 0) AS total_circuit_blocks, COALESCE(SUM(CASE WHEN timed_out THEN 1 ELSE 0 END), 0) AS total_timeouts, COALESCE(SUM(input_tokens), 0) AS total_input_tokens, COALESCE(SUM(output_tokens), 0) AS total_output_tokens, COALESCE(SUM(total_tokens), 0) AS total_tokens, SUM(estimated_cost_usd) AS total_estimated_cost_usd FROM provider_usage_events",
    );
    push_usage_filters(&mut q, query);
    q
}

/// The pieces of a PostgreSQL snapshot listing: one row more than the limit,
/// newest first.
pub open spec fn pg_snapshot_list_parts(q: MemoryUsageSnapshotQuery) -> Seq<SqlPartView> {
    seq![
        text("SELECT id, org_id, total_users, total_memories, active_memories, deleted_memories, captured_at, metadata FROM memory_usage_snapshots WHERE org_id = "@),
        bind_text(q.org_id@),
    ] + (match q.created_after {
        Some(t) => seq![text(" AND captured_at >= "@), bind_time(t)],
        None => Seq::empty(),
    }) + (match q.created_before {
        Some(t) => seq![text(" AND captured_at < "@), bind_time(t)],
        None => Seq::empty(),
    }) + (match q.cursor {
        Some(c) => desc_cursor_parts("captured_at"@, "id"@, c.last_sort_value, SqlValueView::Uuid(c.last_id)),
        None => Seq::empty(),
    }) + seq![text(" ORDER BY captured_at DESC, id DESC LIMIT "@), bind_int(fetch_limit_spec(q.limit) as i64)]
}

pub fn postgres_snapshot_query(query: &MemoryUsageSnapshotQuery) -> (r: SqlQuery)
    ensures
        r@ == pg_snapshot_list_parts(*query),
{
    let mut q = SqlQuery::new(
        "SELECT id, org_id, total_users, total_memories, active_memories, deleted_memories, captured_at, metadata FROM memory_usage_snapshots WHERE org_id = ",
    );
    q.push_bind(SqlValue::Text(query.org_id.clone()));
    let ghost a = q@;
    if let Some(t) = query.created_after {
        q.push(" AND captured_at >= ");
        q.push_bind(SqlValue::Timestamp(t));
    }
    let ghost b = q@;
    if let Some(t) = query.created_before {
        q.push(" AND captured_at < ");
        q.push_bind(SqlValue::Timestamp(t));
    }
    let ghost c = q@;
    if let Some(cur) = &query.cursor {
        push_postgres_desc_cursor_uuid(&mut q, "captured_at", "id", cur);
    }
    q.push(" ORDER BY captured_at DESC, id DESC LIMIT ");
    q.push_bind(SqlValue::Int(page_fetch_limit(query.limit) as i64));
    assert(q@ =~= pg_snapshot_list_parts(*query));
    q
}

/// The pieces of a PostgreSQL listing of an organization's users with live
/// facts, most recently active first, after the cursor when there is one.
pub open spec fn pg_org_users_parts(q: OrgUserListQuery, limit: i64) -> Seq<SqlPartView> {
    seq![
        text("SELECT user_id, COUNT(*)::bigint AS memory_count, MAX(updated_at) AS last_memory_at FROM facts WHERE org_id = "@),
        bind_text(q.org_id@),
        text(" AND deleted_at IS NULL GROUP BY user_id"@),
    ] + (match q.cursor {
        Some(c) => seq![
            text(" HAVING (MAX(updated_at) < "@),
            bind_time(c.last_sort_value),
            text(" OR (MAX(updated_at) = "@),
            bind_time(c.last_sort_value),
            text(" AND user_id < "@),
            bind_text(c.last_id@),
            text("))"@),
        ],
        None => Seq::empty(),
    }) + seq![text(" ORDER BY MAX(updated_at) DESC, user_id DESC LIMIT "@), bind_int(limit)]
}

/// The statement of a PostgreSQL user listing: one row more than the limit.
pub fn postgres_org_users_query(query: &OrgUserListQuery) -> (r: Result<SqlQuery, MemcoreError>)
    ensures
        fetch_limit_spec(query.limit) <= i64::MAX ==> (r matches Ok(q)
            && q@ == pg_org_users_parts(*query, fetch_limit_spec(query.limit) as i64)),
        fetch_limit_spec(query.limit) > i64::MAX ==> r matches Err(MemcoreError::StorageError(_)),
{
    let n = limit_as_i64(page_fetch_limit(query.limit), "org users list limit out of range for postgres")?;
    let mut q = SqlQuery::new(
        "SELECT user_id, COUNT(*)::bigint AS memory_count, MAX(updated_at) AS last_memory_at FROM facts WHERE org_id = ",
    );
    q.push_bind(SqlValue::Text(query.org_id.clone()));
    q.push(" AND deleted_at IS NULL GROUP BY user_id");
    let ghost a = q@;
    if let Some(c) = &query.cursor {
        q.push(" HAVING (MAX(updated_at) < ");
        q.push_bind(SqlValue::Timestamp(c.last_sort_value));
        q.push(" OR (MAX(updated_at) = ");
        q.push_bind(SqlValue::Timestamp(c.last_sort_value));
        q.push(" AND user_id < ");
        q.push_bind(SqlValue::Text(c.last_id.clone()));
        q.push("))");
    }
    q.push(" ORDER BY MAX(updated_at) DESC, user_id DESC LIMIT ");
    q.push_bind(SqlValue::Int(n));
    assert(q@ =~= pg_org_users_parts(*query, n));
    Ok(q)
}


/// What the conditions at the front of `parts` demand of a snapshot, read as
/// SQL: each condition is a piece of text naming the column and the
/// comparison, followed by the value bound to it; reading stops at the first
/// piece that is no such condition.
pub open spec fn snapshot_conditions_hold(parts: Seq<SqlPartView>, s: MemoryUsageSnapshot) -> bool
    decreases parts.len(),
{
    if parts.len() < 2 {
        true
    } else if parts[0] == text(" AND captured_at >= "@) {
        (parts[1] matches SqlPartView::Bind(SqlValueView::Timestamp(t)) && s.captured_at >= t)
            && snapshot_conditions_hold(parts.skip(2), s)
    } else if parts[0] == text(" AND captured_at < "@) {
        (parts[1] matches SqlPartView::Bind(SqlValueView::Timestamp(t)) && s.captured_at < t)
            && snapshot_conditions_hold(parts.skip(2), s)
    } else {
        true
    }
}

/// One condition, then more: the snapshot must meet both.
proof fn lemma_snapshot_conditions_front(seg: Seq<SqlPartView>, rest: Seq<SqlPartView>, s: MemoryUsageSnapshot)
    requires
        seg.len() == 0 || (seg.len() == 2 && (seg[0] == text(" AND captured_at >= "@) || seg[0] == text(" AND captured_at < "@))),
    ensures
        snapshot_conditions_hold(seg + rest, s) == (snapshot_conditions_hold(seg, s) && snapshot_conditions_hold(rest, s)),
{
    if seg.len() == 2 {
        assert((seg + rest).skip(2) =~= rest);
        assert(seg.skip(2) =~= Seq::<SqlPartView>::empty());
        assert(snapshot_conditions_hold(seg.skip(2), s));
        assert((seg + rest)[0] == seg[0] && (seg + rest)[1] == seg[1]);
    } else {
        assert(seg + rest =~= rest);
    }
}

/// A snapshot listing, on either backend, selects the organization's
/// snapshots and then keeps exactly those captured at or after
/// `created_after` and before `created_before`, with no condition for a
/// bound that is not given; the cursor and the order follow those conditions.
pub proof fn law_snapshot_sql_filters(q: MemoryUsageSnapshotQuery, parts: Seq<SqlPartView>)
    requires
        parts == snapshot_list_parts(q) || parts == pg_snapshot_list_parts(q),
    ensures
        parts[0] == text(snapshot_head()),
        parts[1] == bind_text(q.org_id@),
        forall|s: MemoryUsageSnapshot| #[trigger] snapshot_conditions_hold(parts.skip(2), s) == {
            &&& (q.created_after matches Some(t) ==> s.captured_at >= t)
            &&& (q.created_before matches Some(t) ==> s.captured_at < t)
        },
{
    let a: Seq<SqlPartView> = match q.created_after {
        Some(t) => seq![text(" AND captured_at >= "@), bind_time(t)],
        None => Seq::empty(),
    };
    let b: Seq<SqlPartView> = match q.created_before {
        Some(t) => seq![text(" AND captured_at < "@), bind_time(t)],
        None => Seq::empty(),
    };
    let order = seq![text(" ORDER BY captured_at DESC, id DESC LIMIT "@), bind_int(#[verifier::truncate] (fetch_limit_spec(q.limit) as i64))];
    let tail: Seq<SqlPartView> = if parts == snapshot_list_parts(q) {
        (match q.cursor {
            Some(c) => desc_cursor_parts("captured_at"@, "id"@, c.last_sort_value, SqlValueView::Text(uuid_text(c.last_id))),
            None => Seq::empty(),
        }) + order
    } else {
        (match q.cursor {
            Some(c) => desc_cursor_parts("captured_at"@, "id"@, c.last_sort_value, SqlValueView::Uuid(c.last_id)),
            None => Seq::empty(),
        }) + order
    };
    assert(parts =~= seq![text(snapshot_head()), bind_text(q.org_id@)] + a + b + tail);
    assert(parts.skip(2) =~= a + (b + tail));
    reveal_strlit(" AND captured_at >= ");
    reveal_strlit(" AND captured_at < ");
    reveal_strlit(" AND (");
    reveal_strlit(" ORDER BY captured_at DESC, id DESC LIMIT ");
    assert(" AND captured_at >= "@.len() != " AND captured_at < "@.len());
    assert(tail[0] == text(" AND ("@) || tail[0] == text(" ORDER BY captured_at DESC, id DESC LIMIT "@));
    assert(tail.len() >= 2);
    assert(" AND ("@.len() != " AND captured_at >= "@.len() && " AND ("@.len() != " AND captured_at < "@.len());
    assert(" ORDER BY captured_at DESC, id DESC LIMIT "@.len() != " AND captured_at >= "@.len());
    assert(" ORDER BY captured_at DESC, id DESC LIMIT "@.len() != " AND captured_at < "@.len());
    assert forall|s: MemoryUsageSnapshot| #[trigger] snapshot_conditions_hold(parts.skip(2), s) == {
        &&& (q.created_after matches Some(t) ==> s.captured_at >= t)
        &&& (q.created_before matches Some(t) ==> s.captured_at < t)
    } by {
        lemma_snapshot_conditions_front(a, b + tail, s);
        lemma_snapshot_conditions_front(b, tail, s);
        assert(snapshot_conditions_hold(tail, s));
        let e = Seq::<SqlPartView>::empty();
        assert(snapshot_conditions_hold(e, s));
        if let Some(t) = q.created_after {
            assert(a.skip(2) =~= e);
            assert(snapshot_conditions_hold(a, s) == (s.captured_at >= t));
        } else {
            assert(snapshot_conditions_hold(a, s));
        }
        if let Some(t) = q.created_before {
            assert(b.skip(2) =~= e);
            assert(snapshot_conditions_hold(b, s) == (s.captured_at < t));
        } else {
            assert(snapshot_conditions_hold(b, s));
        }
    }
}

/// Every label of the first `n` types is bound in their `IN` list.
proof fn lemma_type_list_binds(types: Seq<MemoryType>, n: int)
    requires
        0 <= n <= types.len(),
    ensures
        forall|i: int| 0 <= i < n ==> #[trigger] type_list_parts(types, n).contains(bind_text(types[i].label())),
    decreases n,
{
    if n == 1 {
        assert(type_list_parts(types, 1)[0] == bind_text(types[0].label()));
    } else if n > 1 {
        lemma_type_list_binds(types, n - 1);
        let prev = type_list_parts(types, n - 1);
        let cur = type_list_parts(types, n);
        assert(cur == prev + seq![text(", "@), bind_text(types[n - 1].label())]);
        assert forall|i: int| 0 <= i < n implies #[trigger] type_list_parts(types, n).contains(bind_text(types[i].label())) by {
            if i < n - 1 {
                assert(prev.contains(bind_text(types[i].label())));
                let j = choose|j: int| 0 <= j < prev.len() && prev[j] == bind_text(types[i].label());
                assert(cur[j] == prev[j]);
            } else {
                assert(cur[prev.len() + 1int] == bind_text(types[n - 1].label()));
            }
        }
    }
}

/// Where the pieces of `head + del + mt + rest` sit.
proof fn lemma_four_part_positions(parts: Seq<SqlPartView>, head: Seq<SqlPartView>, del: Seq<SqlPartView>, mt: Seq<SqlPartView>, rest: Seq<SqlPartView>)
    requires
        parts == head + del + mt + rest,
    ensures
        forall|k: int| 0 <= k < head.len() ==> parts[k] == head[k],
        forall|k: int| 0 <= k < del.len() ==> parts[head.len() + k] == del[k],
        forall|k: int| 0 <= k < mt.len() ==> parts[head.len() + del.len() + k] == mt[k],
        forall|k: int| 0 <= k < rest.len() ==> parts[head.len() + del.len() + mt.len() + k] == rest[k],
        parts.len() == head.len() + del.len() + mt.len() + rest.len(),
{
}

/// A fact search statement, on either backend, selects the tenant's facts
/// (organization, then user), keeps live facts unless deleted ones are asked
/// for, binds every asked memory type, matches the asked text (on SQLite,
/// lowered content against the lowered text anywhere), and lists most
/// recently updated first.
pub proof fn law_fact_search_sql(q: FactSearchQuery, limit: i64, parts: Seq<SqlPartView>)
    requires
        parts == fact_search_parts(q) || parts == pg_fact_search_parts(q, limit),
    ensures
        parts[0] == text(fact_search_head()),
        parts[1] == bind_text(q.tenant.org_id@),
        parts[2] == text(" AND user_id = "@),
        parts[3] == bind_text(q.tenant.user_id@),
        !q.include_deleted ==> parts[4] == text(" AND deleted_at IS NULL"@),
        q.memory_types matches Some(ts) ==> ts@.len() > 0 ==> {
            &&& parts.contains(text(" AND memory_type IN ("@))
            &&& forall|i: int| 0 <= i < ts@.len() ==> parts.contains(bind_text(#[trigger] ts@[i].label()))
        },
        parts == fact_search_parts(q) ==> parts[parts.len() - 2] == text(" ORDER BY updated_at DESC LIMIT "@),
        parts == fact_search_parts(q) ==> (q.query_text matches Some(t) ==> parts[parts.len() - 4] == text(" AND LOWER(content) LIKE "@)
            && parts[parts.len() - 3] == bind_text(sqlite_like_text(t@))),
        parts == pg_fact_search_parts(q, limit) ==> parts[parts.len() - 2] == text(" ORDER BY updated_at DESC, id DESC LIMIT "@),
{
    let head = seq![text(fact_search_head()), bind_text(q.tenant.org_id@), text(" AND user_id = "@), bind_text(q.tenant.user_id@)];
    let del: Seq<SqlPartView> = if q.include_deleted {
        Seq::empty()
    } else {
        seq![text(" AND deleted_at IS NULL"@)]
    };
    let mt = memory_types_parts(q.memory_types);
    let kw_s: Seq<SqlPartView> = match q.query_text {
        Some(t) => seq![text(" AND LOWER(content) LIKE "@), bind_text(sqlite_like_text(t@))],
        None => Seq::empty(),
    };
    let order_s = seq![text(" ORDER BY updated_at DESC LIMIT "@), bind_int(q.limit as i64)];
    let rest_p: Seq<SqlPartView> = (match q.query_text {
        Some(t) => postgres_fact_keyword_parts(t@),
        None => Seq::empty(),
    }) + (match q.cursor {
        Some(c) => desc_cursor_parts("updated_at"@, "id"@, c.last_sort_value, SqlValueView::Uuid(c.last_id)),
        None => Seq::empty(),
    }) + seq![text(" ORDER BY updated_at DESC, id DESC LIMIT "@), bind_int(limit)];
    if parts == fact_search_parts(q) {
        assert(parts =~= head + del + mt + (kw_s + order_s));
        lemma_four_part_positions(parts, head, del, mt, kw_s + order_s);
        let r = kw_s + order_s;
        assert(parts[parts.len() - 2] == r[r.len() - 2]);
        if let Some(t) = q.query_text {
            assert(parts[parts.len() - 4] == r[0]);
            assert(parts[parts.len() - 3] == r[1]);
        }
    } else {
        assert(parts =~= head + del + mt + rest_p);
        lemma_four_part_positions(parts, head, del, mt, rest_p);
        assert(parts[parts.len() - 2] == rest_p[rest_p.len() - 2]);
    }
    assert(parts[0] == head[0] && parts[1] == head[1] && parts[2] == head[2] && parts[3] == head[3]);
    if !q.include_deleted {
        assert(parts[head.len() as int] == del[0]);
    }
    if let Some(ts) = q.memory_types {
        if ts@.len() > 0 {
            let off: int = (head.len() + del.len()) as int;
            let tl = type_list_parts(ts@, ts@.len() as int);
            assert(mt == seq![text(" AND memory_type IN ("@)] + tl + seq![text(") "@)]);
            assert(parts[off + 0] == mt[0]);
            lemma_type_list_binds(ts@, ts@.len() as int);
            assert forall|i: int| 0 <= i < ts@.len() implies parts.contains(bind_text(#[trigger] ts@[i].label())) by {
                assert(tl.contains(bind_text(ts@[i].label())));
                let j = choose|j: int| 0 <= j < tl.len() && tl[j] == bind_text(ts@[i].label());
                assert(mt[1 + j] == tl[j]);
                assert(parts[off + (1 + j)] == mt[1 + j]);
            }
        }
    }
}

/// Every SQL listing ends by ordering newest first by its listing column,
/// then by id where the in-memory listing breaks ties by id, and by a limit
/// of one row more than the page (or the given row count for events).
pub proof fn law_sql_listings_newest_first(
    uq: ProviderUsageQuery,
    sq: MemoryUsageSnapshotQuery,
    jq: BackgroundJobRunQuery,
    eq: MemoryEventQuery,
    oq: OrgMemoryEventQuery,
    limit: usize,
    rows: i64,
)
    ensures
        ({
            let p = usage_list_parts(uq, limit);
            p[p.len() - 2] == text(" ORDER BY created_at DESC, id DESC LIMIT "@) && p[p.len() - 1] == bind_int(fetch_limit_spec(limit) as i64)
        }),
        ({
            let p = pg_usage_list_parts(uq, limit);
            p[p.len() - 2] == text(" ORDER BY created_at DESC, id DESC LIMIT "@) && p[p.len() - 1] == bind_int(fetch_limit_spec(limit) as i64)
        }),
        ({
            let p = snapshot_list_parts(sq);
            p[p.len() - 2] == text(" ORDER BY captured_at DESC, id DESC LIMIT "@) && p[p.len() - 1] == bind_int(fetch_limit_spec(sq.limit) as i64)
        }),
        ({
            let p = pg_snapshot_list_parts(sq);
            p[p.len() - 2] == text(" ORDER BY captured_at DESC, id DESC LIMIT "@) && p[p.len() - 1] == bind_int(fetch_limit_spec(sq.limit) as i64)
        }),
        ({
            let p = job_runs_parts(jq, limit);
            p[p.len() - 2] == text(" ORDER BY started_at DESC, id DESC LIMIT "@) && p[p.len() - 1] == bind_int(fetch_limit_spec(limit) as i64)
        }),
        ({
            let p = pg_job_runs_parts(jq, limit);
            p[p.len() - 2] == text(" ORDER BY started_at DESC, id DESC LIMIT "@) && p[p.len() - 1] == bind_int(fetch_limit_spec(limit) as i64)
        }),
        ({
            let p = event_list_parts(eq, rows);
            p[p.len() - 2] == text(" ORDER BY created_at DESC LIMIT "@) && p[p.len() - 1] == bind_int(rows)
        }),
        ({
            let p = org_event_list_parts(oq, rows);
            p[p.len() - 2] == text(" ORDER BY created_at DESC LIMIT "@) && p[p.len() - 1] == bind_int(rows)
        }),
{
    let u_ord = text(" ORDER BY created_at DESC, id DESC LIMIT "@);
    let u_lim = bind_int(fetch_limit_spec(limit) as i64);
    assert(usage_list_parts(uq, limit) =~= usage_list_parts(uq, limit).take(usage_list_parts(uq, limit).len() - 2) + seq![u_ord, u_lim]);
    assert(pg_usage_list_parts(uq, limit) =~= pg_usage_list_parts(uq, limit).take(pg_usage_list_parts(uq, limit).len() - 2) + seq![u_ord, u_lim]);
    let s_ord = text(" ORDER BY captured_at DESC, id DESC LIMIT "@);
    let s_lim = bind_int(fetch_limit_spec(sq.limit) as i64);
    assert(snapshot_list_parts(sq) =~= snapshot_list_parts(sq).take(snapshot_list_parts(sq).len() - 2) + seq![s_ord, s_lim]);
    assert(pg_snapshot_list_parts(sq) =~= pg_snapshot_list_parts(sq).take(pg_snapshot_list_parts(sq).len() - 2) + seq![s_ord, s_lim]);
    let j_ord = text(" ORDER BY started_at DESC, id DESC LIMIT "@);
    assert(job_runs_parts(jq, limit) =~= job_runs_parts(jq, limit).take(job_runs_parts(jq, limit).len() - 2) + seq![j_ord, u_lim]);
    assert(pg_job_runs_parts(jq, limit) =~= pg_job_runs_parts(jq, limit).take(pg_job_runs_parts(jq, limit).len() - 2) + seq![j_ord, u_lim]);
    let e_ord = text(" ORDER BY created_at DESC LIMIT "@);
    assert(event_list_parts(eq, rows) =~= event_list_parts(eq, rows).take(event_list_parts(eq, rows).len() - 2) + seq![e_ord, bind_int(rows)]);
    assert(org_event_list_parts(oq, rows) =~= org_event_list_parts(oq, rows).take(org_event_list_parts(oq, rows).len() - 2) + seq![e_ord, bind_int(rows)]);
}

/// A tenant's event listing on PostgreSQL selects the organization's events
/// and then keeps exactly those of the tenant's user and of the asked fact
/// and operation, with no condition for a filter that is not given (this
/// listing applies no time range); the order and the limit follow.
pub proof fn law_pg_tenant_event_sql_filters(q: MemoryEventQuery, limit: i64)
    ensures
        pg_event_list_parts(q, limit)[0] == text(event_select_head()),
        pg_event_list_parts(q, limit)[1] == bind_text(q.tenant.org_id@),
        forall|e: MemoryEvent| #[trigger] event_conditions_hold(pg_event_list_parts(q, limit).skip(2), e) == {
            &&& e.user_id@ == q.tenant.user_id@
            &&& (q.fact_id matches Some(f) ==> e.fact_id == Some(f))
            &&& (q.operation matches Some(o) ==> e.operation == o)
        },
{
    let us = seq![text(" AND user_id = "@), bind_text(q.tenant.user_id@)];
    let fa: Seq<SqlPartView> = match q.fact_id {
        Some(f) => seq![text(" AND fact_id = "@), SqlPartView::Bind(SqlValueView::Uuid(f))],
        None => Seq::empty(),
    };
    let op: Seq<SqlPartView> = match q.operation {
        Some(o) => seq![text(" AND operation = "@), bind_text(o.label())],
        None => Seq::empty(),
    };
    let order = seq![text(" ORDER BY created_at DESC LIMIT "@), bind_int(limit)];
    let parts = pg_event_list_parts(q, limit);
    assert(parts[0] == text(event_select_head()));
    assert(parts.skip(2) =~= us + (fa + (op + order)));
    reveal_strlit(" ORDER BY created_at DESC LIMIT ");
    reveal_strlit(" AND user_id = ");
    reveal_strlit(" AND fact_id = ");
    reveal_strlit(" AND operation = ");
    reveal_strlit(" AND created_at >= ");
    reveal_strlit(" AND created_at < ");
    assert(" ORDER BY created_at DESC LIMIT "@.len() != " AND user_id = "@.len());
    assert(" ORDER BY created_at DESC LIMIT "@.len() != " AND fact_id = "@.len());
    assert(" ORDER BY created_at DESC LIMIT "@.len() != " AND operation = "@.len());
    assert(" ORDER BY created_at DESC LIMIT "@.len() != " AND created_at >= "@.len());
    assert(" ORDER BY created_at DESC LIMIT "@.len() != " AND created_at < "@.len());
    assert(" AND fact_id = "@[5] != " AND user_id = "@[5]);
    assert(" AND operation = "@.len() != " AND user_id = "@.len());
    assert(" AND operation = "@.len() != " AND fact_id = "@.len());
    let e0 = Seq::<SqlPartView>::empty();
    assert forall|e: MemoryEvent| #[trigger] event_conditions_hold(parts.skip(2), e) == {
        &&& e.user_id@ == q.tenant.user_id@
        &&& (q.fact_id matches Some(f) ==> e.fact_id == Some(f))
        &&& (q.operation matches Some(o) ==> e.operation == o)
    } by {
        lemma_event_conditions_front(us, fa + (op + order), e);
        lemma_event_conditions_front(fa, op + order, e);
        lemma_event_conditions_front(op, order, e);
        assert(event_conditions_hold(order, e));
        assert(event_conditions_hold(e0, e));
        assert(us.skip(2) =~= e0);
        if let Some(f) = q.fact_id {
            assert(fa.skip(2) =~= e0);
            assert(event_conditions_hold(fa, e) == (e.fact_id == Some(f)));
        } else {
            assert(event_conditions_hold(fa, e));
        }
        if let Some(o) = q.operation {
            assert(op.skip(2) =~= e0);
            law_labels_round_trip();
            assert(memory_event_operation_parse(o.label()) == Some(o));
            assert(memory_event_operation_parse(e.operation.label()) == Some(e.operation));
            assert(event_conditions_hold(op, e) == (o.label() == e.operation.label()));
        } else {
            assert(event_conditions_hold(op, e));
        }
    }
}

} // verus!
