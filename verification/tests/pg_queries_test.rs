use memcore_storage::api_keys::require_key_revoked;
use memcore_storage::errors::MemcoreError;
use memcore_storage::events::{MemoryEventQuery, ensure_event_tenant};
use memcore_storage::facts::{
    FactSearchQuery, OrgUserListQuery, UserCursor, ensure_fact_tenant, require_fact_changed, require_new_fact,
};
use memcore_storage::jobs::{BackgroundJobKind, BackgroundJobStatus, StoredBackgroundJobRun, run_page};
use memcore_storage::pagination::PageCursor;
use memcore_storage::pg_queries::{
    postgres_event_list_query, postgres_fact_fetch_query, postgres_fact_search_query, postgres_org_users_query,
    postgres_snapshot_query, postgres_usage_summary_query,
};
use memcore_storage::queries::sqlite_fact_fetch_query;
use memcore_storage::sql::{SqlPart, SqlQuery, SqlValue};
use memcore_storage::types::{Fact, MemoryEvent, MemoryEventOperation, MemorySource, MemoryType, TenantContext};
use memcore_storage::usage::{MemoryUsageSnapshot, MemoryUsageSnapshotQuery, ProviderUsageQuery, snapshot_page};

fn render(q: &SqlQuery) -> (String, Vec<String>) {
    let mut sql = String::new();
    let mut binds = Vec::new();
    for part in &q.parts {
        match part {
            SqlPart::Sql(s) => sql.push_str(s),
            SqlPart::Bind(v) => {
                sql.push('?');
                binds.push(match v {
                    SqlValue::Text(s) => format!("text:{s}"),
                    SqlValue::Int(i) => format!("int:{i}"),
                    SqlValue::Timestamp(t) => format!("time:{t}"),
                    SqlValue::Uuid(u) => format!("uuid:{u}"),
                    SqlValue::Bool(b) => format!("bool:{b}"),
                });
            }
        }
    }
    (sql, binds)
}

fn tenant() -> TenantContext {
    TenantContext { org_id: "o".to_string(), user_id: "u".to_string() }
}

const FACT_HEAD: &str = "SELECT id, org_id, user_id, memory_type, content, summary, source, confidence, importance, valid_at, invalid_at, recorded_at, updated_at, metadata FROM facts WHERE ";

#[test]
fn fact_fetch_binds_the_id_as_each_backend_stores_it() {
    let (sql, binds) = render(&sqlite_fact_fetch_query(&tenant(), 255, false));
    assert_eq!(sql, format!("{FACT_HEAD}id = ? AND org_id = ? AND user_id = ? AND deleted_at IS NULL"));
    assert_eq!(binds, vec!["text:00000000-0000-0000-0000-0000000000ff", "text:o", "text:u"]);
    let (sql, binds) = render(&postgres_fact_fetch_query(&tenant(), 255, true));
    assert_eq!(sql, format!("{FACT_HEAD}id = ? AND org_id = ? AND user_id = ?"));
    assert_eq!(binds, vec!["uuid:255", "text:o", "text:u"]);
}

#[test]
fn postgres_fact_search_has_keyword_cursor_and_one_extra_row() {
    let mut q = FactSearchQuery::new(tenant(), 10);
    q.memory_types = Some(vec![MemoryType::Task, MemoryType::Skill]);
    q.query_text = Some("Rust".to_string());
    q.cursor = Some(PageCursor { last_sort_value: 7, last_id: 9 });
    let (sql, binds) = render(&postgres_fact_search_query(&q).unwrap());
    assert_eq!(
        sql,
        format!(
            "{FACT_HEAD}org_id = ? AND user_id = ? AND deleted_at IS NULL AND memory_type IN (?, ?)  AND (content ILIKE ? OR COALESCE(summary, '') ILIKE ?) AND (updated_at < ? OR (updated_at = ? AND id < ?)) ORDER BY updated_at DESC, id DESC LIMIT ?"
        )
    );
    assert_eq!(
        binds,
        vec!["text:o", "text:u", "text:task", "text:skill", "text:%Rust%", "text:%Rust%", "time:7", "time:7", "uuid:9", "int:11"]
    );
}

#[test]
fn postgres_event_listing_filters_by_fact_and_operation() {
    let q = MemoryEventQuery {
        tenant: tenant(),
        fact_id: Some(3),
        operation: Some(MemoryEventOperation::Delete),
        created_after: Some(1),
        created_before: None,
        cursor: None,
        limit: 20,
    };
    let (sql, binds) = render(&postgres_event_list_query(&q, 20).unwrap());
    assert!(sql.ends_with(" AND fact_id = ? AND operation = ? ORDER BY created_at DESC LIMIT ?"), "{sql}");
    assert_eq!(binds, vec!["text:o", "text:u", "uuid:3", "text:delete", "int:20"]);
}

#[test]
fn postgres_user_listing_continues_after_the_cursor() {
    let q = OrgUserListQuery { org_id: "o".to_string(), limit: 2, cursor: None };
    let (sql, binds) = render(&postgres_org_users_query(&q).unwrap());
    assert_eq!(
        sql,
        "SELECT user_id, COUNT(*)::bigint AS memory_count, MAX(updated_at) AS last_memory_at FROM facts WHERE org_id = ? AND deleted_at IS NULL GROUP BY user_id ORDER BY MAX(updated_at) DESC, user_id DESC LIMIT ?"
    );
    assert_eq!(binds, vec!["text:o", "int:3"]);
    let q = OrgUserListQuery {
        org_id: "o".to_string(),
        limit: 2,
        cursor: Some(UserCursor { last_sort_value: 5, last_id: "bob".to_string() }),
    };
    let (sql, binds) = render(&postgres_org_users_query(&q).unwrap());
    assert!(sql.contains(" HAVING (MAX(updated_at) < ? OR (MAX(updated_at) = ? AND user_id < ?))"), "{sql}");
    assert_eq!(binds, vec!["text:o", "time:5", "time:5", "text:bob", "int:3"]);
}

#[test]
fn postgres_summary_and_snapshots_use_boolean_flags_and_uuid_cursors() {
    let (sql, _) = render(&postgres_usage_summary_query(&ProviderUsageQuery::new("o", 5)));
    assert!(sql.contains("CASE WHEN fallback_used THEN 1"), "{sql}");
    assert!(sql.ends_with("FROM provider_usage_events WHERE org_id = ?"), "{sql}");
    let q = MemoryUsageSnapshotQuery {
        org_id: "o".to_string(),
        created_after: None,
        created_before: Some(100),
        limit: 4,
        cursor: Some(PageCursor { last_sort_value: 50, last_id: 1 }),
    };
    let (sql, binds) = render(&postgres_snapshot_query(&q));
    assert!(sql.ends_with(" AND captured_at < ? AND (captured_at < ? OR (captured_at = ? AND id < ?)) ORDER BY captured_at DESC, id DESC LIMIT ?"), "{sql}");
    assert_eq!(binds, vec!["text:o", "time:100", "time:50", "time:50", "uuid:1", "int:5"]);
}

fn run(id: u128, started_at: i128) -> StoredBackgroundJobRun {
    StoredBackgroundJobRun {
        id,
        kind: BackgroundJobKind::MemoryUsageSnapshot,
        status: BackgroundJobStatus::Succeeded,
        started_at,
        finished_at: None,
        duration_ms: None,
        attempt_count: 1,
        max_attempts: 1,
        retried: false,
        error_code: None,
        error_message: None,
        metadata_json: None,
    }
}

#[test]
fn pages_keep_the_limit_and_point_past_their_last_row() {
    let page = run_page(vec![run(3, 30), run(2, 20), run(1, 10)], 2);
    assert_eq!(page.runs.iter().map(|r| r.id).collect::<Vec<_>>(), vec![3, 2]);
    assert_eq!(page.next_cursor, Some(PageCursor { last_sort_value: 20, last_id: 2 }));
    let page = run_page(vec![run(3, 30), run(2, 20)], 2);
    assert_eq!(page.runs.len(), 2);
    assert_eq!(page.next_cursor, None);
    let snap = |id: u128, at: i128| MemoryUsageSnapshot {
        id,
        org_id: "o".to_string(),
        total_users: 1,
        total_memories: 1,
        active_memories: 1,
        deleted_memories: None,
        captured_at: at,
        metadata_json: None,
    };
    let page = snapshot_page(vec![snap(5, 50), snap(4, 40)], 1);
    assert_eq!(page.snapshots.len(), 1);
    assert_eq!(page.next_cursor, Some(PageCursor { last_sort_value: 50, last_id: 5 }));
    let page = snapshot_page(vec![snap(5, 50)], 0);
    assert!(page.snapshots.is_empty());
    assert_eq!(page.next_cursor, None);
}

fn fact(org: &str, user: &str) -> Fact {
    Fact {
        id: 1,
        org_id: org.to_string(),
        user_id: user.to_string(),
        memory_type: MemoryType::Profile,
        content: "c".to_string(),
        summary: None,
        source: MemorySource::Manual,
        confidence_bits: 0,
        importance_bits: 0,
        valid_at: None,
        invalid_at: None,
        recorded_at: 0,
        updated_at: 0,
        metadata_json: "{}".to_string(),
    }
}

#[test]
fn writes_check_the_tenant_and_their_outcome() {
    assert!(ensure_fact_tenant(&fact("o", "u"), &tenant()).is_ok());
    assert_eq!(ensure_fact_tenant(&fact("o", "v"), &tenant()), Err(MemcoreError::Forbidden));
    let event = MemoryEvent {
        id: 1,
        org_id: "x".to_string(),
        user_id: "u".to_string(),
        fact_id: None,
        operation: MemoryEventOperation::Add,
        input_text: None,
        previous_content: None,
        new_content: None,
        provider_name: None,
        model_name: None,
        metadata_json: "{}".to_string(),
        created_at: 0,
    };
    assert_eq!(ensure_event_tenant(&event, &tenant()), Err(MemcoreError::Forbidden));
    assert!(require_new_fact(0, 255).is_ok());
    assert_eq!(
        require_new_fact(1, 255),
        Err(MemcoreError::Conflict("fact already exists: 00000000-0000-0000-0000-0000000000ff".to_string()))
    );
    assert!(require_fact_changed(1, 255).is_ok());
    assert_eq!(
        require_fact_changed(0, 255),
        Err(MemcoreError::NotFound("fact not found: 00000000-0000-0000-0000-0000000000ff".to_string()))
    );
    assert_eq!(
        require_key_revoked(0, 255),
        Err(MemcoreError::NotFound("api key not found: 00000000-0000-0000-0000-0000000000ff".to_string()))
    );
    assert!(require_key_revoked(3, 255).is_ok());
}
