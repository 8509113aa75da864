use memcore_storage::conversions::{
    api_key_scope_from_str, api_key_scope_to_str, bool_to_i64, capability_from_str, i64_to_bool,
    job_kind_from_str, memory_source_to_str, memory_type_from_str, memory_type_to_str,
    optional_i64_to_u64, status_to_str, tier_from_storage, tier_to_storage,
};
use memcore_storage::errors::MemcoreError;
use memcore_storage::facts::{FactSearchQuery, UserCursor};
use memcore_storage::jobs::{BackgroundJobKind, BackgroundJobRunQuery, BackgroundJobStatus};
use memcore_storage::keyword::{contains_case_insensitive, event_matches_keyword, optional_contains};
use memcore_storage::lance::{
    LanceDbVectorStore, check_embedding_length, check_query_embedding_length, escape_sql_literal,
    fact_predicate, memory_types_filter, search_filter, tenant_filter,
};
use memcore_storage::pagination::PageCursor;
use memcore_storage::queries::{sqlite_fact_search_query, sqlite_job_runs_query, sqlite_usage_summary_query};
use memcore_storage::sql::{
    SqlPart, SqlQuery, SqlValue, postgres_ilike_pattern, push_postgres_desc_cursor_str_id,
    push_postgres_desc_cursor_uuid, push_postgres_event_keyword_filter, push_sqlite_desc_cursor,
    push_sqlite_fact_keyword_filter, sqlite_like_pattern,
};
use memcore_storage::types::{
    ApiKeyScope, MemoryEvent, MemoryEventOperation, MemorySource, MemoryType, OrgPlanTier,
    ProviderCallStatus, TenantContext,
};
use memcore_storage::usage::ProviderUsageQuery;

/// Renders a statement with `?` placeholders and lists the bound values.
fn render(q: &SqlQuery) -> (String, Vec<String>) {
    let mut sql = String::new();
    let mut binds = Vec::new();
    for part in &q.parts {
        match part {
            SqlPart::Sql(s) => sql.push_str(s),
            SqlPart::Bind(v) => {
                sql.push('?');
                binds.push(match v {
                    SqlValue::Text(s) => format!("text:{s}"),
                    SqlValue::Int(i) => format!("int:{i}"),
                    SqlValue::Timestamp(t) => format!("time:{t}"),
                    SqlValue::Uuid(u) => format!("uuid:{u}"),
                    SqlValue::Bool(b) => format!("bool:{b}"),
                });
            }
        }
    }
    (sql, binds)
}

#[test]
fn cursor_conditions_for_each_backend() {
    let cursor = PageCursor { last_sort_value: 42, last_id: 255 };
    let mut q = SqlQuery::new("SELECT 1 WHERE 1 = 1");
    push_sqlite_desc_cursor(&mut q, "created_at", "id", &cursor);
    let (sql, binds) = render(&q);
    assert_eq!(sql, "SELECT 1 WHERE 1 = 1 AND (created_at < ? OR (created_at = ? AND id < ?))");
    assert_eq!(binds, vec!["time:42", "time:42", "text:00000000-0000-0000-0000-0000000000ff"]);

    let mut q = SqlQuery::new("");
    push_postgres_desc_cursor_uuid(&mut q, "s", "i", &cursor);
    assert_eq!(render(&q).1, vec!["time:42", "time:42", "uuid:255"]);

    let mut q = SqlQuery::new("");
    push_postgres_desc_cursor_str_id(&mut q, "s", "user_id", &UserCursor { last_sort_value: 7, last_id: "u9".to_string() });
    assert_eq!(render(&q).1, vec!["time:7", "time:7", "text:u9"]);
}

#[test]
fn keyword_patterns_and_filters() {
    assert_eq!(sqlite_like_pattern("RuSt"), "%rust%");
    assert_eq!(postgres_ilike_pattern("RuSt"), "%RuSt%");
    let mut q = SqlQuery::new("");
    push_sqlite_fact_keyword_filter(&mut q, "Go");
    let (sql, binds) = render(&q);
    assert_eq!(sql, " AND (LOWER(content) LIKE ? OR LOWER(COALESCE(summary, '')) LIKE ?)");
    assert_eq!(binds, vec!["text:%go%", "text:%go%"]);
    let mut q = SqlQuery::new("");
    push_postgres_event_keyword_filter(&mut q, "x", true);
    let (sql, binds) = render(&q);
    assert_eq!(
        sql,
        " AND (COALESCE(previous_content, '') ILIKE ? OR COALESCE(new_content, '') ILIKE ? OR COALESCE(provider_name, '') ILIKE ? OR COALESCE(model_name, '') ILIKE ? OR user_id ILIKE ?)"
    );
    assert_eq!(binds.len(), 5);
}

#[test]
fn fact_search_statement() {
    let query = FactSearchQuery {
        tenant: TenantContext { org_id: "o".to_string(), user_id: "u".to_string() },
        memory_types: Some(vec![MemoryType::Skill, MemoryType::Task]),
        query_text: Some("Rust".to_string()),
        limit: 10,
        cursor: None,
        include_deleted: false,
    };
    let (sql, binds) = render(&sqlite_fact_search_query(&query));
    assert!(sql.ends_with(
        "WHERE org_id = ? AND user_id = ? AND deleted_at IS NULL AND memory_type IN (?, ?)  AND LOWER(content) LIKE ? ORDER BY updated_at DESC LIMIT ?"
    ));
    assert_eq!(binds, vec!["text:o", "text:u", "text:skill", "text:task", "text:%rust%", "int:10"]);
}

#[test]
fn job_run_and_usage_statements() {
    let query = BackgroundJobRunQuery {
        kind: Some(BackgroundJobKind::ProviderUsageRetention),
        status: Some(BackgroundJobStatus::Failed),
        created_after: Some(5),
        created_before: None,
        limit: 3,
        cursor: Some(PageCursor { last_sort_value: 9, last_id: 1 }),
    };
    let (sql, binds) = render(&sqlite_job_runs_query(&query, 3));
    assert!(sql.ends_with(
        "FROM background_job_runs WHERE 1 = 1 AND kind = ? AND status = ? AND started_at >= ? AND (started_at < ? OR (started_at = ? AND id < ?)) ORDER BY started_at DESC, id DESC LIMIT ?"
    ));
    assert_eq!(binds[0], "text:provider_usage_retention");
    assert_eq!(binds[1], "text:failed");
    assert_eq!(binds.last().unwrap(), "int:4");

    let usage = ProviderUsageQuery { user_id: Some("u".to_string()), ..ProviderUsageQuery::new("o", 5) };
    let (sql, binds) = render(&sqlite_usage_summary_query(&usage));
    assert!(sql.ends_with("FROM provider_usage_events WHERE org_id = ? AND user_id = ?"));
    assert_eq!(binds, vec!["text:o", "text:u"]);
}

#[test]
fn lance_filters_quote_values() {
    let t = TenantContext { org_id: "o'brien".to_string(), user_id: "u".to_string() };
    assert_eq!(escape_sql_literal("a'b''c"), "a''b''''c");
    assert_eq!(tenant_filter(&t), "org_id = 'o''brien' AND user_id = 'u'");
    assert_eq!(memory_types_filter(&vec![MemoryType::Profile, MemoryType::Skill]), "memory_type IN ('profile', 'skill')");
    assert_eq!(memory_types_filter(&vec![]), "memory_type IN ()");
    assert_eq!(
        fact_predicate(&t, 1),
        "org_id = 'o''brien' AND user_id = 'u' AND fact_id = '00000000-0000-0000-0000-000000000001'"
    );
    assert_eq!(search_filter(&t, &Some(vec![])), tenant_filter(&t));
    assert_eq!(
        search_filter(&t, &Some(vec![MemoryType::Task])),
        "org_id = 'o''brien' AND user_id = 'u' AND memory_type IN ('task')"
    );
    match LanceDbVectorStore::new(0) {
        Err(MemcoreError::ValidationError(m)) => assert_eq!(m, "embedding dimensions must be greater than 0"),
        other => panic!("unexpected {other:?}"),
    }
    let store = LanceDbVectorStore::new(3).unwrap();
    assert!(check_embedding_length(store.dimensions, 3).is_ok());
    match check_embedding_length(store.dimensions, 2) {
        Err(MemcoreError::ValidationError(m)) => {
            assert_eq!(m, "embedding length 2 does not match configured dimensions 3")
        }
        other => panic!("unexpected {other:?}"),
    }
    match check_query_embedding_length(store.dimensions, 10) {
        Err(MemcoreError::ValidationError(m)) => {
            assert_eq!(m, "query embedding length 10 does not match configured dimensions 3")
        }
        other => panic!("unexpected {other:?}"),
    }
}

#[test]
fn labels_round_trip_and_unknown_labels_fail() {
    for t in [MemoryType::Profile, MemoryType::Conversation, MemoryType::System] {
        assert_eq!(memory_type_from_str(memory_type_to_str(t)).unwrap(), t);
    }
    for s in [ApiKeyScope::MemoryRead, ApiKeyScope::AdminWrite, ApiKeyScope::UserDelete] {
        assert_eq!(api_key_scope_from_str(api_key_scope_to_str(s)).unwrap(), s);
    }
    assert_eq!(memory_source_to_str(MemorySource::AssistantMessage), "assistant_message");
    assert_eq!(status_to_str(ProviderCallStatus::Error), "error");
    assert_eq!(tier_to_storage(OrgPlanTier::Enterprise), "enterprise");
    assert_eq!(tier_from_storage("pro").unwrap(), OrgPlanTier::Pro);
    assert_eq!(job_kind_from_str("memory_usage_snapshot").unwrap(), BackgroundJobKind::MemoryUsageSnapshot);
    assert_eq!(
        memory_type_from_str("Profile"),
        Err(MemcoreError::StorageError("invalid memory_type value: Profile".to_string()))
    );
    assert_eq!(
        capability_from_str("vision"),
        Err(MemcoreError::StorageError("invalid provider usage capability: vision".to_string()))
    );
    assert_eq!(
        tier_from_storage("gold"),
        Err(MemcoreError::StorageError("invalid org plan tier value: gold".to_string()))
    );
    assert_eq!(bool_to_i64(true), 1);
    assert_eq!(bool_to_i64(false), 0);
    assert!(i64_to_bool(-3));
    assert!(!i64_to_bool(0));
    assert_eq!(optional_i64_to_u64(Some(5)), Some(5));
    assert_eq!(optional_i64_to_u64(Some(0)), None);
    assert_eq!(optional_i64_to_u64(Some(-2)), None);
    assert_eq!(optional_i64_to_u64(None), None);
}

#[test]
fn keyword_matching_ignores_ascii_case() {
    assert!(contains_case_insensitive("Learning RUST daily", "rust"));
    assert!(contains_case_insensitive("abc", ""));
    assert!(!contains_case_insensitive("abc", "abcd"));
    assert!(!contains_case_insensitive("ÄBC", "äbc"));
    assert!(optional_contains(&Some("Hello".to_string()), "ELL"));
    assert!(!optional_contains(&None, ""));
    let event = MemoryEvent {
        id: 1,
        org_id: "o".to_string(),
        user_id: "Alice".to_string(),
        fact_id: None,
        operation: MemoryEventOperation::Add,
        input_text: Some("needle".to_string()),
        previous_content: None,
        new_content: Some("new text".to_string()),
        provider_name: Some("openai".to_string()),
        model_name: None,
        metadata_json: "{}".to_string(),
        created_at: 0,
    };
    assert!(event_matches_keyword(&event, "OPENAI", false));
    assert!(!event_matches_keyword(&event, "needle", false));
    assert!(!event_matches_keyword(&event, "alice", false));
    assert!(event_matches_keyword(&event, "alice", true));
}
