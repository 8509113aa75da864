use memcore_storage::errors::MemcoreError;
use memcore_storage::jobs::{BackgroundJobKind, BackgroundJobStatus};
use memcore_storage::rows::{
    ApiKeyColumns, AppliedColumns, FactColumns, JobLockColumns, JobRunColumns, MemoryEventColumns,
    PlanColumns, SnapshotColumns, UsageEventColumns, datetime_from_str, parse_applied_row,
    row_to_api_key_record, row_to_event, row_to_fact, row_to_lock, row_to_memory_event, row_to_plan,
    row_to_run, row_to_snapshot, scopes_from_json, scopes_from_strings, scopes_to_json,
    scopes_to_strings,
};
use memcore_storage::types::{ApiKeyScope, MemoryEventOperation, MemoryType, OrgPlanTier};

const ID: &str = "67e55044-10b1-426f-9247-bb680e5fe0c8";
const ID_VALUE: u128 = 0x67e5504410b1426f9247bb680e5fe0c8;

fn storage_message(e: MemcoreError) -> String {
    match e {
        MemcoreError::StorageError(m) => m,
        other => panic!("unexpected {other:?}"),
    }
}

#[test]
fn timestamps_read_back_as_epoch_nanoseconds() {
    assert_eq!(datetime_from_str("1970-01-01T00:00:01.5+00:00").unwrap(), 1_500_000_000);
    assert_eq!(datetime_from_str("1970-01-01T01:00:00+01:00").unwrap(), 0);
    assert_eq!(datetime_from_str("1969-12-31T23:59:59Z").unwrap(), -1_000_000_000);
    let message = storage_message(datetime_from_str("yesterday").unwrap_err());
    assert!(message.starts_with("invalid datetime value 'yesterday': "));
}

fn fact_columns() -> FactColumns {
    FactColumns {
        id: ID.to_string(),
        org_id: "o".to_string(),
        user_id: "u".to_string(),
        memory_type: "skill".to_string(),
        content: "rust".to_string(),
        summary: None,
        source: "manual".to_string(),
        confidence_bits: 1,
        importance_bits: 2,
        valid_at: Some("2026-01-01T00:00:00Z".to_string()),
        invalid_at: None,
        recorded_at: "2026-01-01T00:00:00Z".to_string(),
        updated_at: "2026-01-02T00:00:00Z".to_string(),
        metadata: "{\"a\":1}".to_string(),
    }
}

#[test]
fn fact_rows_decode_and_report_the_first_bad_column() {
    let fact = row_to_fact(fact_columns()).expect("fact");
    assert_eq!(fact.id, ID_VALUE);
    assert_eq!(fact.memory_type, MemoryType::Skill);
    assert_eq!(fact.updated_at - fact.recorded_at, 86_400_000_000_000);
    assert_eq!(fact.valid_at, Some(fact.recorded_at));
    assert_eq!(fact.metadata_json, "{\"a\":1}");

    let mut bad = fact_columns();
    bad.id = "nope".to_string();
    bad.memory_type = "bogus".to_string();
    assert!(storage_message(row_to_fact(bad).unwrap_err()).starts_with("invalid fact id 'nope': "));

    let mut bad = fact_columns();
    bad.memory_type = "bogus".to_string();
    bad.source = "bogus".to_string();
    assert_eq!(storage_message(row_to_fact(bad).unwrap_err()), "invalid memory_type value: bogus");

    let mut bad = fact_columns();
    bad.metadata = "{oops".to_string();
    assert!(storage_message(row_to_fact(bad).unwrap_err()).starts_with("failed to deserialize metadata: "));
}

#[test]
fn event_rows_decode() {
    let columns = MemoryEventColumns {
        id: ID.to_string(),
        org_id: "o".to_string(),
        user_id: "u".to_string(),
        fact_id: Some("00000000-0000-0000-0000-000000000001".to_string()),
        operation: "forget_user".to_string(),
        input_text: None,
        previous_content: Some("p".to_string()),
        new_content: None,
        provider_name: None,
        model_name: None,
        metadata: "{}".to_string(),
        created_at: "2026-06-01T00:00:00Z".to_string(),
    };
    let event = row_to_memory_event(columns).expect("event");
    assert_eq!(event.fact_id, Some(1));
    assert_eq!(event.operation, MemoryEventOperation::ForgetUser);
    let columns = MemoryEventColumns {
        id: ID.to_string(),
        org_id: "o".to_string(),
        user_id: "u".to_string(),
        fact_id: Some("x".to_string()),
        operation: "add".to_string(),
        input_text: None,
        previous_content: None,
        new_content: None,
        provider_name: None,
        model_name: None,
        metadata: "{}".to_string(),
        created_at: "2026-06-01T00:00:00Z".to_string(),
    };
    assert!(storage_message(row_to_memory_event(columns).unwrap_err()).starts_with("invalid fact_id 'x': "));
}

#[test]
fn api_key_rows_and_scope_lists() {
    let scopes = vec![ApiKeyScope::MemoryRead, ApiKeyScope::AuditRead];
    let json = scopes_to_json(&scopes).expect("json");
    assert_eq!(json, "[\"memory_read\",\"audit_read\"]");
    assert_eq!(scopes_from_json(&json).unwrap(), scopes);
    assert_eq!(scopes_to_strings(&scopes), vec!["memory_read".to_string(), "audit_read".to_string()]);
    assert_eq!(
        scopes_from_strings(&vec!["admin_read".to_string(), "root".to_string(), "x".to_string()]),
        Err(MemcoreError::StorageError("invalid api key scope value: root".to_string()))
    );
    assert!(storage_message(scopes_from_json("not json").unwrap_err())
        .starts_with("failed to deserialize api key scopes: "));
    let record = row_to_api_key_record(ApiKeyColumns {
        id: ID.to_string(),
        org_id: "o".to_string(),
        name: "n".to_string(),
        key_hash: "h".to_string(),
        scopes: json,
        created_at: "2026-06-01T00:00:00Z".to_string(),
        revoked_at: Some("2026-06-02T00:00:00Z".to_string()),
    })
    .expect("record");
    assert_eq!(record.id, ID_VALUE);
    assert_eq!(record.scopes, scopes);
    assert!(!record.is_active());
}

#[test]
fn usage_run_lock_snapshot_plan_and_applied_rows() {
    let event = row_to_event(UsageEventColumns {
        id: ID.to_string(),
        org_id: "o".to_string(),
        user_id: None,
        provider_name: "mock".to_string(),
        model_name: None,
        capability: "embedding".to_string(),
        operation_name: "op".to_string(),
        status: "success".to_string(),
        input_tokens: Some(3),
        output_tokens: None,
        total_tokens: Some(-1),
        retry_count: 2,
        fallback_used: 1,
        circuit_blocked: 0,
        timed_out: 7,
        estimated_cost_bits: None,
        metadata: Some("   ".to_string()),
        created_at: "2026-06-01T00:00:00Z".to_string(),
    })
    .expect("usage event");
    assert_eq!(event.total_tokens, Some(u64::MAX));
    assert!(event.fallback_used && !event.circuit_blocked && event.timed_out);
    assert!(event.metadata_json.is_none());

    let run = row_to_run(JobRunColumns {
        id: ID.to_string(),
        kind: "provider_usage_retention".to_string(),
        status: "skipped".to_string(),
        started_at: "2026-06-01T00:00:00Z".to_string(),
        finished_at: Some("bad".to_string()),
        duration_ms: None,
        attempt_count: Some(0),
        max_attempts: None,
        retried: false,
        error_code: None,
        error_message: None,
        metadata: None,
    });
    assert!(storage_message(run.unwrap_err()).starts_with("parse sqlite background job timestamp: "));
    let run = row_to_run(JobRunColumns {
        id: ID.to_string(),
        kind: "provider_usage_retention".to_string(),
        status: "skipped".to_string(),
        started_at: "2026-06-01T00:00:00Z".to_string(),
        finished_at: None,
        duration_ms: Some(15),
        attempt_count: Some(0),
        max_attempts: Some(4),
        retried: true,
        error_code: None,
        error_message: None,
        metadata: Some("{\"k\":true}".to_string()),
    })
    .expect("run");
    assert_eq!(run.kind, BackgroundJobKind::ProviderUsageRetention);
    assert_eq!(run.status, BackgroundJobStatus::Skipped);
    assert_eq!(run.attempt_count, 1);
    assert_eq!(run.max_attempts, 4);
    assert_eq!(run.duration_ms, Some(15));

    let lock = row_to_lock(JobLockColumns {
        kind: "memory_usage_snapshot".to_string(),
        owner_id: "a".to_string(),
        locked_until: "1970-01-01T00:01:00Z".to_string(),
        acquired_at: "1970-01-01T00:00:00Z".to_string(),
        heartbeat_at: None,
    })
    .expect("lock");
    assert_eq!(lock.locked_until, 60_000_000_000);

    let snapshot = row_to_snapshot(SnapshotColumns {
        id: ID.to_string(),
        org_id: "o".to_string(),
        total_users: 2,
        total_memories: 5,
        active_memories: 4,
        deleted_memories: Some(1),
        captured_at: "2026-06-01T00:00:00Z".to_string(),
        metadata: Some("[1,2]".to_string()),
    })
    .expect("snapshot");
    assert_eq!(snapshot.deleted_memories, Some(1));
    assert_eq!(snapshot.metadata_json.as_deref(), Some("[1,2]"));

    let plan = row_to_plan(PlanColumns {
        org_id: "o".to_string(),
        tier: "enterprise".to_string(),
        max_users_per_org: Some(0),
        max_memories_per_user: Some(9),
        max_memories_per_org: None,
        daily_provider_request_limit: Some(-5),
        daily_provider_token_limit: Some(1),
        is_active: 1,
        metadata: None,
        created_at: "2026-06-01T00:00:00Z".to_string(),
        updated_at: "2026-06-01T00:00:00Z".to_string(),
    })
    .expect("plan");
    assert_eq!(plan.tier, OrgPlanTier::Enterprise);
    assert_eq!(plan.limits.max_users_per_org, None);
    assert_eq!(plan.limits.max_memories_per_user, Some(9));
    assert_eq!(plan.limits.daily_provider_request_limit, None);
    assert!(plan.is_active);

    let bad_plan = row_to_plan(PlanColumns {
        org_id: "org_bad".to_string(),
        tier: "gold".to_string(),
        max_users_per_org: None,
        max_memories_per_user: None,
        max_memories_per_org: None,
        daily_provider_request_limit: None,
        daily_provider_token_limit: None,
        is_active: 1,
        metadata: None,
        created_at: "2026-06-01T00:00:00Z".to_string(),
        updated_at: "2026-06-01T00:00:00Z".to_string(),
    });
    assert!(bad_plan.is_err());

    let applied = parse_applied_row(AppliedColumns {
        version: 3,
        name: "x".to_string(),
        checksum: "c".to_string(),
        applied_at: "nope".to_string(),
    });
    match applied {
        Err(MemcoreError::MigrationError(m)) => assert!(m.starts_with("parse sqlite migration applied_at: ")),
        other => panic!("unexpected {other:?}"),
    }
}
