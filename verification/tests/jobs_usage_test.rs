use memcore_storage::errors::MemcoreError;
use memcore_storage::jobs::{
    BackgroundJobKind, BackgroundJobRunQuery, BackgroundJobStatus, MockBackgroundJobLockStore,
    MockBackgroundJobRunStore, StoredBackgroundJobRun, lock_until_from_ttl,
};
use memcore_storage::pagination::PageCursor;
use memcore_storage::types::{ProviderCallStatus, ProviderUsageCapability};
use memcore_storage::usage::{
    MemoryUsageSnapshot, MemoryUsageSnapshotQuery, MockMemoryUsageSnapshotStore,
    MockProviderUsageStore, ProviderUsageEventRecord, ProviderUsageQuery, compute_summary,
};

const SEC: i128 = 1_000_000_000;
const DAY: i128 = 86_400 * SEC;
const BASE: i128 = 1_781_776_800 * SEC;

#[test]
fn acquire_blocks_expires_renews_releases_and_reads() {
    let mut store = MockBackgroundJobLockStore::new();
    let kind = BackgroundJobKind::MemoryUsageSnapshot;
    let ttl60 = 60_000_000_000u64;

    let acquired = store
        .try_acquire_lock(kind, "owner-a", ttl60, BASE)
        .expect("acquire")
        .expect("lock");
    assert_eq!(acquired.owner_id, "owner-a");
    assert_eq!(acquired.locked_until, BASE + 60 * SEC);

    let blocked = store.try_acquire_lock(kind, "owner-b", ttl60, BASE + SEC).expect("blocked");
    assert!(blocked.is_none());

    let lock = store.get_lock(kind).expect("get").expect("record");
    assert_eq!(lock.owner_id, "owner-a");
    assert!(lock.heartbeat_at.is_none());

    assert!(store.renew_lock(kind, "owner-a", 120_000_000_000, BASE + 2 * SEC).expect("renew"));
    assert!(!store.renew_lock(kind, "owner-b", 120_000_000_000, BASE + 2 * SEC).expect("renew blocked"));
    let lock = store.get_lock(kind).expect("get").expect("record");
    assert_eq!(lock.locked_until, BASE + 122 * SEC);
    assert_eq!(lock.heartbeat_at, Some(BASE + 2 * SEC));
    assert_eq!(lock.acquired_at, BASE);

    // once the lease has run out another owner takes it
    let acquired = store
        .try_acquire_lock(kind, "owner-b", ttl60, BASE + 200 * SEC)
        .expect("expired acquire")
        .expect("lock");
    assert_eq!(acquired.owner_id, "owner-b");

    assert!(!store.release_lock(kind, "owner-a").expect("release rejected"));
    assert!(store.release_lock(kind, "owner-b").expect("release"));
    assert!(store.get_lock(kind).expect("get").is_none());
}

#[test]
fn lock_kinds_are_independent_and_owner_may_reacquire() {
    let mut store = MockBackgroundJobLockStore::new();
    let ttl = 10 * 1_000_000_000u64;
    assert!(store
        .try_acquire_lock(BackgroundJobKind::MemoryUsageSnapshot, "a", ttl, BASE)
        .unwrap()
        .is_some());
    assert!(store
        .try_acquire_lock(BackgroundJobKind::ProviderUsageRetention, "b", ttl, BASE)
        .unwrap()
        .is_some());
    let again = store
        .try_acquire_lock(BackgroundJobKind::MemoryUsageSnapshot, "a", ttl, BASE + SEC)
        .unwrap()
        .expect("owner takes its own lease again");
    assert_eq!(again.locked_until, BASE + 11 * SEC);
    assert!(store.renew_lock(BackgroundJobKind::ProviderUsageRetention, "a", ttl, BASE).unwrap() == false);
    assert_eq!(lock_until_from_ttl(i128::MAX - 5, 10), i128::MAX);
    assert_eq!(lock_until_from_ttl(-20, 5), -15);
}

fn run(id: u128, kind: BackgroundJobKind, status: BackgroundJobStatus, started_at: i128) -> StoredBackgroundJobRun {
    StoredBackgroundJobRun {
        id,
        kind,
        status,
        started_at,
        finished_at: Some(started_at + SEC),
        duration_ms: Some(1000),
        attempt_count: 1,
        max_attempts: 1,
        retried: false,
        error_code: None,
        error_message: None,
        metadata_json: Some("{\"org_count\":1,\"affected_count\":2}".to_string()),
    }
}

fn all_runs(limit: usize, cursor: Option<PageCursor>) -> BackgroundJobRunQuery {
    BackgroundJobRunQuery {
        kind: None,
        status: None,
        created_after: None,
        created_before: None,
        limit,
        cursor,
    }
}

#[test]
fn insert_query_filters_limit_cursor_and_delete_work() {
    let mut store = MockBackgroundJobRunStore::new(100);
    let older = store
        .insert_run(run(1, BackgroundJobKind::MemoryUsageSnapshot, BackgroundJobStatus::Succeeded, BASE - 2 * DAY))
        .expect("older insert");
    let middle = store
        .insert_run(run(2, BackgroundJobKind::ProviderUsageRetention, BackgroundJobStatus::Failed, BASE - DAY))
        .expect("middle insert");
    let latest = store
        .insert_run(run(3, BackgroundJobKind::MemoryUsageSnapshot, BackgroundJobStatus::Skipped, BASE))
        .expect("latest insert");

    let all = store.query_runs(all_runs(10, None)).expect("query all");
    assert_eq!(all.runs.iter().map(|r| r.id).collect::<Vec<_>>(), vec![latest.id, middle.id, older.id]);
    assert!(all.next_cursor.is_none());

    let by_kind = store
        .query_runs(BackgroundJobRunQuery {
            kind: Some(BackgroundJobKind::MemoryUsageSnapshot),
            ..all_runs(10, None)
        })
        .expect("query kind");
    assert_eq!(by_kind.runs.len(), 2);

    let by_status = store
        .query_runs(BackgroundJobRunQuery {
            status: Some(BackgroundJobStatus::Failed),
            ..all_runs(10, None)
        })
        .expect("query status");
    assert_eq!(by_status.runs.iter().map(|r| r.id).collect::<Vec<_>>(), vec![middle.id]);

    let date_range = store
        .query_runs(BackgroundJobRunQuery {
            created_after: Some(BASE - DAY),
            created_before: Some(BASE + SEC),
            ..all_runs(10, None)
        })
        .expect("query date range");
    assert_eq!(date_range.runs.len(), 2);

    let first_page = store.query_runs(all_runs(1, None)).expect("first page");
    assert_eq!(first_page.runs.iter().map(|r| r.id).collect::<Vec<_>>(), vec![latest.id]);
    let cursor = first_page.next_cursor.expect("cursor value");
    assert_eq!(cursor, PageCursor { last_sort_value: BASE, last_id: 3 });
    let second_page = store.query_runs(all_runs(1, Some(cursor))).expect("second page");
    assert_eq!(second_page.runs.iter().map(|r| r.id).collect::<Vec<_>>(), vec![middle.id]);

    assert_eq!(store.delete_runs_older_than(BASE, true).expect("dry run delete"), 2);
    assert_eq!(store.query_runs(all_runs(10, None)).expect("after dry run").runs.len(), 3);
    assert_eq!(store.delete_runs_older_than(BASE, false).expect("delete"), 2);
    assert_eq!(store.query_runs(all_runs(10, None)).expect("after delete").runs.len(), 1);

    for bad in [0usize, 101] {
        match store.query_runs(all_runs(bad, None)) {
            Err(MemcoreError::ValidationError(m)) => assert_eq!(m, "limit must be between 1 and 100"),
            _ => panic!("limit {bad} should be refused"),
        }
    }
}

fn usage(id: u128, org: &str, user: Option<&str>, cap: ProviderUsageCapability, at: i128, status: ProviderCallStatus) -> ProviderUsageEventRecord {
    ProviderUsageEventRecord {
        id,
        org_id: org.to_string(),
        user_id: user.map(|u| u.to_string()),
        provider_name: "mock".to_string(),
        model_name: Some("mock-llm".to_string()),
        capability: cap,
        operation_name: "llm_extract_facts".to_string(),
        status,
        input_tokens: Some(100),
        output_tokens: Some(20),
        total_tokens: Some(120),
        retry_count: 1,
        fallback_used: false,
        circuit_blocked: false,
        timed_out: false,
        estimated_cost_bits: Some(0.001f64.to_bits()),
        metadata_json: None,
        created_at: at,
    }
}

#[test]
fn records_and_queries_by_org_id() {
    let mut store = MockProviderUsageStore::new(100);
    store
        .record_usage_event(usage(1, "org_a", Some("user_a"), ProviderUsageCapability::Llm, BASE, ProviderCallStatus::Success))
        .expect("record");
    let result = store.query_usage(ProviderUsageQuery::new("org_a", 10)).expect("query");
    assert_eq!(result.events.len(), 1);
    assert_eq!(result.summary.total_requests, 1);
}

#[test]
fn excludes_other_org() {
    let mut store = MockProviderUsageStore::new(100);
    store
        .record_usage_event(usage(1, "org_a", None, ProviderUsageCapability::Llm, BASE, ProviderCallStatus::Success))
        .expect("record");
    store
        .record_usage_event(usage(2, "org_b", None, ProviderUsageCapability::Llm, BASE, ProviderCallStatus::Success))
        .expect("record");
    let result = store.query_usage(ProviderUsageQuery::new("org_a", 10)).expect("query");
    assert_eq!(result.events.len(), 1);
    assert_eq!(result.events[0].org_id, "org_a");
}

#[test]
fn filters_by_user_provider_model_capability_operation_and_dates() {
    let mut store = MockProviderUsageStore::new(100);
    let early = BASE - 150 * DAY;
    let mid = BASE - 90 * DAY;
    let late = BASE - 30 * DAY;
    for (i, (user, ts)) in [("user_a", early), ("user_b", mid), ("user_a", late)].into_iter().enumerate() {
        let mut event = usage(i as u128 + 1, "org_filter", Some(user), ProviderUsageCapability::Llm, ts, ProviderCallStatus::Success);
        if user == "user_b" {
            event.operation_name = "embedding_embed_text".to_string();
            event.capability = ProviderUsageCapability::Embedding;
        }
        store.record_usage_event(event).expect("record");
    }
    let user_filtered = store
        .query_usage(ProviderUsageQuery {
            user_id: Some("user_a".to_string()),
            ..ProviderUsageQuery::new("org_filter", 10)
        })
        .expect("query");
    assert_eq!(user_filtered.events.len(), 2);
    let capability_filtered = store
        .query_usage(ProviderUsageQuery {
            capability: Some(ProviderUsageCapability::Embedding),
            ..ProviderUsageQuery::new("org_filter", 10)
        })
        .expect("query");
    assert_eq!(capability_filtered.events.len(), 1);
    let date_filtered = store
        .query_usage(ProviderUsageQuery {
            created_after: Some(BASE - 120 * DAY),
            created_before: Some(BASE - 60 * DAY),
            ..ProviderUsageQuery::new("org_filter", 10)
        })
        .expect("query");
    assert_eq!(date_filtered.events.len(), 1);
    assert_eq!(date_filtered.events[0].user_id.as_deref(), Some("user_b"));
}

#[test]
fn summary_totals_and_pagination_work() {
    let mut store = MockProviderUsageStore::new(100);
    for offset in 0..3i128 {
        store
            .record_usage_event(usage(offset as u128 + 1, "org_page", Some("user_a"), ProviderUsageCapability::Llm, BASE + offset * SEC, ProviderCallStatus::Success))
            .expect("record");
    }
    let page1 = store.query_usage(ProviderUsageQuery::new("org_page", 2)).expect("page1");
    assert_eq!(page1.events.len(), 2);
    assert!(page1.next_cursor.is_some());
    assert_eq!(page1.summary.total_requests, 3);
    let page2 = store
        .query_usage(ProviderUsageQuery {
            cursor: page1.next_cursor,
            limit: 2,
            ..ProviderUsageQuery::new("org_page", 2)
        })
        .expect("page2");
    assert_eq!(page2.events.len(), 1);
    assert_eq!(page2.summary.total_requests, 3);
}

#[test]
fn summary_counts_outcomes_tokens_and_costs() {
    let mut error = usage(2, "o", None, ProviderUsageCapability::Llm, BASE, ProviderCallStatus::Error);
    error.fallback_used = true;
    error.timed_out = true;
    error.input_tokens = None;
    error.estimated_cost_bits = None;
    let mut big = usage(3, "o", None, ProviderUsageCapability::Llm, BASE, ProviderCallStatus::Success);
    big.total_tokens = Some(u64::MAX);
    big.circuit_blocked = true;
    let events = vec![usage(1, "o", None, ProviderUsageCapability::Llm, BASE, ProviderCallStatus::Success), error, big];
    let s = compute_summary(&events);
    assert_eq!(s.total_requests, 3);
    assert_eq!(s.total_successes, 2);
    assert_eq!(s.total_errors, 1);
    assert_eq!(s.total_retries, 3);
    assert_eq!(s.total_fallbacks, 1);
    assert_eq!(s.total_circuit_blocks, 1);
    assert_eq!(s.total_timeouts, 1);
    assert_eq!(s.total_input_tokens, 200);
    assert_eq!(s.total_output_tokens, 60);
    assert_eq!(s.total_tokens, u64::MAX);
    assert_eq!(s.estimated_costs_bits.len(), 2);
}

fn snapshot(id: u128, org_id: &str, captured_at: i128) -> MemoryUsageSnapshot {
    MemoryUsageSnapshot {
        id,
        org_id: org_id.to_string(),
        total_users: 2,
        total_memories: 3,
        active_memories: 3,
        deleted_memories: None,
        captured_at,
        metadata_json: Some("{\"source\":\"test\"}".to_string()),
    }
}

#[test]
fn insert_and_query_snapshots_are_org_scoped_and_ordered() {
    let mut store = MockMemoryUsageSnapshotStore::new();
    let older = store.insert_snapshot(snapshot(1, "org_a", BASE - DAY)).expect("older");
    let newer = store.insert_snapshot(snapshot(2, "org_a", BASE)).expect("newer");
    store.insert_snapshot(snapshot(3, "org_b", BASE + DAY)).expect("other org");
    let result = store
        .query_snapshots(MemoryUsageSnapshotQuery {
            org_id: "org_a".to_string(),
            created_after: None,
            created_before: None,
            limit: 10,
            cursor: None,
        })
        .expect("query");
    assert_eq!(result.snapshots.len(), 2);
    assert_eq!(result.snapshots[0].id, newer.id);
    assert_eq!(result.snapshots[1].id, older.id);
    assert_eq!(result.snapshots[0].metadata_json.as_deref(), Some("{\"source\":\"test\"}"));
}

#[test]
fn date_filters_limit_and_cursor_work() {
    let mut store = MockMemoryUsageSnapshotStore::new();
    store.insert_snapshot(snapshot(1, "org_a", BASE - 2 * DAY)).expect("one");
    let middle = store.insert_snapshot(snapshot(2, "org_a", BASE - DAY)).expect("two");
    let latest = store.insert_snapshot(snapshot(3, "org_a", BASE)).expect("three");
    let first_page = store
        .query_snapshots(MemoryUsageSnapshotQuery {
            org_id: "org_a".to_string(),
            created_after: Some(BASE - 2 * DAY),
            created_before: Some(BASE + SEC),
            limit: 1,
            cursor: None,
        })
        .expect("first page");
    assert_eq!(first_page.snapshots.iter().map(|s| s.id).collect::<Vec<_>>(), vec![latest.id]);
    let second_page = store
        .query_snapshots(MemoryUsageSnapshotQuery {
            org_id: "org_a".to_string(),
            created_after: Some(BASE - 2 * DAY),
            created_before: Some(BASE + SEC),
            limit: 1,
            cursor: Some(first_page.next_cursor.expect("cursor")),
        })
        .expect("second page");
    assert_eq!(second_page.snapshots.iter().map(|s| s.id).collect::<Vec<_>>(), vec![middle.id]);
    assert!(second_page.next_cursor.is_some());
    let none = store
        .query_snapshots(MemoryUsageSnapshotQuery {
            org_id: "org_a".to_string(),
            created_after: None,
            created_before: None,
            limit: 0,
            cursor: None,
        })
        .expect("empty page");
    assert!(none.snapshots.is_empty());
    assert!(none.next_cursor.is_none());
}

#[test]
fn run_pages_continue_from_their_cursor() {
    let mut store = MockBackgroundJobRunStore::new(100);
    for (id, at) in [(1u128, BASE), (2, BASE + SEC), (3, BASE + 2 * SEC)] {
        store
            .insert_run(run(id, BackgroundJobKind::MemoryUsageSnapshot, BackgroundJobStatus::Succeeded, at))
            .expect("insert");
    }
    let first = store.query_runs(all_runs(2, None)).expect("first page");
    assert_eq!(first.runs.iter().map(|r| r.id).collect::<Vec<_>>(), vec![3, 2]);
    let second = store.query_runs(all_runs(2, first.next_cursor)).expect("second page");
    assert_eq!(second.runs.iter().map(|r| r.id).collect::<Vec<_>>(), vec![1]);
    assert_eq!(second.next_cursor, None);
}

#[test]
fn usage_pages_continue_from_their_cursor() {
    let mut store = MockProviderUsageStore::new(100);
    for (id, at) in [(1u128, BASE), (2, BASE + SEC), (3, BASE + 2 * SEC)] {
        store
            .record_usage_event(usage(id, "org_page", None, ProviderUsageCapability::Llm, at, ProviderCallStatus::Success))
            .expect("record");
    }
    let first = store.query_usage(ProviderUsageQuery::new("org_page", 2)).expect("first page");
    assert_eq!(first.events.iter().map(|e| e.id).collect::<Vec<_>>(), vec![3, 2]);
    assert_eq!(first.summary.total_requests, 3);
    let mut next = ProviderUsageQuery::new("org_page", 2);
    next.cursor = first.next_cursor;
    let second = store.query_usage(next).expect("second page");
    assert_eq!(second.events.iter().map(|e| e.id).collect::<Vec<_>>(), vec![1]);
    assert_eq!(second.summary.total_requests, 3);
}
