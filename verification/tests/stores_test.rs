use memcore_storage::api_keys::{ApiKeyListQuery, MockApiKeyStore};
use memcore_storage::errors::MemcoreError;
use memcore_storage::events::{EventListLimits, MemoryEventQuery, MockMemoryEventStore, OrgMemoryEventQuery};
use memcore_storage::facts::{FactSearchQuery, MockFactStore, OrgUserListQuery};
use memcore_storage::org_plan::{MockOrgPlanStore, OrgPlanConfig, OrgPlanLimits};
use memcore_storage::pagination::PageCursor;
use memcore_storage::types::{
    ApiKeyRecord, ApiKeyScope, Fact, MemoryEvent, MemoryEventOperation, MemorySource, MemoryType,
    OrgPlanTier, TenantContext,
};
use memcore_storage::vector::{MockVectorStore, VectorRecord, VectorSearchQuery};

const DAY: i128 = 86_400_000_000_000;
const NOW: i128 = 1_780_000_000_000_000_000;

fn tenant(org_id: &str, user_id: &str) -> TenantContext {
    TenantContext {
        org_id: org_id.to_string(),
        user_id: user_id.to_string(),
    }
}

fn sample_fact(id: u128, org_id: &str, user_id: &str, content: &str, memory_type: MemoryType) -> Fact {
    Fact {
        id,
        org_id: org_id.to_string(),
        user_id: user_id.to_string(),
        memory_type,
        content: content.to_string(),
        summary: None,
        source: MemorySource::UserMessage,
        confidence_bits: 0.9f32.to_bits(),
        importance_bits: 0.8f32.to_bits(),
        valid_at: None,
        invalid_at: None,
        recorded_at: NOW,
        updated_at: NOW,
        metadata_json: "{}".to_string(),
    }
}

fn sample_event(id: u128, t: &TenantContext, fact_id: Option<u128>, op: MemoryEventOperation, at: i128) -> MemoryEvent {
    MemoryEvent {
        id,
        org_id: t.org_id.clone(),
        user_id: t.user_id.clone(),
        fact_id,
        operation: op,
        input_text: None,
        previous_content: None,
        new_content: Some("content".to_string()),
        provider_name: None,
        model_name: None,
        metadata_json: "{}".to_string(),
        created_at: at,
    }
}

fn limits() -> EventListLimits {
    EventListLimits {
        default_limit: 50,
        max_limit: 200,
    }
}

fn api_key(id: u128, org_id: &str, name: &str, hash: &str, created_at: i128, revoked_at: Option<i128>) -> ApiKeyRecord {
    ApiKeyRecord {
        id,
        org_id: org_id.to_string(),
        name: name.to_string(),
        key_hash: hash.to_string(),
        scopes: vec![ApiKeyScope::MemoryRead],
        created_at,
        revoked_at,
    }
}

#[test]
fn mock_list_api_keys_by_org() {
    let mut store = MockApiKeyStore::new();
    store.insert_api_key(api_key(1, "org_a", "active", "h1", NOW, None)).expect("insert");
    store
        .insert_api_key(api_key(2, "org_a", "revoked", "h2", NOW, Some(NOW)))
        .expect("insert");
    store.insert_api_key(api_key(3, "org_b", "other", "h3", NOW, None)).expect("insert");

    let active_only = store
        .list_api_keys(ApiKeyListQuery {
            org_id: "org_a".to_string(),
            include_revoked: false,
            limit: 100,
            cursor: None,
        })
        .expect("list");
    assert_eq!(active_only.len(), 1);
    assert_eq!(active_only[0].name, "active");

    let with_revoked = store
        .list_api_keys(ApiKeyListQuery {
            org_id: "org_a".to_string(),
            include_revoked: true,
            limit: 100,
            cursor: None,
        })
        .expect("list");
    assert_eq!(with_revoked.len(), 2);

    let org_b = store
        .list_api_keys(ApiKeyListQuery {
            org_id: "org_b".to_string(),
            include_revoked: false,
            limit: 100,
            cursor: None,
        })
        .expect("list");
    assert_eq!(org_b.len(), 1);
    assert_eq!(org_b[0].org_id, "org_b");
}

#[test]
fn mock_api_key_store_insert_find_revoke() {
    let mut store = MockApiKeyStore::new();
    let record = api_key(0xabc, "org_mock", "mock", "hash_token", NOW, None);
    store.insert_api_key(api_key(0xabc, "org_mock", "mock", "hash_token", NOW, None)).expect("insert should succeed");
    let found = store
        .find_by_hash(&record.key_hash)
        .expect("find should succeed")
        .expect("record should exist");
    assert_eq!(found.id, record.id);

    store
        .revoke_api_key("org_mock", record.id, NOW + 1)
        .expect("revoke should succeed");
    assert!(store
        .find_by_hash(&record.key_hash)
        .expect("find should succeed")
        .is_none());
}

#[test]
fn api_key_revocation_errors_and_listing_order() {
    let mut store = MockApiKeyStore::new();
    store.insert_api_key(api_key(1, "org", "old", "a", NOW - 2 * DAY, None)).unwrap();
    store.insert_api_key(api_key(2, "org", "new", "b", NOW, None)).unwrap();
    store.insert_api_key(api_key(3, "org", "mid", "c", NOW - DAY, None)).unwrap();

    match store.revoke_api_key("other_org", 2, NOW) {
        Err(MemcoreError::NotFound(m)) => {
            assert_eq!(m, "api key not found: 00000000-0000-0000-0000-000000000002")
        }
        other => panic!("unexpected {other:?}"),
    }
    store.revoke_api_key("org", 2, NOW).unwrap();
    assert!(matches!(store.revoke_api_key("org", 2, NOW), Err(MemcoreError::NotFound(_))));

    let page = store
        .list_api_keys(ApiKeyListQuery {
            org_id: "org".to_string(),
            include_revoked: true,
            limit: 1,
            cursor: None,
        })
        .unwrap();
    let names: Vec<&str> = page.iter().map(|k| k.name.as_str()).collect();
    assert_eq!(names, vec!["new", "mid"]);
    assert_eq!(page[0].revoked_at, Some(NOW));

    let next = store
        .list_api_keys(ApiKeyListQuery {
            org_id: "org".to_string(),
            include_revoked: true,
            limit: 5,
            cursor: Some(PageCursor {
                last_sort_value: NOW - DAY,
                last_id: 3,
            }),
        })
        .unwrap();
    assert_eq!(next.len(), 1);
    assert_eq!(next[0].name, "old");
}

#[test]
fn mocks_insert_and_get_fact() {
    let mut store = MockFactStore::new();
    let t = tenant("org_a", "user_a");
    let fact = sample_fact(11, "org_a", "user_a", "learning rust", MemoryType::Skill);
    let inserted = store.insert_fact(&t, fact).expect("insert should succeed");
    assert_eq!(inserted.id, 11);
    let fetched = store
        .get_fact(&t, 11)
        .expect("get should succeed")
        .expect("fact should exist");
    assert_eq!(fetched.content, "learning rust");
}

#[test]
fn tenant_isolation_for_facts() {
    let mut store = MockFactStore::new();
    let t_a = tenant("org_a", "user_a");
    let t_b = tenant("org_a", "user_b");
    store
        .insert_fact(&t_a, sample_fact(5, "org_a", "user_a", "private memory", MemoryType::Profile))
        .expect("insert should succeed");
    let cross = store.get_fact(&t_b, 5).expect("get should succeed");
    assert!(cross.is_none());
}

#[test]
fn mocks_search_facts_by_tenant() {
    let mut store = MockFactStore::new();
    let t_a = tenant("org_a", "user_a");
    let t_b = tenant("org_b", "user_b");
    store
        .insert_fact(&t_a, sample_fact(1, "org_a", "user_a", "rust backend", MemoryType::Skill))
        .expect("insert should succeed");
    store
        .insert_fact(&t_b, sample_fact(2, "org_b", "user_b", "rust backend", MemoryType::Skill))
        .expect("insert should succeed");
    let query = FactSearchQuery {
        tenant: t_a,
        memory_types: None,
        query_text: Some("rust".to_string()),
        limit: 10,
        cursor: None,
        include_deleted: false,
    };
    let results = store.search_facts(query).expect("search should succeed");
    assert_eq!(results.len(), 1);
    assert_eq!(results[0].org_id, "org_a");
}

#[test]
fn soft_delete_fact_hides_from_get() {
    let mut store = MockFactStore::new();
    let t = tenant("org_a", "user_a");
    store
        .insert_fact(&t, sample_fact(9, "org_a", "user_a", "to delete", MemoryType::Task))
        .expect("insert should succeed");
    store.soft_delete_fact(&t, 9).expect("soft delete should succeed");
    assert!(store.get_fact(&t, 9).expect("get should succeed").is_none());
}

#[test]
fn retention_dry_run_counts_old_facts_without_deleting() {
    let mut store = MockFactStore::new();
    let t = tenant("org_a", "user_a");
    let cutoff = NOW - 30 * DAY;
    let mut old_fact = sample_fact(1, "org_a", "user_a", "old", MemoryType::Profile);
    old_fact.updated_at = NOW - 60 * DAY;
    store.insert_fact(&t, old_fact).expect("insert old fact");
    store
        .insert_fact(&t, sample_fact(2, "org_a", "user_a", "recent", MemoryType::Profile))
        .expect("insert recent fact");
    let result = store.delete_facts_older_than(&t, cutoff, true).expect("dry-run should succeed");
    assert_eq!(result.count, 1);
    assert!(result.fact_ids.is_empty());
    let listed = store.search_facts(FactSearchQuery::new(t, 10)).expect("search");
    assert_eq!(listed.len(), 2);
}

#[test]
fn retention_apply_soft_deletes_only_matching_tenant() {
    let mut store = MockFactStore::new();
    let t_a = tenant("org_a", "user_a");
    let t_b = tenant("org_a", "user_b");
    let cutoff = NOW - 30 * DAY;
    let mut old_a = sample_fact(1, "org_a", "user_a", "old a", MemoryType::Profile);
    old_a.updated_at = NOW - 60 * DAY;
    store.insert_fact(&t_a, old_a).expect("insert");
    let mut old_b = sample_fact(2, "org_a", "user_b", "old b", MemoryType::Profile);
    old_b.updated_at = NOW - 60 * DAY;
    store.insert_fact(&t_b, old_b).expect("insert");
    let result = store.delete_facts_older_than(&t_a, cutoff, false).expect("apply should succeed");
    assert_eq!(result.count, 1);
    assert_eq!(result.fact_ids, vec![1]);
    let remaining_b = store.search_facts(FactSearchQuery::new(t_b, 10)).expect("search b");
    assert_eq!(remaining_b.len(), 1);
}

#[test]
fn delete_user_data_removes_tenant_facts() {
    let mut store = MockFactStore::new();
    let t_a = tenant("org_a", "user_a");
    let t_b = tenant("org_a", "user_b");
    store
        .insert_fact(&t_a, sample_fact(1, "org_a", "user_a", "user a memory", MemoryType::Profile))
        .expect("insert should succeed");
    store
        .insert_fact(&t_b, sample_fact(2, "org_a", "user_b", "user b memory", MemoryType::Profile))
        .expect("insert should succeed");
    store.delete_user_data(&t_a).expect("delete user data should succeed");
    assert!(store.search_facts(FactSearchQuery::new(t_a, 10)).expect("search").is_empty());
    assert_eq!(store.search_facts(FactSearchQuery::new(t_b, 10)).expect("search").len(), 1);
}

#[test]
fn org_admin_mock_counts_are_org_scoped() {
    let mut store = MockFactStore::new();
    let t_a = tenant("org_mock_admin", "user_a");
    let t_b = tenant("org_mock_admin", "user_b");
    let other = tenant("org_other", "user_x");
    store
        .insert_fact(&t_a, sample_fact(1, "org_mock_admin", "user_a", "one", MemoryType::Profile))
        .expect("insert");
    store
        .insert_fact(&t_b, sample_fact(2, "org_mock_admin", "user_b", "two", MemoryType::Profile))
        .expect("insert");
    store
        .insert_fact(&other, sample_fact(3, "org_other", "user_x", "other", MemoryType::Profile))
        .expect("insert");
    assert_eq!(store.count_facts_by_org("org_mock_admin").expect("count facts"), 2);
    assert_eq!(store.count_users_by_org("org_mock_admin").expect("count users"), 2);
    let users = store
        .list_users_by_org(OrgUserListQuery {
            org_id: "org_mock_admin".to_string(),
            limit: 1,
            cursor: None,
        })
        .expect("list users");
    // one more than the limit, so a caller can tell whether a next page exists
    assert_eq!(users.len(), 2);
}

#[test]
fn memory_event_store_enforces_tenant_on_record() {
    let mut store = MockMemoryEventStore::new(limits());
    let t_a = tenant("org_a", "user_a");
    let t_b = tenant("org_a", "user_b");
    store
        .record_event(&t_a, sample_event(1, &t_a, None, MemoryEventOperation::Add, NOW))
        .expect("record should succeed");
    let error = store
        .record_event(&t_b, sample_event(2, &t_a, None, MemoryEventOperation::Add, NOW))
        .expect_err("cross-tenant record should fail");
    assert_eq!(error, MemcoreError::Forbidden);
}

#[test]
fn org_audit_mock_list_events_by_org() {
    let mut store = MockMemoryEventStore::new(limits());
    let t_a = tenant("org_mock_audit", "user_a");
    let t_b = tenant("org_mock_audit", "user_b");
    let other = tenant("org_other", "user_x");
    store
        .record_event(&t_a, sample_event(1, &t_a, Some(77), MemoryEventOperation::Update, NOW))
        .expect("record");
    store
        .record_event(&t_b, sample_event(2, &t_b, None, MemoryEventOperation::Add, NOW))
        .expect("record");
    store
        .record_event(&other, sample_event(3, &other, None, MemoryEventOperation::Add, NOW))
        .expect("record");
    let events = store
        .list_events_by_org(OrgMemoryEventQuery {
            org_id: "org_mock_audit".to_string(),
            user_id: None,
            fact_id: None,
            operation: None,
            created_after: None,
            created_before: None,
            cursor: None,
            limit: 10,
        })
        .expect("list");
    assert_eq!(events.len(), 2);
}

#[test]
fn event_listing_limits_filters_and_order() {
    let mut store = MockMemoryEventStore::new(limits());
    let t = tenant("org", "user");
    for i in 0..5u128 {
        store
            .record_event(&t, sample_event(i + 1, &t, Some(i % 2), MemoryEventOperation::Add, NOW + i as i128))
            .unwrap();
    }
    let query = |limit: usize, fact_id: Option<u128>| MemoryEventQuery {
        tenant: tenant("org", "user"),
        fact_id,
        operation: None,
        created_after: None,
        created_before: None,
        cursor: None,
        limit,
    };
    let page = store.list_events(query(2, None)).unwrap();
    let ids: Vec<u128> = page.iter().map(|e| e.id).collect();
    assert_eq!(ids, vec![5, 4, 3]);
    let odd = store.list_events(query(10, Some(1))).unwrap();
    let ids: Vec<u128> = odd.iter().map(|e| e.id).collect();
    assert_eq!(ids, vec![4, 2]);
    match store.list_events(query(201, None)) {
        Err(MemcoreError::ValidationError(m)) => assert_eq!(m, "limit cannot exceed 200"),
        other => panic!("unexpected {:?}", other.map(|v| v.len())),
    }
    assert_eq!(store.delete_events_older_than(&t, NOW + 2, true).unwrap(), 2);
    assert_eq!(store.count_events_by_org("org").unwrap(), 5);
    assert_eq!(store.delete_events_older_than(&t, NOW + 2, false).unwrap(), 2);
    assert_eq!(store.count_events_by_org("org").unwrap(), 3);
}

fn vector(id: u128, org_id: &str, user_id: &str, fact_id: u128, embedding: &[f32], memory_type: MemoryType) -> VectorRecord {
    VectorRecord {
        id,
        fact_id,
        org_id: org_id.to_string(),
        user_id: user_id.to_string(),
        embedding_bits: embedding.iter().map(|v| v.to_bits()).collect(),
        content: "c".to_string(),
        memory_type,
        metadata_json: "{\"topic\":\"rust\"}".to_string(),
    }
}

fn search(t: TenantContext, memory_types: Option<Vec<MemoryType>>) -> VectorSearchQuery {
    VectorSearchQuery {
        tenant: t,
        embedding_bits: vec![1.0f32.to_bits(), 0.0f32.to_bits()],
        limit: 5,
        memory_types,
        metadata_filter_json: None,
    }
}

#[test]
fn vector_candidates_are_tenant_and_type_scoped() {
    let mut store = MockVectorStore::new();
    let t_a = tenant("org_a", "user_a");
    let t_b = tenant("org_a", "user_b");
    store.upsert_vector(&t_a, vector(1, "org_a", "user_a", 10, &[1.0, 0.0], MemoryType::Skill)).unwrap();
    store.upsert_vector(&t_a, vector(2, "org_a", "user_a", 11, &[0.0, 1.0], MemoryType::Profile)).unwrap();
    store.upsert_vector(&t_b, vector(3, "org_a", "user_b", 12, &[1.0, 0.0], MemoryType::Skill)).unwrap();
    assert_eq!(
        store.upsert_vector(&t_b, vector(4, "org_a", "user_a", 13, &[1.0, 0.0], MemoryType::Skill)),
        Err(MemcoreError::Forbidden)
    );
    assert_eq!(store.search_candidates(&search(tenant("org_a", "user_a"), None)).len(), 2);
    let skills = store.search_candidates(&search(tenant("org_a", "user_a"), Some(vec![MemoryType::Skill])));
    assert_eq!(skills.len(), 1);
    assert_eq!(skills[0].fact_id, 10);
    // upserting the same id replaces the record
    store.upsert_vector(&t_a, vector(1, "org_a", "user_a", 20, &[1.0, 0.0], MemoryType::Skill)).unwrap();
    let all = store.search_candidates(&search(tenant("org_a", "user_a"), None));
    assert_eq!(all.len(), 2);
    assert!(all.iter().any(|r| r.fact_id == 20));
}

#[test]
fn delete_vector_by_fact_id_and_user() {
    let mut store = MockVectorStore::new();
    let t_a = tenant("org_a", "user_a");
    let t_b = tenant("org_a", "user_b");
    store.upsert_vector(&t_a, vector(1, "org_a", "user_a", 10, &[1.0], MemoryType::Entity)).unwrap();
    store.upsert_vector(&t_b, vector(2, "org_a", "user_b", 10, &[1.0], MemoryType::Entity)).unwrap();
    store.delete_by_fact_id(&t_a, 10).expect("delete by fact id should succeed");
    match store.delete_by_fact_id(&t_a, 10) {
        Err(MemcoreError::NotFound(m)) => assert_eq!(
            m,
            "vector record not found for fact: 00000000-0000-0000-0000-00000000000a"
        ),
        other => panic!("unexpected {other:?}"),
    }
    assert_eq!(store.search_candidates(&search(tenant("org_a", "user_b"), None)).len(), 1);
    store.delete_by_user(&t_b).unwrap();
    assert!(store.search_candidates(&search(tenant("org_a", "user_b"), None)).is_empty());
}

fn plan(org_id: &str, tier: OrgPlanTier, created_at: i128) -> OrgPlanConfig {
    OrgPlanConfig {
        org_id: org_id.to_string(),
        tier,
        limits: OrgPlanLimits {
            max_users_per_org: Some(10),
            max_memories_per_user: Some(20),
            max_memories_per_org: Some(30),
            daily_provider_request_limit: Some(40),
            daily_provider_token_limit: Some(50),
        },
        is_active: true,
        metadata_json: Some("{\"note\":\"test\"}".to_string()),
        created_at,
        updated_at: created_at,
    }
}

#[test]
fn get_missing_plan_returns_none() {
    let store = MockOrgPlanStore::new();
    assert!(store.get_org_plan("org_missing").unwrap().is_none());
}

#[test]
fn upsert_creates_and_updates_plan() {
    let mut store = MockOrgPlanStore::new();
    let created = store.upsert_org_plan(plan("org_1", OrgPlanTier::Free, NOW)).unwrap();
    assert_eq!(created.tier, OrgPlanTier::Free);
    let mut updated = plan("org_1", OrgPlanTier::Pro, NOW + DAY);
    updated.limits.max_users_per_org = Some(99);
    let updated = store.upsert_org_plan(updated).unwrap();
    assert_eq!(updated.tier, OrgPlanTier::Pro);
    assert_eq!(updated.limits.max_users_per_org, Some(99));
    assert_eq!(updated.created_at, created.created_at);
    assert_eq!(updated.updated_at, NOW + DAY);
}

#[test]
fn delete_removes_plan() {
    let mut store = MockOrgPlanStore::new();
    store.upsert_org_plan(plan("org_1", OrgPlanTier::Free, NOW)).unwrap();
    assert!(store.delete_org_plan("org_1").unwrap());
    assert!(!store.delete_org_plan("org_1").unwrap());
    assert!(store.get_org_plan("org_1").unwrap().is_none());
}

#[test]
fn mock_org_isolation_works() {
    let mut store = MockOrgPlanStore::new();
    store.upsert_org_plan(plan("org_a", OrgPlanTier::Free, NOW)).unwrap();
    store.upsert_org_plan(plan("org_b", OrgPlanTier::Enterprise, NOW)).unwrap();
    assert_eq!(store.get_org_plan("org_a").unwrap().unwrap().tier, OrgPlanTier::Free);
    assert_eq!(store.get_org_plan("org_b").unwrap().unwrap().tier, OrgPlanTier::Enterprise);
}

#[test]
fn blank_org_ids_are_refused() {
    let mut store = MockOrgPlanStore::new();
    for result in [store.get_org_plan("  ").map(|_| ()), store.delete_org_plan("").map(|_| ())] {
        match result {
            Err(MemcoreError::ValidationError(m)) => assert_eq!(m, "org_id cannot be empty"),
            other => panic!("unexpected {other:?}"),
        }
    }
    assert!(matches!(
        store.upsert_org_plan(plan(" \t", OrgPlanTier::Free, NOW)),
        Err(MemcoreError::ValidationError(_))
    ));
}
