use memcore_storage::errors::MemcoreError;
use memcore_storage::qdrant::{
    FilterClause, QdrantVectorStore, map_string, qdrant_search_filter, qdrant_tenant_fact_filter,
    qdrant_tenant_filter, record_to_payload, require_fact_vectors, scored_point_to_result,
};
use memcore_storage::types::{MemoryType, TenantContext};
use memcore_storage::vector::{VectorRecord, VectorSearchQuery};

const FACT: u128 = 0x6ba7b810_9dad_11d1_80b4_00c04fd430c8;
const FACT_TEXT: &str = "6ba7b810-9dad-11d1-80b4-00c04fd430c8";

fn tenant() -> TenantContext {
    TenantContext { org_id: "org-a".to_string(), user_id: "user-1".to_string() }
}

fn pair(clause: &FilterClause) -> (String, String) {
    match clause {
        FilterClause::Match(m) => (m.key.clone(), m.value.clone()),
        FilterClause::AnyOf(_) => panic!("expected a single condition"),
    }
}

fn payload(fields: &[(&str, Option<&str>)]) -> Vec<(String, Option<String>)> {
    fields.iter().map(|(k, v)| (k.to_string(), v.map(|s| s.to_string()))).collect()
}

fn good_payload() -> Vec<(String, Option<String>)> {
    payload(&[
        ("id", Some("00000000-0000-0000-0000-000000000001")),
        ("fact_id", Some(FACT_TEXT)),
        ("org_id", Some("org-a")),
        ("user_id", Some("user-1")),
        ("content", Some("likes tea")),
        ("memory_type", Some("preference")),
        ("metadata", Some("{\"source\":\"chat\"}")),
    ])
}

#[test]
fn tenant_filter_matches_org_and_user() {
    let f = qdrant_tenant_filter(&tenant());
    assert_eq!(f.len(), 2);
    assert_eq!(pair(&f[0]), ("org_id".to_string(), "org-a".to_string()));
    assert_eq!(pair(&f[1]), ("user_id".to_string(), "user-1".to_string()));
}

#[test]
fn tenant_fact_filter_adds_the_fact() {
    let f = qdrant_tenant_fact_filter(&tenant(), FACT);
    assert_eq!(f.len(), 3);
    assert_eq!(pair(&f[2]), ("fact_id".to_string(), FACT_TEXT.to_string()));
}

#[test]
fn search_filter_groups_memory_types() {
    let mut q = VectorSearchQuery {
        tenant: tenant(),
        embedding_bits: vec![0, 0, 0],
        limit: 5,
        memory_types: Some(vec![MemoryType::Profile, MemoryType::Task]),
        metadata_filter_json: None,
    };
    let f = qdrant_search_filter(&q);
    assert_eq!(f.len(), 3);
    match &f[2] {
        FilterClause::AnyOf(ms) => {
            let got: Vec<(String, String)> = ms.iter().map(|m| (m.key.clone(), m.value.clone())).collect();
            assert_eq!(
                got,
                vec![
                    ("memory_type".to_string(), "profile".to_string()),
                    ("memory_type".to_string(), "task".to_string()),
                ]
            );
        }
        FilterClause::Match(_) => panic!("expected a group"),
    }
    q.memory_types = Some(vec![]);
    assert_eq!(qdrant_search_filter(&q).len(), 2);
    q.memory_types = None;
    assert_eq!(qdrant_search_filter(&q).len(), 2);
}

#[test]
fn payload_carries_every_field_as_text() {
    let record = VectorRecord {
        id: 1,
        fact_id: FACT,
        org_id: "org-a".to_string(),
        user_id: "user-1".to_string(),
        embedding_bits: vec![0],
        content: "likes tea".to_string(),
        memory_type: MemoryType::Preference,
        metadata_json: "{}".to_string(),
    };
    let p = record_to_payload(&record);
    let keys: Vec<&str> = p.iter().map(|(k, _)| k.as_str()).collect();
    assert_eq!(keys, vec!["id", "fact_id", "org_id", "user_id", "content", "memory_type", "metadata"]);
    assert_eq!(p[0].1, "00000000-0000-0000-0000-000000000001");
    assert_eq!(p[1].1, FACT_TEXT);
    assert_eq!(p[5].1, "preference");
    assert_eq!(p[6].1, "{}");
}

#[test]
fn map_string_reports_missing_and_non_text_fields() {
    let p = good_payload();
    assert_eq!(map_string(&p, "content").unwrap(), "likes tea");
    assert_eq!(
        map_string(&p, "score"),
        Err(MemcoreError::StorageError("missing qdrant payload field: score missing".to_string()))
    );
    let odd = payload(&[("content", None)]);
    assert_eq!(
        map_string(&odd, "content"),
        Err(MemcoreError::StorageError(
            "invalid qdrant payload value: expected string value".to_string()
        ))
    );
}

#[test]
fn scored_point_reads_back_the_hit() {
    let hit = scored_point_to_result(&good_payload()).unwrap();
    assert_eq!(hit.fact_id, FACT);
    assert_eq!(hit.content, "likes tea");
    assert_eq!(hit.memory_type, MemoryType::Preference);
    assert_eq!(hit.metadata_json, "{\"source\":\"chat\"}");
}

#[test]
fn scored_point_errors_name_the_first_bad_field() {
    assert_eq!(
        scored_point_to_result(&vec![]).unwrap_err(),
        MemcoreError::StorageError("missing qdrant point payload: payload absent".to_string())
    );
    let mut p = good_payload();
    p[1].1 = Some("not-a-uuid".to_string());
    match scored_point_to_result(&p) {
        Err(MemcoreError::StorageError(m)) => {
            assert!(m.starts_with("invalid fact_id uuid in qdrant payload: "), "{m}")
        }
        other => panic!("unexpected {other:?}"),
    }
    let mut p = good_payload();
    p[5].1 = Some("dream".to_string());
    assert!(matches!(scored_point_to_result(&p), Err(MemcoreError::StorageError(_))));
    let mut p = good_payload();
    p[6].1 = Some("{".to_string());
    match scored_point_to_result(&p) {
        Err(MemcoreError::StorageError(m)) => {
            assert!(m.starts_with("invalid metadata json in qdrant payload: "), "{m}")
        }
        other => panic!("unexpected {other:?}"),
    }
    let p = payload(&[("fact_id", Some(FACT_TEXT)), ("memory_type", Some("task")), ("metadata", Some("{}"))]);
    assert_eq!(
        scored_point_to_result(&p).unwrap_err(),
        MemcoreError::StorageError("missing qdrant payload field: content missing".to_string())
    );
}

#[test]
fn deleting_a_fact_without_vectors_is_not_found() {
    assert!(require_fact_vectors(2, FACT).is_ok());
    assert_eq!(
        require_fact_vectors(0, FACT),
        Err(MemcoreError::NotFound(format!("vector record not found for fact: {FACT_TEXT}")))
    );
}

#[test]
fn qdrant_store_needs_dimensions() {
    match QdrantVectorStore::new("memories", 0) {
        Err(MemcoreError::ValidationError(m)) => {
            assert_eq!(m, "embedding dimensions must be greater than 0")
        }
        other => panic!("unexpected {other:?}"),
    }
    let s = QdrantVectorStore::new("memories", 8).unwrap();
    assert_eq!(s.collection_name, "memories");
    assert_eq!(s.dimensions, 8);
}
