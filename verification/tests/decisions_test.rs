use memcore_storage::backup::{require_free_backup_path, require_nonempty_backup, require_source_file, vacuum_fallback};
use memcore_storage::hashing::bytes_sha256_hex;
use memcore_storage::parse::{format_instant, parse_instant};
use memcore_storage::cache_keys::{CacheRead, cache_read, invalidation_keys};
use memcore_storage::errors::MemcoreError;
use memcore_storage::facts::{RetentionStep, retention_deleted, retention_step};
use memcore_storage::jobs::{BackgroundJobKind, JobLockRecord, LeaseWrite, lease_write};
use memcore_storage::lance::{BatchColumn, parse_search_batch, parse_search_rows, text_column};
use memcore_storage::qdrant::{record_to_payload, scored_point_to_result};
use memcore_storage::rows::parse_fact_ids;
use memcore_storage::types::MemoryType;
use memcore_storage::vector::VectorRecord;

const FACT: u128 = 0x6ba7b810_9dad_11d1_80b4_00c04fd430c8;
const FACT_TEXT: &str = "6ba7b810-9dad-11d1-80b4-00c04fd430c8";

fn lease(owner: &str, locked_until: i128) -> Option<JobLockRecord> {
    Some(JobLockRecord {
        kind: BackgroundJobKind::MemoryUsageSnapshot,
        owner_id: owner.to_string(),
        locked_until,
        acquired_at: 0,
        heartbeat_at: None,
    })
}

#[test]
fn lease_write_blocks_only_another_owners_running_lease() {
    assert_eq!(lease_write(&None, "a", 10), LeaseWrite::Insert);
    assert_eq!(lease_write(&lease("b", 20), "a", 10), LeaseWrite::Blocked);
    assert_eq!(lease_write(&lease("a", 20), "a", 10), LeaseWrite::Replace);
    assert_eq!(lease_write(&lease("b", 10), "a", 10), LeaseWrite::Replace);
    assert_eq!(lease_write(&lease("b", 5), "a", 10), LeaseWrite::Replace);
}

#[test]
fn cache_reads_evict_expired_and_serve_by_freshness() {
    assert_eq!(cache_read(true, false, false), CacheRead::Evict);
    assert_eq!(cache_read(true, false, true), CacheRead::Evict);
    assert_eq!(cache_read(false, true, false), CacheRead::Hit);
    assert_eq!(cache_read(false, false, false), CacheRead::Miss);
    assert_eq!(cache_read(false, false, true), CacheRead::Hit);
}

#[test]
fn invalidation_deletes_members_then_index() {
    let members = vec!["k1".to_string(), "k2".to_string()];
    assert_eq!(invalidation_keys(&members, "idx"), vec!["k1", "k2", "idx"]);
    assert_eq!(invalidation_keys(&vec![], "idx"), vec!["idx"]);
}

#[test]
fn fact_ids_parse_in_order_or_fail_on_the_first_bad_one() {
    let ids = vec![FACT_TEXT.to_string(), "00000000-0000-0000-0000-000000000002".to_string()];
    assert_eq!(parse_fact_ids(&ids).unwrap(), vec![FACT, 2]);
    let bad = vec![FACT_TEXT.to_string(), "nope".to_string(), "also nope".to_string()];
    match parse_fact_ids(&bad) {
        Err(MemcoreError::StorageError(m)) => assert!(m.starts_with("invalid fact id: "), "{m}"),
        other => panic!("unexpected {other:?}"),
    }
    assert_eq!(parse_fact_ids(&vec![]).unwrap(), Vec::<u128>::new());
}

fn text(values: &[&str]) -> BatchColumn {
    BatchColumn::Text(values.iter().map(|v| v.to_string()).collect())
}

#[test]
fn batch_columns_must_exist_and_hold_text() {
    match text_column("content", BatchColumn::Missing) {
        Err(MemcoreError::StorageError(m)) => assert_eq!(m, "missing content column: column not found"),
        other => panic!("unexpected {other:?}"),
    }
    match text_column("metadata", BatchColumn::NotText) {
        Err(MemcoreError::StorageError(m)) => assert_eq!(m, "invalid metadata column type: expected utf8"),
        other => panic!("unexpected {other:?}"),
    }
    match parse_search_batch(text(&[FACT_TEXT]), BatchColumn::Missing, BatchColumn::NotText, text(&["{}"])) {
        Err(MemcoreError::StorageError(m)) => assert_eq!(m, "missing content column: column not found"),
        other => panic!("unexpected {other:?}"),
    }
}

#[test]
fn batch_rows_read_back_as_hits() {
    let hits = parse_search_batch(
        text(&[FACT_TEXT, "00000000-0000-0000-0000-000000000002"]),
        text(&["likes tea", "works on memcore"]),
        text(&["preference", "project"]),
        text(&["{}", "{\"a\":1}"]),
    )
    .unwrap();
    assert_eq!(hits.len(), 2);
    assert_eq!(hits[0].fact_id, FACT);
    assert_eq!(hits[0].content, "likes tea");
    assert_eq!(hits[0].memory_type, MemoryType::Preference);
    assert_eq!(hits[1].fact_id, 2);
    assert_eq!(hits[1].memory_type, MemoryType::Project);
    assert_eq!(hits[1].metadata_json, "{\"a\":1}");
}

#[test]
fn batch_rows_stop_at_the_first_bad_row() {
    let s = |v: &[&str]| v.iter().map(|x| x.to_string()).collect::<Vec<String>>();
    let r = parse_search_rows(
        &s(&[FACT_TEXT, FACT_TEXT]),
        &s(&["a", "b"]),
        &s(&["task", "dream"]),
        &s(&["{}", "{"]),
    );
    assert_eq!(r.unwrap_err(), MemcoreError::StorageError("invalid memory_type value: dream".to_string()));
    let r = parse_search_rows(&s(&["bad"]), &s(&["a"]), &s(&["task"]), &s(&["{}"]));
    match r {
        Err(MemcoreError::StorageError(m)) => assert!(m.starts_with("invalid fact_id uuid in lancedb row: "), "{m}"),
        other => panic!("unexpected {other:?}"),
    }
    let r = parse_search_rows(&s(&[FACT_TEXT]), &s(&["a"]), &s(&["task"]), &s(&["{"]));
    match r {
        Err(MemcoreError::StorageError(m)) => assert!(m.starts_with("invalid metadata json in lancedb row: "), "{m}"),
        other => panic!("unexpected {other:?}"),
    }
}

#[test]
fn a_written_payload_reads_back_as_its_record() {
    let record = VectorRecord {
        id: 7,
        fact_id: FACT,
        org_id: "org-a".to_string(),
        user_id: "user-1".to_string(),
        embedding_bits: vec![0x3f80_0000],
        content: "likes tea".to_string(),
        memory_type: MemoryType::Skill,
        metadata_json: "{\"source\":\"chat\"}".to_string(),
    };
    let payload: Vec<(String, Option<String>)> =
        record_to_payload(&record).into_iter().map(|(k, v)| (k, Some(v))).collect();
    let hit = scored_point_to_result(&payload).unwrap();
    assert_eq!(hit.fact_id, record.fact_id);
    assert_eq!(hit.content, record.content);
    assert_eq!(hit.memory_type, record.memory_type);
    assert_eq!(hit.metadata_json, record.metadata_json);
}

#[test]
fn instants_are_written_as_rfc3339_text() {
    assert_eq!(format_instant(0).unwrap(), "1970-01-01T00:00:00+00:00");
    assert_eq!(format_instant(1_500_000_000).unwrap(), "1970-01-01T00:00:01.500+00:00");
    assert_eq!(format_instant(-1).unwrap(), "1969-12-31T23:59:59.999999999+00:00");
    let t: i128 = 1_700_000_000_123_456_789;
    assert_eq!(parse_instant(&format_instant(t).unwrap()).unwrap(), t);
    assert_eq!(format_instant(i128::MAX), None);
}

#[test]
fn backup_checksums_are_sha256_hex_of_the_bytes() {
    assert_eq!(bytes_sha256_hex(b"abc"), "ba7816bf8f01cfea414140de5dae2223b00361a396177a9cb410ff61f20015ad");
    assert_eq!(bytes_sha256_hex(b""), "e3b0c44298fc1c149afbf4c8996fb92427ae41e4649b934ca495991b7852b855");
}

#[test]
fn backup_creation_rules() {
    assert!(require_free_backup_path(false).is_ok());
    assert_eq!(
        require_free_backup_path(true),
        Err(MemcoreError::Conflict("backup file already exists".to_string()))
    );
    assert_eq!(
        vacuum_fallback(MemcoreError::StorageError("x".to_string()), Some("/db.sqlite".to_string())),
        Ok("/db.sqlite".to_string())
    );
    assert_eq!(
        vacuum_fallback(MemcoreError::StorageError("x".to_string()), None),
        Err(MemcoreError::StorageError("x".to_string()))
    );
    assert_eq!(
        require_source_file(false),
        Err(MemcoreError::NotFound("sqlite database file was not found for backup".to_string()))
    );
    assert_eq!(require_nonempty_backup(12), Ok(12));
    assert_eq!(
        require_nonempty_backup(0),
        Err(MemcoreError::StorageError("created backup file was empty".to_string()))
    );
}

#[test]
fn retention_dry_run_reports_the_count_without_ids() {
    match retention_step(&vec![1u128, 2u128], true) {
        RetentionStep::Report(result) => {
            assert_eq!(result.count, 2);
            assert!(result.fact_ids.is_empty());
        }
        RetentionStep::SoftDelete => panic!("a dry run writes nothing"),
    }
}

#[test]
fn retention_with_no_matches_reports_zero() {
    match retention_step(&Vec::new(), false) {
        RetentionStep::Report(result) => {
            assert_eq!(result.count, 0);
            assert!(result.fact_ids.is_empty());
        }
        RetentionStep::SoftDelete => panic!("nothing to delete"),
    }
}

#[test]
fn retention_with_matches_soft_deletes_and_reports_rows() {
    assert!(matches!(retention_step(&vec![7u128], false), RetentionStep::SoftDelete));
    let result = retention_deleted(vec![7u128, 8u128], 2);
    assert_eq!(result.count, 2);
    assert_eq!(result.fact_ids, vec![7u128, 8u128]);
    let fewer = retention_deleted(vec![7u128, 8u128], 1);
    assert_eq!(fewer.count, 1);
    assert_eq!(fewer.fact_ids, vec![7u128, 8u128]);
}
