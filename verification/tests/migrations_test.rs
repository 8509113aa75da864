use memcore_storage::errors::MemcoreError;
use memcore_storage::migrations::{
    AppliedMigration, Migration, MigrationIssue, MigrationStatus, MigrationValidationReport,
    migration_checksum, plan_pending_migrations, select_by_version, sorted_migrations,
    split_sql_statements, validate_applied_migrations,
};

fn migration(version: i64, sql: &'static str) -> Migration {
    Migration::new(version, "test", sql)
}

fn applied(version: i64, name: &str, checksum: &str) -> AppliedMigration {
    AppliedMigration {
        version,
        name: name.to_string(),
        checksum: checksum.to_string(),
        applied_at: 0,
    }
}

#[test]
fn checksum_is_stable_and_normalizes_line_endings() {
    assert_eq!(
        migration_checksum("SELECT 1;\n"),
        migration_checksum("SELECT 1;\r\n")
    );
    assert_ne!(
        migration_checksum("SELECT 1;"),
        migration_checksum("SELECT 2;")
    );
}

#[test]
fn migrations_sort_by_version() {
    let sorted = sorted_migrations(&[migration(2, "SELECT 2;"), migration(1, "SELECT 1;")])
        .expect("sort");
    assert_eq!(sorted[0].version, 1);
    assert_eq!(sorted[1].version, 2);
}

#[test]
fn duplicate_migration_versions_are_detected() {
    let error = sorted_migrations(&[migration(1, "SELECT 1;"), migration(1, "SELECT 2;")])
        .expect_err("duplicate should fail");
    assert_eq!(error.code(), "migration_error");
}

#[test]
fn validation_reports_pending_checksum_and_missing_issues() {
    let coded = vec![migration(1, "SELECT 1;"), migration(2, "SELECT 2;")];
    let applied = vec![
        applied(1, "test", "different"),
        AppliedMigration {
            version: 3,
            name: "removed".to_string(),
            checksum: migration_checksum("SELECT 3;"),
            applied_at: 0,
        },
    ];

    let report = validate_applied_migrations(&coded, &applied).expect("validate");
    assert!(!report.clean);
    assert_eq!(report.pending_count, 1);
    assert!(report
        .issues
        .iter()
        .any(|issue| issue.status == MigrationStatus::ChecksumMismatch));
    assert!(report
        .issues
        .iter()
        .any(|issue| issue.status == MigrationStatus::Pending));
    assert!(report
        .issues
        .iter()
        .any(|issue| issue.status == MigrationStatus::MissingFromCode));
}

#[test]
fn checksum_is_lowercase_sha256_hex_of_normalized_sql() {
    assert_eq!(
        migration_checksum(""),
        "e3b0c44298fc1c149afbf4c8996fb92427ae41e4649b934ca495991b7852b855"
    );
    assert_eq!(
        migration_checksum("abc"),
        "ba7816bf8f01cfea414140de5dae2223b00361a396177a9cb410ff61f20015ad"
    );
    assert_eq!(migration_checksum("a\r\nb"), migration_checksum("a\nb"));
    assert_ne!(migration_checksum("a\rb"), migration_checksum("ab"));
}

#[test]
fn migration_new_keeps_fields_and_computes_checksum() {
    let m = Migration::new(7, "seven", "CREATE TABLE t (id INTEGER);");
    assert_eq!(m.version, 7);
    assert_eq!(m.name, "seven");
    assert_eq!(m.sql, "CREATE TABLE t (id INTEGER);");
    assert_eq!(m.checksum, migration_checksum("CREATE TABLE t (id INTEGER);"));
}

#[test]
fn duplicate_error_names_the_smallest_repeated_version() {
    let error = sorted_migrations(&[
        migration(5, "a"),
        migration(3, "b"),
        migration(5, "c"),
        migration(3, "d"),
    ])
    .expect_err("duplicates");
    match error {
        MemcoreError::MigrationError(message) => {
            assert_eq!(message, "duplicate migration version: 3")
        }
        other => panic!("unexpected error {other:?}"),
    }
}

#[test]
fn negative_duplicate_version_is_reported_with_sign() {
    let error = sorted_migrations(&[migration(-4, "a"), migration(-4, "b")]).expect_err("dup");
    match error {
        MemcoreError::MigrationError(message) => {
            assert_eq!(message, "duplicate migration version: -4")
        }
        other => panic!("unexpected error {other:?}"),
    }
}

#[test]
fn sorted_order_is_ascending_for_many_versions() {
    let sorted = sorted_migrations(&[
        migration(9, "9"),
        migration(-1, "-1"),
        migration(4, "4"),
        migration(0, "0"),
    ])
    .expect("sort");
    let versions: Vec<i64> = sorted.iter().map(|m| m.version).collect();
    assert_eq!(versions, vec![-1, 0, 4, 9]);
}

#[test]
fn validation_issue_order_messages_and_counts() {
    let coded = vec![migration(2, "B"), migration(1, "A"), migration(3, "C")];
    let one = migration_checksum("A");
    let applied = vec![
        applied(1, "x", "stale"),
        applied(1, "x", &one),
        applied(9, "gone", "z"),
        applied(8, "also gone", "z"),
    ];
    let report = validate_applied_migrations(&coded, &applied).expect("validate");
    // version 1 matches through its last record; 2 and 3 are pending.
    let statuses: Vec<MigrationStatus> = report.issues.iter().map(|i| i.status).collect();
    assert_eq!(
        statuses,
        vec![
            MigrationStatus::Pending,
            MigrationStatus::Pending,
            MigrationStatus::MissingFromCode,
            MigrationStatus::MissingFromCode,
        ]
    );
    let versions: Vec<i64> = report.issues.iter().map(|i| i.version).collect();
    assert_eq!(versions, vec![2, 3, 9, 8]);
    assert_eq!(report.issues[0].message, "migration is pending");
    assert_eq!(report.issues[2].message, "applied migration is missing from code");
    assert_eq!(report.issues[2].name, "gone");
    assert_eq!(report.pending_count, 2);
    assert_eq!(report.applied_count, 4);
    assert!(!report.clean);
}

#[test]
fn checksum_mismatch_message_and_clean_report() {
    let coded = vec![migration(1, "A")];
    let report = validate_applied_migrations(&coded, &[applied(1, "a", "bad")]).expect("v");
    assert_eq!(report.issues.len(), 1);
    assert_eq!(report.issues[0].status, MigrationStatus::ChecksumMismatch);
    assert_eq!(report.issues[0].message, "migration checksum mismatch");
    assert_eq!(report.pending_count, 0);
    assert!(report.has_blocking_issues());

    let good = migration_checksum("A");
    let report = validate_applied_migrations(&coded, &[applied(1, "a", &good)]).expect("v");
    assert!(report.clean);
    assert!(report.issues.is_empty());
    assert!(!report.has_blocking_issues());
}

#[test]
fn validation_fails_on_duplicate_code_versions() {
    let coded = vec![migration(2, "A"), migration(2, "B")];
    let error = validate_applied_migrations(&coded, &[]).expect_err("dup");
    assert_eq!(error.code(), "migration_error");
}

#[test]
fn status_labels() {
    assert_eq!(MigrationStatus::Applied.as_str(), "applied");
    assert_eq!(MigrationStatus::Pending.as_str(), "pending");
    assert_eq!(MigrationStatus::ChecksumMismatch.as_str(), "checksum_mismatch");
    assert_eq!(MigrationStatus::MissingFromCode.as_str(), "missing_from_code");
}

#[test]
fn pending_issues_do_not_block() {
    let report = MigrationValidationReport {
        clean: false,
        applied_count: 0,
        pending_count: 1,
        issues: vec![MigrationIssue {
            version: 1,
            name: "a".to_string(),
            status: MigrationStatus::Pending,
            message: "migration is pending".to_string(),
        }],
    };
    assert!(!report.has_blocking_issues());
    let blocking = MigrationValidationReport {
        clean: false,
        applied_count: 1,
        pending_count: 0,
        issues: vec![MigrationIssue {
            version: 2,
            name: "b".to_string(),
            status: MigrationStatus::MissingFromCode,
            message: "applied migration is missing from code".to_string(),
        }],
    };
    assert!(blocking.has_blocking_issues());
}

#[test]
fn split_statements_trims_and_drops_empty_pieces() {
    assert_eq!(
        split_sql_statements("CREATE TABLE a (x INT);\n  INSERT INTO a VALUES (1) ;;\n\t"),
        vec!["CREATE TABLE a (x INT)".to_string(), "INSERT INTO a VALUES (1)".to_string()]
    );
    assert!(split_sql_statements("").is_empty());
    assert!(split_sql_statements(" ; ;\n").is_empty());
    assert_eq!(split_sql_statements("SELECT 1"), vec!["SELECT 1".to_string()]);
}

#[test]
fn pending_plan_lists_unapplied_in_version_order() {
    let coded = vec![migration(3, "C"), migration(1, "A"), migration(2, "B")];
    let clean = MigrationValidationReport {
        clean: false,
        applied_count: 1,
        pending_count: 2,
        issues: Vec::new(),
    };
    let plan = plan_pending_migrations(&coded, &clean, &[applied(2, "b", "x")]).expect("plan");
    let versions: Vec<i64> = plan.iter().map(|m| m.version).collect();
    assert_eq!(versions, vec![1, 3]);

    let blocked = MigrationValidationReport {
        clean: false,
        applied_count: 1,
        pending_count: 0,
        issues: vec![MigrationIssue {
            version: 2,
            name: "b".to_string(),
            status: MigrationStatus::ChecksumMismatch,
            message: "migration checksum mismatch".to_string(),
        }],
    };
    match plan_pending_migrations(&coded, &blocked, &[]) {
        Err(MemcoreError::MigrationError(message)) => assert_eq!(
            message,
            "migration validation failed before applying pending migrations"
        ),
        other => panic!("unexpected {other:?}"),
    }
}

#[test]
fn select_by_version_keeps_listed_versions_in_order() {
    let coded = vec![migration(4, "D"), migration(2, "B"), migration(1, "A")];
    let chosen = select_by_version(&coded, &vec![4, 1, 7], true).expect("select");
    let versions: Vec<i64> = chosen.iter().map(|m| m.version).collect();
    assert_eq!(versions, vec![1, 4]);
    let rest = select_by_version(&coded, &vec![4, 1, 7], false).expect("select");
    assert_eq!(rest.len(), 1);
    assert_eq!(rest[0].version, 2);
}

#[test]
fn report_does_not_depend_on_migration_order() {
    let given = vec![migration(3, "C;"), migration(1, "A;"), migration(2, "B;")];
    let permuted = vec![migration(2, "B;"), migration(3, "C;"), migration(1, "A;")];
    let recorded = vec![applied(1, "test", "stale"), applied(9, "gone", "x")];
    let a = validate_applied_migrations(&given, &recorded).expect("validate");
    let b = validate_applied_migrations(&permuted, &recorded).expect("validate");
    assert_eq!(format!("{a:?}"), format!("{b:?}"));
    assert_eq!(a.pending_count, 2);
}

#[test]
fn permuted_duplicates_give_the_same_error() {
    let first = sorted_migrations(&[
        migration(9, "a"),
        migration(4, "b"),
        migration(9, "c"),
        migration(4, "d"),
        migration(1, "e"),
    ])
    .expect_err("duplicates");
    let second = sorted_migrations(&[
        migration(4, "d"),
        migration(1, "e"),
        migration(9, "c"),
        migration(4, "b"),
        migration(9, "a"),
    ])
    .expect_err("duplicates");
    match (first, second) {
        (MemcoreError::MigrationError(a), MemcoreError::MigrationError(b)) => {
            assert_eq!(a, "duplicate migration version: 4");
            assert_eq!(a, b);
        }
        other => panic!("unexpected errors {other:?}"),
    }
}
