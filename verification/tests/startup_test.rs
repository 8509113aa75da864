use memcore_storage::errors::MemcoreError;
use memcore_storage::migrations::{MigrationIssue, MigrationStatus, MigrationValidationReport};
use memcore_storage::startup::{
    MigrationStep, StorageMigrationMode, StorageStartupCheckReport, after_migrations,
    after_table_check, join_names, migration_failure, migration_step, missing_tables,
    required_tables,
};

fn report(clean: bool, pending: usize) -> MigrationValidationReport {
    let issues = (0..pending)
        .map(|i| MigrationIssue {
            version: i as i64 + 1,
            name: "m".to_string(),
            status: MigrationStatus::Pending,
            message: "migration is pending".to_string(),
        })
        .collect();
    MigrationValidationReport {
        clean,
        applied_count: 0,
        pending_count: pending,
        issues,
    }
}

#[test]
fn ready_without_database_is_clean() {
    let r = StorageStartupCheckReport::ready_without_database();
    assert!(r.database_connected);
    assert!(r.migrations_clean);
    assert!(r.migration_report.is_none());
    assert!(r.warnings.is_empty());
}

#[test]
fn disabled_mode_skips_migration_validation() {
    assert_eq!(migration_step(StorageMigrationMode::Disabled), MigrationStep::Skip);
    let progress = after_migrations(StorageMigrationMode::Disabled, true, None).expect("progress");
    assert!(!progress.check_tables);
    let r = after_table_check(progress, true, Vec::new()).expect("startup");
    assert!(r.database_connected);
    assert!(r.migrations_clean);
    assert!(r.migration_report.is_none());
    assert_eq!(r.warnings, vec!["database migration validation is disabled".to_string()]);
}

#[test]
fn validate_only_with_clean_requirement_fails_on_pending_migrations() {
    assert_eq!(migration_step(StorageMigrationMode::ValidateOnly), MigrationStep::Validate);
    assert_eq!(migration_step(StorageMigrationMode::Auto), MigrationStep::Apply);
    let error = after_migrations(StorageMigrationMode::ValidateOnly, true, Some(report(false, 2)))
        .err()
        .expect("pending migrations should fail");
    assert_eq!(error.code(), "migration_error");
    assert_eq!(error, MemcoreError::MigrationError("pending: migration is pending".to_string()));
}

#[test]
fn unclean_report_without_requirement_is_kept() {
    let progress = after_migrations(StorageMigrationMode::ValidateOnly, false, Some(report(false, 1))).expect("p");
    assert!(progress.check_tables);
    assert!(!progress.migrations_clean);
    let missing = missing_tables(&required_tables(), &vec![true, false, true, true, true, true, true, false, true]);
    assert_eq!(missing, vec!["memory_events".to_string(), "background_job_locks".to_string()]);
    let r = after_table_check(progress, false, missing).expect("report");
    assert!(!r.migrations_clean);
    assert_eq!(r.migration_report.as_ref().unwrap().pending_count, 1);
    assert_eq!(
        r.warnings,
        vec!["required tables missing: memory_events, background_job_locks".to_string()]
    );
}

#[test]
fn missing_tables_fail_a_clean_requirement() {
    let progress = after_migrations(StorageMigrationMode::Auto, true, Some(report(true, 0))).expect("p");
    match after_table_check(progress, true, vec!["facts".to_string()]) {
        Err(MemcoreError::MigrationError(m)) => assert_eq!(m, "required table missing after migration"),
        other => panic!("unexpected {:?}", other.map(|r| r.migrations_clean)),
    }
    let progress = after_migrations(StorageMigrationMode::Auto, true, Some(report(true, 0))).expect("p");
    let r = after_table_check(progress, true, Vec::new()).expect("clean");
    assert!(r.migrations_clean);
    assert_eq!(r.migration_report.unwrap().pending_count, 0);
}

#[test]
fn failure_message_and_join() {
    assert_eq!(
        migration_failure(&report(false, 0)),
        MemcoreError::MigrationError("migration validation failed".to_string())
    );
    assert_eq!(join_names(&vec![], ", "), "");
    assert_eq!(join_names(&vec!["a".to_string()], ", "), "a");
    assert_eq!(join_names(&vec!["a".to_string(), "b".to_string(), "c".to_string()], "+"), "a+b+c");
    assert_eq!(required_tables().len(), 9);
}
