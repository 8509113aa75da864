use memcore_storage::backup::{
    BackupBackend, BackupFileFacts, BackupRequest, PostgresBackupProvider, SqliteBackupProvider,
    TableProbe, backup_file_issues, backup_table_issues, backup_tables, escape_sqlite_path_literal,
    normalize_sqlite_url, restore_validation, sqlite_path_from_database_url, vacuum_into_sql,
};
use memcore_storage::errors::MemcoreError;

#[test]
fn sqlite_path_extraction_handles_urls_and_memory() {
    assert_eq!(
        sqlite_path_from_database_url("sqlite://./data/memcore.db")
            .unwrap()
            .unwrap(),
        "./data/memcore.db".to_string()
    );
    assert!(sqlite_path_from_database_url("sqlite::memory:")
        .unwrap()
        .is_none());
}

#[test]
fn sqlite_path_drops_query_and_whitespace() {
    assert_eq!(
        sqlite_path_from_database_url("sqlite:/tmp/x.db?mode=rwc").unwrap(),
        Some("/tmp/x.db".to_string())
    );
    assert_eq!(
        sqlite_path_from_database_url("sqlite:  spaced.db  ?cache=shared").unwrap(),
        Some("spaced.db".to_string())
    );
    assert_eq!(
        sqlite_path_from_database_url("plain.db").unwrap(),
        Some("plain.db".to_string())
    );
    assert!(sqlite_path_from_database_url("").unwrap().is_none());
    assert!(sqlite_path_from_database_url("sqlite:").unwrap().is_none());
    assert!(sqlite_path_from_database_url("sqlite::memory:?cache=shared").unwrap().is_none());
    assert!(sqlite_path_from_database_url("sqlite:?x=1").unwrap().is_none());
    assert!(sqlite_path_from_database_url("sqlite: :memory: ").unwrap().is_none());
}

#[test]
fn sqlite_mode_memory_parameter_names_no_file() {
    assert!(sqlite_path_from_database_url("sqlite://memdb?mode=memory&cache=shared").unwrap().is_none());
    assert!(sqlite_path_from_database_url("sqlite:a.db?cache=shared&mode=memory").unwrap().is_none());
    assert_eq!(
        sqlite_path_from_database_url("sqlite:a.db?mode=memoryx").unwrap(),
        Some("a.db".to_string())
    );
    assert_eq!(
        sqlite_path_from_database_url("sqlite:a.db?xmode=memory").unwrap(),
        Some("a.db".to_string())
    );
}

#[test]
fn sqlite_url_normalization() {
    assert_eq!(normalize_sqlite_url("sqlite://data.db"), "sqlite:data.db");
    assert_eq!(normalize_sqlite_url("sqlite:data.db"), "sqlite:data.db");
    assert_eq!(normalize_sqlite_url("sqlite:///abs/path.db"), "sqlite:/abs/path.db");
    assert_eq!(normalize_sqlite_url("postgres://x"), "postgres://x");
}

#[test]
fn quotes_are_doubled_in_vacuum_statement() {
    assert_eq!(escape_sqlite_path_literal("it's/a'b"), "it''s/a''b");
    assert_eq!(escape_sqlite_path_literal("plain"), "plain");
    assert_eq!(vacuum_into_sql("/tmp/o'k.db"), "VACUUM INTO '/tmp/o''k.db'");
}

#[test]
fn sqlite_provider_requires_positive_max_files() {
    match SqliteBackupProvider::new("sqlite://x.db", 0) {
        Err(MemcoreError::ValidationError(m)) => {
            assert_eq!(m, "backup_max_files must be greater than 0")
        }
        other => panic!("unexpected {other:?}"),
    }
    let provider = SqliteBackupProvider::new("sqlite://x.db", 3).expect("provider");
    assert_eq!(provider.max_files, 3);
    assert_eq!(provider.database_url, "sqlite://x.db");
    let request = BackupRequest {
        backend: BackupBackend::Postgres,
        output_dir: "out".to_string(),
        label: None,
    };
    match provider.check_request(&request) {
        Err(MemcoreError::ValidationError(m)) => {
            assert_eq!(m, "SqliteBackupProvider only supports sqlite backups")
        }
        other => panic!("unexpected {other:?}"),
    }
    let request = BackupRequest {
        backend: BackupBackend::Sqlite,
        output_dir: "out".to_string(),
        label: Some("x".to_string()),
    };
    assert!(provider.check_request(&request).is_ok());
}

#[test]
fn postgres_backups_are_not_offered() {
    let provider = PostgresBackupProvider::new();
    let request = BackupRequest {
        backend: BackupBackend::Postgres,
        output_dir: "out".to_string(),
        label: None,
    };
    match provider.create_backup(request) {
        Err(MemcoreError::ValidationError(m)) => assert_eq!(
            m,
            "postgres database backup is not implemented; use managed snapshots or pg_dump"
        ),
        other => panic!("unexpected {other:?}"),
    }
    let v = provider.validate_backup("/tmp/x.dump").expect("validation result");
    assert!(!v.valid);
    assert_eq!(v.backend, BackupBackend::Postgres);
    assert_eq!(v.backup_path, "/tmp/x.dump");
    assert_eq!(v.size_bytes, 0);
    assert!(v.checksum_sha256.is_empty());
    assert_eq!(
        v.issues,
        vec!["postgres backup validation is not implemented; use managed snapshots or pg_dump".to_string()]
    );
}

#[test]
fn backup_file_checks_report_in_order() {
    let missing = BackupFileFacts {
        exists: false,
        is_file: false,
        size: Ok(10),
        checksum: Ok("abc".to_string()),
    };
    let (issues, size, checksum) = backup_file_issues(&missing);
    assert_eq!(issues, vec!["backup file does not exist".to_string()]);
    assert_eq!(size, 0);
    assert!(checksum.is_empty());

    let dir = BackupFileFacts {
        exists: true,
        is_file: false,
        size: Ok(10),
        checksum: Ok("abc".to_string()),
    };
    assert_eq!(backup_file_issues(&dir).0, vec!["backup path is not a file".to_string()]);

    let empty = BackupFileFacts {
        exists: true,
        is_file: true,
        size: Ok(0),
        checksum: Err("io".to_string()),
    };
    let (issues, size, _) = backup_file_issues(&empty);
    assert_eq!(
        issues,
        vec!["backup file is empty".to_string(), "failed to compute checksum: io".to_string()]
    );
    assert_eq!(size, 0);

    let good = BackupFileFacts {
        exists: true,
        is_file: true,
        size: Ok(4096),
        checksum: Ok("abc".to_string()),
    };
    let (issues, size, checksum) = backup_file_issues(&good);
    assert!(issues.is_empty());
    assert_eq!(size, 4096);
    assert_eq!(checksum, "abc");

    let unreadable = BackupFileFacts {
        exists: true,
        is_file: true,
        size: Err("denied".to_string()),
        checksum: Ok("abc".to_string()),
    };
    assert_eq!(
        backup_file_issues(&unreadable).0,
        vec!["failed to read backup metadata: denied".to_string()]
    );
}

#[test]
fn backup_table_checks() {
    let tables = backup_tables();
    assert_eq!(tables, vec!["schema_migrations", "facts", "memory_events", "api_keys"]);
    let probes = vec![
        TableProbe::Present,
        TableProbe::Missing,
        TableProbe::Failed("boom".to_string()),
        TableProbe::Present,
    ];
    assert_eq!(
        backup_table_issues(&None, &tables, &probes),
        vec![
            "required table missing: facts".to_string(),
            "failed checking table memory_events: boom".to_string(),
        ]
    );
    assert_eq!(
        backup_table_issues(&Some("locked".to_string()), &tables, &Vec::new()),
        vec!["failed to open backup read-only: locked".to_string()]
    );
    let result = restore_validation(BackupBackend::Sqlite, "b.sqlite", 10, "c".to_string(), Vec::new());
    assert!(result.valid);
    let result = restore_validation(
        BackupBackend::Sqlite,
        "b.sqlite",
        10,
        "c".to_string(),
        vec!["x".to_string()],
    );
    assert!(!result.valid);
}
