//! Database backups: where a SQLite database lives, the statement that
//! snapshots it, and what a backup file is found to be from what was seen of
//! it. PostgreSQL backups are not offered.

use vstd::prelude::*;
use crate::errors::MemcoreError;
use crate::text::{chars_of, contains_chars, contains_seq, string_of, trim, trim_chars};

verus! {

/// Database engine a backup is for.
#[derive(Clone, Copy, Debug, PartialEq, Eq, Structural)]
pub enum BackupBackend {
    Sqlite,
    Postgres,
}

/// A request to back up into `output_dir`, optionally labelled.
#[derive(Debug)]
pub struct BackupRequest {
    pub backend: BackupBackend,
    pub output_dir: String,
    pub label: Option<String>,
}

/// A backup that was written.
#[derive(Debug)]
pub struct BackupResult {
    pub backend: BackupBackend,
    pub backup_path: String,
    pub size_bytes: u64,
    pub created_at: i128,
    pub checksum_sha256: String,
}

/// What validating a backup file found.
#[derive(Debug)]
pub struct RestoreValidationResult {
    pub valid: bool,
    pub backend: BackupBackend,
    pub backup_path: String,
    pub size_bytes: u64,
    pub checksum_sha256: String,
    pub issues: Vec<String>,
}

/// `s` starts with `p`.
pub open spec fn has_prefix(s: Seq<char>, p: Seq<char>) -> bool {
    p.len() <= s.len() && s.take(p.len() as int) == p
}

pub fn starts_with(s: &Vec<char>, p: &str) -> (r: bool)
    ensures
        r == has_prefix(s@, p@),
{
    let pc = chars_of(p);
    if pc.len() > s.len() {
        return false;
    }
    let mut i: usize = 0;
    while i < pc.len()
        invariant
            pc@ == p@,
            pc@.len() <= s@.len(),
            i <= pc@.len(),
            forall|j: int| 0 <= j < i ==> s@[j] == pc@[j],
        decreases pc.len() - i,
    {
        if s[i] != pc[i] {
            assert(s@.take(pc@.len() as int)[i as int] != p@[i as int]);
            return false;
        }
        i = i + 1;
    }
    assert(s@.take(pc@.len() as int) =~= p@);
    true
}

fn skip_chars(s: &Vec<char>, n: usize) -> (r: Vec<char>)
    requires
        n <= s@.len(),
    ensures
        r@ == s@.skip(n as int),
{
    let mut r: Vec<char> = Vec::new();
    let mut i: usize = n;
    while i < s.len()
        invariant
            n <= i <= s@.len(),
            r@ == s@.subrange(n as int, i as int),
        decreases s.len() - i,
    {
        r.push(s[i]);
        assert(s@.subrange(n as int, i + 1) =~= s@.subrange(n as int, i as int).push(s@[i as int]));
        i = i + 1;
    }
    assert(s@.subrange(n as int, s@.len() as int) =~= s@.skip(n as int));
    r
}

/// `sqlite:` followed by what follows `sqlite://`, or the URL unchanged.
pub open spec fn normalized_sqlite_url(url: Seq<char>) -> Seq<char> {
    if has_prefix(url, "sqlite://"@) {
        "sqlite:"@ + url.skip(9)
    } else {
        url
    }
}

/// Rewrites a `sqlite://` URL to the `sqlite:` form the driver expects.
pub fn normalize_sqlite_url(database_url: &str) -> (r: String)
    ensures
        r@ == normalized_sqlite_url(database_url@),
{
    let chars = chars_of(database_url);
    proof {
        reveal_strlit("sqlite://");
        reveal_strlit("sqlite:");
    }
    if starts_with(&chars, "sqlite://") {
        let rest = skip_chars(&chars, 9);
        let mut r = String::from_str("sqlite:");
        r.append(string_of(&rest).as_str());
        r
    } else {
        String::from_str(database_url)
    }
}

/// The characters of `s` before its first `c` (all of `s` without one).
pub open spec fn before_first(s: Seq<char>, c: char) -> Seq<char>
    decreases s.len(),
{
    if s.len() == 0 {
        s
    } else if s[0] == c {
        Seq::empty()
    } else {
        seq![s[0]] + before_first(s.skip(1), c)
    }
}

fn before_first_exec(s: &Vec<char>, c: char) -> (r: Vec<char>)
    ensures
        r@ == before_first(s@, c),
        r@.len() <= s@.len(),
        r@ == s@.take(r@.len() as int),
{
    let mut r: Vec<char> = Vec::new();
    let mut i: usize = 0;
    assert(s@.skip(0) =~= s@);
    assert(r@ + before_first(s@, c) =~= before_first(s@, c));
    while i < s.len() && s[i] != c
        invariant
            i <= s@.len(),
            r@ == s@.take(i as int),
            forall|j: int| 0 <= j < i ==> s@[j] != c,
            before_first(s@, c) == r@ + before_first(s@.skip(i as int), c),
        decreases s.len() - i,
    {
        proof {
            let rest = s@.skip(i as int);
            assert(rest[0] == s@[i as int]);
            assert(rest.skip(1) =~= s@.skip(i + 1));
            assert(r@.push(s@[i as int]) + before_first(s@.skip(i + 1), c) =~= r@ + before_first(rest, c));
        }
        r.push(s[i]);
        assert(s@.take(i + 1) =~= s@.take(i as int).push(s@[i as int]));
        i = i + 1;
    }
    proof {
        let rest = s@.skip(i as int);
        if i < s@.len() {
            assert(rest[0] == c);
        } else {
            assert(rest.len() == 0);
        }
        assert(r@ + Seq::<char>::empty() =~= r@);
    }
    r
}

/// The query string of a URL's rest: what follows its first `?`, empty
/// without one.
pub open spec fn query_part(rest: Seq<char>) -> Seq<char> {
    let head = before_first(rest, '?');
    if head.len() < rest.len() {
        rest.skip(head.len() as int + 1)
    } else {
        Seq::empty()
    }
}

/// One of the `&`-separated parameters of the query is `mode=memory`, which
/// makes the driver open a pure in-memory database.
pub open spec fn selects_memory(query: Seq<char>) -> bool {
    contains_seq(seq!['&'] + query + seq!['&'], "&mode=memory&"@)
}

/// The database file a SQLite URL names, if it names one: the part after
/// the scheme and before any `?`, trimmed; in-memory databases (`:memory:`,
/// or a `mode=memory` parameter) name none.
pub open spec fn sqlite_path_of(url: Seq<char>) -> Option<Seq<char>> {
    let n = normalized_sqlite_url(url);
    let rest = if has_prefix(n, "sqlite:"@) {
        n.skip(7)
    } else {
        n
    };
    let path = trim(before_first(rest, '?'));
    if rest.len() == 0 || has_prefix(rest, ":memory:"@) || path.len() == 0 || path == ":memory:"@
        || selects_memory(query_part(rest)) {
        None
    } else {
        Some(path)
    }
}

/// The file path of a SQLite database URL; `None` for in-memory databases.
pub fn sqlite_path_from_database_url(database_url: &str) -> (r: Result<Option<String>, MemcoreError>)
    ensures
        r matches Ok(p) && match sqlite_path_of(database_url@) {
            Some(path) => p matches Some(s) && s@ == path,
            None => p is None,
        },
{
    let normalized = normalize_sqlite_url(database_url);
    let chars = chars_of(normalized.as_str());
    proof {
        reveal_strlit("sqlite:");
        reveal_strlit(":memory:");
    }
    let rest = if starts_with(&chars, "sqlite:") {
        skip_chars(&chars, 7)
    } else {
        chars
    };
    if rest.len() == 0 || starts_with(&rest, ":memory:") {
        return Ok(None);
    }
    let head = before_first_exec(&rest, '?');
    let path = trim_chars(&head);
    if path.len() == 0 || crate::text::str_eq(string_of(&path).as_str(), ":memory:") {
        return Ok(None);
    }
    let mut wrapped: Vec<char> = Vec::new();
    wrapped.push('&');
    if head.len() < rest.len() {
        let query = skip_chars(&rest, head.len() + 1);
        let mut i: usize = 0;
        while i < query.len()
            invariant
                i <= query@.len(),
                wrapped@ == seq!['&'] + query@.take(i as int),
            decreases query.len() - i,
        {
            wrapped.push(query[i]);
            assert(query@.take(i + 1) =~= query@.take(i as int).push(query@[i as int]));
            i = i + 1;
        }
        assert(query@.take(query@.len() as int) =~= query@);
    } else {
        assert(wrapped@ =~= seq!['&'] + Seq::<char>::empty());
    }
    wrapped.push('&');
    assert(wrapped@ =~= seq!['&'] + query_part(rest@) + seq!['&']);
    if contains_chars(&wrapped, &chars_of("&mode=memory&")) {
        return Ok(None);
    }
    Ok(Some(string_of(&path)))
}

/// `s` with every `'` doubled.
pub open spec fn quote_doubled(s: Seq<char>) -> Seq<char>
    decreases s.len(),
{
    if s.len() == 0 {
        s
    } else if s.last() == '\'' {
        quote_doubled(s.drop_last()) + seq!['\'', '\'']
    } else {
        quote_doubled(s.drop_last()).push(s.last())
    }
}

/// A path as the body of a SQL string literal.
pub fn escape_sqlite_path_literal(path: &str) -> (r: String)
    ensures
        r@ == quote_doubled(path@),
{
    let chars = chars_of(path);
    let mut out: Vec<char> = Vec::new();
    for i in 0..chars.len()
        invariant
            chars@ == path@,
            out@ == quote_doubled(chars@.take(i as int)),
    {
        proof {
            assert(chars@.take(i + 1).drop_last() =~= chars@.take(i as int));
        }
        if chars[i] == '\'' {
            out.push('\'');
            out.push('\'');
            assert(out@ =~= quote_doubled(chars@.take(i + 1)));
        } else {
            out.push(chars[i]);
        }
    }
    assert(chars@.take(chars@.len() as int) =~= chars@);
    string_of(&out)
}

/// The statement that snapshots the open database into `path`.
pub open spec fn vacuum_into_text(path: Seq<char>) -> Seq<char> {
    "VACUUM INTO '"@ + quote_doubled(path) + "'"@
}

pub fn vacuum_into_sql(path: &str) -> (r: String)
    ensures
        r@ == vacuum_into_text(path@),
{
    let mut r = String::from_str("VACUUM INTO '");
    r.append(escape_sqlite_path_literal(path).as_str());
    r.append("'");
    r
}

/// Backups of a SQLite database, keeping at most `max_files` of them.
#[derive(Debug)]
pub struct SqliteBackupProvider {
    pub database_url: String,
    pub max_files: usize,
}

impl SqliteBackupProvider {
    pub fn new(database_url: &str, max_files: usize) -> (r: Result<SqliteBackupProvider, MemcoreError>)
        ensures
            if max_files > 0 {
                r matches Ok(p) && p.database_url@ == database_url@ && p.max_files == max_files
            } else {
                r matches Err(MemcoreError::ValidationError(msg)) && msg@ == "backup_max_files must be greater than 0"@
            },
    {
        if max_files == 0 {
            return Err(MemcoreError::ValidationError(String::from_str("backup_max_files must be greater than 0")));
        }
        Ok(SqliteBackupProvider { database_url: String::from_str(database_url), max_files })
    }

    /// Refuses a request for another engine.
    pub fn check_request(&self, request: &BackupRequest) -> (r: Result<(), MemcoreError>)
        ensures
            if request.backend == BackupBackend::Sqlite {
                r is Ok
            } else {
                r matches Err(MemcoreError::ValidationError(msg)) && msg@ == "SqliteBackupProvider only supports sqlite backups"@
            },
    {
        if request.backend != BackupBackend::Sqlite {
            return Err(MemcoreError::ValidationError(String::from_str("SqliteBackupProvider only supports sqlite backups")));
        }
        Ok(())
    }
}

/// A backup never overwrites an existing file.
pub fn require_free_backup_path(taken: bool) -> (r: Result<(), MemcoreError>)
    ensures
        if taken {
            r matches Err(MemcoreError::Conflict(msg)) && msg@ == "backup file already exists"@
        } else {
            r is Ok
        },
{
    if taken {
        return Err(MemcoreError::Conflict(String::from_str("backup file already exists")));
    }
    Ok(())
}

/// When `VACUUM INTO` fails, the database file is copied instead if the URL
/// names one; an in-memory database keeps the failure.
pub fn vacuum_fallback(vacuum_error: MemcoreError, source_path: Option<String>) -> (r: Result<String, MemcoreError>)
    ensures
        match source_path {
            Some(p) => r == Ok::<String, MemcoreError>(p),
            None => r == Err::<String, MemcoreError>(vacuum_error),
        },
{
    match source_path {
        Some(p) => Ok(p),
        None => Err(vacuum_error),
    }
}

/// The copy falls back on a database file that must exist.
pub fn require_source_file(found: bool) -> (r: Result<(), MemcoreError>)
    ensures
        if found {
            r is Ok
        } else {
            r matches Err(MemcoreError::NotFound(msg)) && msg@ == "sqlite database file was not found for backup"@
        },
{
    if !found {
        return Err(MemcoreError::NotFound(String::from_str("sqlite database file was not found for backup")));
    }
    Ok(())
}

/// A created backup must hold something.
pub fn require_nonempty_backup(size_bytes: u64) -> (r: Result<u64, MemcoreError>)
    ensures
        if size_bytes > 0 {
            r == Ok::<u64, MemcoreError>(size_bytes)
        } else {
            r matches Err(MemcoreError::StorageError(msg)) && msg@ == "created backup file was empty"@
        },
{
    if size_bytes == 0 {
        return Err(MemcoreError::StorageError(String::from_str("created backup file was empty")));
    }
    Ok(size_bytes)
}

/// What was read of a backup file before its tables are looked at.
#[derive(Debug)]
pub struct BackupFileFacts {
    pub exists: bool,
    pub is_file: bool,
    /// The size, or the text of the error reading it.
    pub size: Result<u64, String>,
    /// The SHA-256 hex, or the text of the error computing it.
    pub checksum: Result<String, String>,
}

/// The problems a backup file shows before its tables are looked at, in the
/// order they are checked.
pub open spec fn file_issue_texts(f: BackupFileFacts) -> Seq<Seq<char>> {
    if !f.exists {
        seq!["backup file does not exist"@]
    } else if !f.is_file {
        seq!["backup path is not a file"@]
    } else {
        (match f.size {
            Ok(n) => if n == 0 {
                seq!["backup file is empty"@]
            } else {
                Seq::empty()
            },
            Err(e) => seq!["failed to read backup metadata: "@ + e@],
        }) + (match f.checksum {
            Ok(_) => Seq::empty(),
            Err(e) => seq!["failed to compute checksum: "@ + e@],
        })
    }
}

/// The size and checksum a validation reports: what was read, else 0 and
/// empty.
pub open spec fn reported_size(f: BackupFileFacts) -> u64 {
    if f.exists && f.is_file {
        match f.size {
            Ok(n) => n,
            Err(_) => 0,
        }
    } else {
        0
    }
}

pub open spec fn reported_checksum(f: BackupFileFacts) -> Seq<char> {
    if f.exists && f.is_file {
        match f.checksum {
            Ok(c) => c@,
            Err(_) => Seq::empty(),
        }
    } else {
        Seq::empty()
    }
}

/// Whether a backup's tables are looked at: only an existing, readable,
/// non-empty file with a checksum.
pub open spec fn tables_checked(f: BackupFileFacts) -> bool {
    file_issue_texts(f).len() == 0
}

/// What a backup file shows before its tables: its issues, size and checksum.
pub fn backup_file_issues(facts: &BackupFileFacts) -> (r: (Vec<String>, u64, String))
    ensures
        r.0@.map_values(|s: String| s@) == file_issue_texts(*facts),
        r.1 == reported_size(*facts),
        r.2@ == reported_checksum(*facts),
{
    let mut issues: Vec<String> = Vec::new();
    let mut size: u64 = 0;
    let mut checksum = String::new();
    if !facts.exists {
        issues.push(String::from_str("backup file does not exist"));
    } else if !facts.is_file {
        issues.push(String::from_str("backup path is not a file"));
    } else {
        match &facts.size {
            Ok(n) => {
                size = *n;
                if *n == 0 {
                    issues.push(String::from_str("backup file is empty"));
                }
            },
            Err(e) => {
                let mut m = String::from_str("failed to read backup metadata: ");
                m.append(e.as_str());
                issues.push(m);
            },
        }
        let ghost first = issues@.map_values(|s: String| s@);
        match &facts.checksum {
            Ok(c) => {
                checksum = c.clone();
            },
            Err(e) => {
                let mut m = String::from_str("failed to compute checksum: ");
                m.append(e.as_str());
                issues.push(m);
                assert(issues@.map_values(|s: String| s@) =~= first.push("failed to compute checksum: "@ + e@));
            },
        }
    }
    assert(issues@.map_values(|s: String| s@) =~= file_issue_texts(*facts));
    (issues, size, checksum)
}

/// The tables a usable backup holds.
pub open spec fn backup_required_tables() -> Seq<Seq<char>> {
    seq!["schema_migrations"@, "facts"@, "memory_events"@, "api_keys"@]
}

pub fn backup_tables() -> (r: Vec<&'static str>)
    ensures
        r@.map_values(|s: &'static str| s@) == backup_required_tables(),
{
    let mut r: Vec<&'static str> = Vec::new();
    r.push("schema_migrations");
    r.push("facts");
    r.push("memory_events");
    r.push("api_keys");
    assert(r@.map_values(|s: &'static str| s@) =~= backup_required_tables());
    r
}

/// What looking for one table found.
#[derive(Debug)]
pub enum TableProbe {
    Present,
    Missing,
    /// The query failed with this error text.
    Failed(String),
}

pub open spec fn probe_issue(table: Seq<char>, p: TableProbe) -> Seq<Seq<char>> {
    match p {
        TableProbe::Present => Seq::empty(),
        TableProbe::Missing => seq!["required table missing: "@ + table],
        TableProbe::Failed(e) => seq!["failed checking table "@ + table + ": "@ + e@],
    }
}

/// Issues of the first `n` table probes, in order.
pub open spec fn probe_issues(tables: Seq<Seq<char>>, probes: Seq<TableProbe>, n: int) -> Seq<Seq<char>>
    decreases n,
{
    if n <= 0 {
        Seq::empty()
    } else {
        probe_issues(tables, probes, n - 1) + probe_issue(tables[n - 1], probes[n - 1])
    }
}

/// The issues of a backup's tables: the read-only open's failure, or one
/// per table missing or unreadable.
pub fn backup_table_issues(open_error: &Option<String>, tables: &Vec<&'static str>, probes: &Vec<TableProbe>) -> (r: Vec<String>)
    requires
        open_error is None ==> tables@.len() == probes@.len(),
    ensures
        r@.map_values(|s: String| s@) == match open_error {
            Some(e) => seq!["failed to open backup read-only: "@ + e@],
            None => probe_issues(tables@.map_values(|s: &'static str| s@), probes@, tables@.len() as int),
        },
{
    let mut issues: Vec<String> = Vec::new();
    if let Some(e) = open_error {
        let mut m = String::from_str("failed to open backup read-only: ");
        m.append(e.as_str());
        issues.push(m);
        assert(issues@.map_values(|s: String| s@) =~= seq!["failed to open backup read-only: "@ + e@]);
        return issues;
    }
    let ghost names = tables@.map_values(|s: &'static str| s@);
    for i in 0..tables.len()
        invariant
            tables@.len() == probes@.len(),
            names == tables@.map_values(|s: &'static str| s@),
            issues@.map_values(|s: String| s@) == probe_issues(names, probes@, i as int),
    {
        let ghost before = issues@.map_values(|s: String| s@);
        match &probes[i] {
            TableProbe::Present => {
                assert(issues@.map_values(|s: String| s@) =~= before + probe_issue(names[i as int], probes@[i as int]));
            },
            TableProbe::Missing => {
                let mut m = String::from_str("required table missing: ");
                m.append(tables[i]);
                issues.push(m);
                assert(issues@.map_values(|s: String| s@) =~= before + probe_issue(names[i as int], probes@[i as int]));
            },
            TableProbe::Failed(e) => {
                let mut m = String::from_str("failed checking table ");
                m.append(tables[i]);
                m.append(": ");
                m.append(e.as_str());
                issues.push(m);
                assert(issues@.map_values(|s: String| s@) =~= before + probe_issue(names[i as int], probes@[i as int]));
            },
        }
    }
    issues
}

/// The outcome of validating a backup: valid exactly when no issue was found.
pub fn restore_validation(backend: BackupBackend, backup_path: &str, size_bytes: u64, checksum_sha256: String, issues: Vec<String>) -> (r: RestoreValidationResult)
    ensures
        r.valid == (issues@.len() == 0),
        r.backend == backend,
        r.backup_path@ == backup_path@,
        r.size_bytes == size_bytes,
        r.checksum_sha256 == checksum_sha256,
        r.issues == issues,
{
    RestoreValidationResult {
        valid: issues.len() == 0,
        backend,
        backup_path: String::from_str(backup_path),
        size_bytes,
        checksum_sha256,
        issues,
    }
}

/// Backups of PostgreSQL databases, which this crate leaves to managed
/// snapshots or `pg_dump`.
#[derive(Debug, Clone, Copy)]
pub struct PostgresBackupProvider;

impl PostgresBackupProvider {
    pub fn new() -> (r: PostgresBackupProvider) {
        PostgresBackupProvider
    }

    /// Always refused.
    pub fn create_backup(&self, request: BackupRequest) -> (r: Result<BackupResult, MemcoreError>)
        ensures
            r matches Err(MemcoreError::ValidationError(msg))
                && msg@ == "postgres database backup is not implemented; use managed snapshots or pg_dump"@,
    {
        Err(MemcoreError::ValidationError(String::from_str("postgres database backup is not implemented; use managed snapshots or pg_dump")))
    }

    /// Always invalid, with one issue saying why.
    pub fn validate_backup(&self, backup_path: &str) -> (r: Result<RestoreValidationResult, MemcoreError>)
        ensures
            r matches Ok(v) && !v.valid && v.backend == BackupBackend::Postgres && v.backup_path@ == backup_path@
                && v.size_bytes == 0 && v.checksum_sha256@.len() == 0 && v.issues@.len() == 1
                && v.issues@[0]@ == "postgres backup validation is not implemented; use managed snapshots or pg_dump"@,
    {
        let mut issues: Vec<String> = Vec::new();
        issues.push(String::from_str("postgres backup validation is not implemented; use managed snapshots or pg_dump"));
        Ok(RestoreValidationResult {
            valid: false,
            backend: BackupBackend::Postgres,
            backup_path: String::from_str(backup_path),
            size_bytes: 0,
            checksum_sha256: String::new(),
            issues,
        })
    }
}

} // verus!
