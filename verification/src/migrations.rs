//! Schema migrations: checksums, version ordering, and the comparison of the
//! migrations in code with those a database records as applied.

use vstd::prelude::*;
use crate::errors::MemcoreError;
use crate::hashing::{sha256_hex, sha256_hex_text};
use crate::pagination::{is_top_positions, ranks_before, top_desc_positions};
use crate::text::{chars_of, crlf_to_lf, int_text, normalize_line_endings, push_i64, split_on, string_of, trim, trim_chars};

verus! {

/// One migration in code.
#[derive(Debug)]
pub struct Migration {
    pub version: i64,
    pub name: &'static str,
    pub sql: &'static str,
    pub checksum: String,
}

/// A migration a database records as applied; `applied_at` is nanoseconds
/// since the Unix epoch.
#[derive(Debug)]
pub struct AppliedMigration {
    pub version: i64,
    pub name: String,
    pub checksum: String,
    pub applied_at: i128,
}

#[derive(Clone, Copy, Debug, PartialEq, Eq, Structural)]
pub enum MigrationStatus {
    Applied,
    Pending,
    ChecksumMismatch,
    MissingFromCode,
}

/// A difference between code and database.
#[derive(Debug)]
pub struct MigrationIssue {
    pub version: i64,
    pub name: String,
    pub status: MigrationStatus,
    pub message: String,
}

pub struct MigrationIssueView {
    pub version: i64,
    pub name: Seq<char>,
    pub status: MigrationStatus,
    pub message: Seq<char>,
}

impl View for MigrationIssue {
    type V = MigrationIssueView;

    open spec fn view(&self) -> MigrationIssueView {
        MigrationIssueView {
            version: self.version,
            name: self.name@,
            status: self.status,
            message: self.message@,
        }
    }
}

/// Outcome of comparing code migrations with applied ones.
#[derive(Debug)]
pub struct MigrationValidationReport {
    pub clean: bool,
    pub applied_count: usize,
    pub pending_count: usize,
    pub issues: Vec<MigrationIssue>,
}

/// Checksum text of a migration's SQL: SHA-256 hex of the text with CR LF
/// line endings turned into LF.
pub open spec fn checksum_text(sql: Seq<char>) -> Seq<char> {
    sha256_hex_text(crlf_to_lf(sql))
}

/// Checksum of a migration's SQL, insensitive to CR LF versus LF endings.
pub fn migration_checksum(sql: &str) -> (r: String)
    ensures
        r@ == checksum_text(sql@),
        r@.len() == 64,
{
    let normalized = normalize_line_endings(sql);
    sha256_hex(normalized.as_str())
}

impl Migration {
    pub fn new(version: i64, name: &'static str, sql: &'static str) -> (m: Migration)
        ensures
            m.version == version,
            m.name == name,
            m.sql == sql,
            m.checksum@ == checksum_text(sql@),
    {
        Migration { version, name, sql, checksum: migration_checksum(sql) }
    }

    pub fn duplicate(&self) -> (r: Migration)
        ensures
            r == *self,
    {
        Migration {
            version: self.version,
            name: self.name,
            sql: self.sql,
            checksum: self.checksum.clone(),
        }
    }
}

impl MigrationStatus {
    pub open spec fn label(self) -> Seq<char> {
        match self {
            MigrationStatus::Applied => "applied"@,
            MigrationStatus::Pending => "pending"@,
            MigrationStatus::ChecksumMismatch => "checksum_mismatch"@,
            MigrationStatus::MissingFromCode => "missing_from_code"@,
        }
    }

    pub fn as_str(self) -> (r: &'static str)
        ensures
            r@ == self.label(),
    {
        proof {
            reveal_strlit("applied");
            reveal_strlit("pending");
            reveal_strlit("checksum_mismatch");
            reveal_strlit("missing_from_code");
        }
        match self {
            MigrationStatus::Applied => "applied",
            MigrationStatus::Pending => "pending",
            MigrationStatus::ChecksumMismatch => "checksum_mismatch",
            MigrationStatus::MissingFromCode => "missing_from_code",
        }
    }
}

/// A checksum mismatch or a migration missing from code blocks applying.
pub open spec fn is_blocking(status: MigrationStatus) -> bool {
    status == MigrationStatus::ChecksumMismatch || status == MigrationStatus::MissingFromCode
}

impl MigrationValidationReport {
    pub fn has_blocking_issues(&self) -> (r: bool)
        ensures
            r == exists|k: int| 0 <= k < self.issues@.len() && is_blocking(#[trigger] self.issues@[k].status),
    {
        let mut k: usize = 0;
        while k < self.issues.len()
            invariant
                k <= self.issues@.len(),
                forall|j: int| 0 <= j < k ==> !is_blocking(#[trigger] self.issues@[j].status),
            decreases self.issues.len() - k,
        {
            let st = self.issues[k].status;
            if st == MigrationStatus::ChecksumMismatch || st == MigrationStatus::MissingFromCode {
                return true;
            }
            k = k + 1;
        }
        false
    }
}

/// No two migrations share a version.
pub open spec fn versions_distinct(s: Seq<Migration>) -> bool {
    forall|i: int, j: int| 0 <= i < s.len() && 0 <= j < s.len() && i != j ==> (#[trigger] s[i]).version != (#[trigger] s[j]).version
}

/// Version `v` occurs at least twice.
pub open spec fn version_repeats(s: Seq<Migration>, v: i64) -> bool {
    exists|i: int, j: int| 0 <= i < s.len() && 0 <= j < s.len() && i != j && (#[trigger] s[i]).version == v && (#[trigger] s[j]).version == v
}

/// `v` is the smallest version that occurs at least twice.
pub open spec fn smallest_repeated_version(s: Seq<Migration>, v: i64) -> bool {
    version_repeats(s, v) && forall|w: i64| w < v ==> !version_repeats(s, w)
}

/// `sorted` holds the migrations of `s` in strictly ascending version order.
pub open spec fn is_version_sorted(s: Seq<Migration>, sorted: Seq<Migration>) -> bool {
    &&& sorted.len() == s.len()
    &&& sorted.to_set() == s.to_set()
    &&& forall|i: int, j: int| 0 <= i < j < sorted.len() ==> (#[trigger] sorted[i]).version < (#[trigger] sorted[j]).version
}

pub open spec fn duplicate_version_text(v: i64) -> Seq<char> {
    "duplicate migration version: "@ + int_text(v as int)
}

/// The migrations in ascending version order, or the smallest repeated version.
pub fn sorted_migrations(migrations: &[Migration]) -> (r: Result<Vec<Migration>, MemcoreError>)
    ensures
        match r {
            Ok(sorted) => versions_distinct(migrations@) && is_version_sorted(migrations@, sorted@),
            Err(MemcoreError::MigrationError(msg)) => !versions_distinct(migrations@) && exists|v: i64|
                smallest_repeated_version(migrations@, v) && msg@ == duplicate_version_text(v),
            Err(_) => false,
        },
{
    let mut keys: Vec<(i128, u128)> = Vec::new();
    for i in 0..migrations.len()
        invariant
            keys@.len() == i,
            forall|m: int| 0 <= m < i ==> #[trigger] keys@[m] == version_key(migrations@[m].version),
    {
        let v: i128 = migrations[i].version as i128;
        keys.push((-v, 0u128));
    }
    let out = top_desc_positions(&keys, migrations.len());
    let mut sorted: Vec<Migration> = Vec::new();
    for k in 0..out.len()
        invariant
            is_top_positions(keys@, migrations@.len() as int, out@),
            keys@.len() == migrations@.len(),
            forall|m: int| 0 <= m < migrations@.len() ==> #[trigger] keys@[m] == version_key(migrations@[m].version),
            sorted@.len() == k,
            forall|m: int| 0 <= m < k ==> sorted@[m] == migrations@[#[trigger] out@[m] as int],
    {
        sorted.push(migrations[out[k]].duplicate());
    }
    proof {
        lemma_sorted_nondecreasing(migrations@, keys@, out@, sorted@);
    }
    let mut k: usize = 0;
    while k + 1 < sorted.len()
        invariant
            sorted@.len() == migrations@.len(),
            sort_setup(migrations@, keys@, out@, sorted@),
            forall|i: int, j: int| 0 <= i < j < sorted@.len() ==> (#[trigger] sorted@[i]).version <= (#[trigger] sorted@[j]).version,
            k == 0 || k < sorted@.len(),
            forall|j: int| 0 <= j < k && j + 1 < sorted@.len() ==> (#[trigger] sorted@[j]).version < sorted@[j + 1].version,
        decreases sorted.len() - k,
    {
        if sorted[k].version == sorted[k + 1].version {
            let v = sorted[k].version;
            let mut msg = String::from_str("duplicate migration version: ");
            push_i64(&mut msg, v);
            proof {
                lemma_first_repeat_is_smallest(migrations@, keys@, out@, sorted@, k as int);
                assert(smallest_repeated_version(migrations@, v));
                assert(msg@ == duplicate_version_text(v));
                assert(!versions_distinct(migrations@));
            }
            return Err(MemcoreError::MigrationError(msg));
        }
        k = k + 1;
    }
    proof {
        lemma_sorted_strict(migrations@, keys@, out@, sorted@);
    }
    Ok(sorted)
}

/// Sort key that puts smaller versions first in a descending listing.
spec fn version_key(v: i64) -> (i128, u128) {
    ((-(v as int)) as i128, 0u128)
}

/// Facts every caller of the sort below relies on.
spec fn sort_setup(s: Seq<Migration>, keys: Seq<(i128, u128)>, out: Seq<usize>, sorted: Seq<Migration>) -> bool {
    &&& keys.len() == s.len()
    &&& s.len() <= usize::MAX
    &&& forall|m: int| 0 <= m < s.len() ==> #[trigger] keys[m] == version_key(s[m].version)
    &&& is_top_positions(keys, s.len() as int, out)
    &&& sorted.len() == out.len()
    &&& forall|m: int| 0 <= m < sorted.len() ==> sorted[m] == s[#[trigger] out[m] as int]
}

proof fn lemma_sorted_nondecreasing(s: Seq<Migration>, keys: Seq<(i128, u128)>, out: Seq<usize>, sorted: Seq<Migration>)
    requires
        keys.len() == s.len(),
        forall|m: int| 0 <= m < s.len() ==> #[trigger] keys[m] == version_key(s[m].version),
        is_top_positions(keys, s.len() as int, out),
        sorted.len() == out.len(),
        forall|m: int| 0 <= m < sorted.len() ==> sorted[m] == s[#[trigger] out[m] as int],
    ensures
        sorted.len() == s.len(),
        forall|i: int, j: int| 0 <= i < j < sorted.len() ==> (#[trigger] sorted[i]).version <= (#[trigger] sorted[j]).version,
        forall|i: int| 0 <= i < s.len() ==> #[trigger] out.contains(i as usize),
        out.no_duplicates(),
{
    assert forall|i: int, j: int| 0 <= i < j < sorted.len() implies (#[trigger] sorted[i]).version <= (#[trigger] sorted[j]).version by {
        assert(ranks_before(keys, out[i] as int, out[j] as int));
        assert(keys[out[i] as int] == version_key(s[out[i] as int].version));
        assert(keys[out[j] as int] == version_key(s[out[j] as int].version));
    }
    assert forall|a: int, b: int| 0 <= a < out.len() && 0 <= b < out.len() && a != b implies out[a] != out[b] by {
        if a < b {
            assert(ranks_before(keys, out[a] as int, out[b] as int));
        } else {
            assert(ranks_before(keys, out[b] as int, out[a] as int));
        }
    }
}

proof fn lemma_sorted_strict(s: Seq<Migration>, keys: Seq<(i128, u128)>, out: Seq<usize>, sorted: Seq<Migration>)
    requires
        sort_setup(s, keys, out, sorted),
        forall|j: int| 0 <= j && j + 1 < sorted.len() ==> (#[trigger] sorted[j]).version < sorted[j + 1].version,
    ensures
        versions_distinct(s),
        is_version_sorted(s, sorted),
{
    lemma_sorted_nondecreasing(s, keys, out, sorted);
    assert forall|i: int, j: int| 0 <= i < j < sorted.len() implies (#[trigger] sorted[i]).version < (#[trigger] sorted[j]).version by {
        assert(sorted[i].version < sorted[i + 1].version);
        if i + 1 < j {
            assert(sorted[i + 1].version <= sorted[j].version);
        }
    }
    // each input position sits at some sorted index
    assert forall|i: int, j: int| 0 <= i < s.len() && 0 <= j < s.len() && i != j implies (#[trigger] s[i]).version != (#[trigger] s[j]).version by {
        assert(out.contains(i as usize));
        assert(out.contains(j as usize));
        let a = choose|a: int| 0 <= a < out.len() && out[a] == i as usize;
        let b = choose|b: int| 0 <= b < out.len() && out[b] == j as usize;
        assert(sorted[a] == s[i]);
        assert(sorted[b] == s[j]);
        if a < b {
            assert(sorted[a].version < sorted[b].version);
        } else {
            assert(sorted[b].version < sorted[a].version);
        }
    }
    assert forall|x: Migration| sorted.to_set().contains(x) <==> s.to_set().contains(x) by {
        if sorted.contains(x) {
            let a = choose|a: int| 0 <= a < sorted.len() && sorted[a] == x;
            assert(s[out[a] as int] == x);
        }
        if s.contains(x) {
            let i = choose|i: int| 0 <= i < s.len() && s[i] == x;
            assert(out.contains(i as usize));
            let a = choose|a: int| 0 <= a < out.len() && out[a] == i as usize;
            assert(sorted[a] == x);
        }
    }
    assert(sorted.to_set() =~= s.to_set());
}

proof fn lemma_first_repeat_is_smallest(s: Seq<Migration>, keys: Seq<(i128, u128)>, out: Seq<usize>, sorted: Seq<Migration>, k: int)
    requires
        sort_setup(s, keys, out, sorted),
        0 <= k,
        k + 1 < sorted.len(),
        sorted[k].version == sorted[k + 1].version,
        forall|j: int| 0 <= j < k && j + 1 < sorted.len() ==> (#[trigger] sorted[j]).version < sorted[j + 1].version,
    ensures
        !versions_distinct(s),
        smallest_repeated_version(s, sorted[k].version),
{
    lemma_sorted_nondecreasing(s, keys, out, sorted);
    let v = sorted[k].version;
    let i0 = out[k] as int;
    let j0 = out[k + 1] as int;
    assert(out[k] != out[k + 1]);
    assert(s[i0].version == v && s[j0].version == v);
    assert(version_repeats(s, v));
    assert forall|w: i64| w < v implies !version_repeats(s, w) by {
        if version_repeats(s, w) {
            let (p, q) = choose|p: int, q: int| 0 <= p < s.len() && 0 <= q < s.len() && p != q && (#[trigger] s[p]).version == w && (#[trigger] s[q]).version == w;
            assert(out.contains(p as usize));
            assert(out.contains(q as usize));
            let a = choose|a: int| 0 <= a < out.len() && out[a] == p as usize;
            let b = choose|b: int| 0 <= b < out.len() && out[b] == q as usize;
            assert(a != b);
            assert(sorted[a].version == w && sorted[b].version == w);
            let lo = if a < b { a } else { b };
            let hi = if a < b { b } else { a };
            // both sit before k, and everything between them equals w
            if hi >= k {
                if hi == k {
                    assert(sorted[hi].version == v);
                } else {
                    assert(sorted[k].version <= sorted[hi].version);
                }
            }
            assert(hi < k);
            assert(sorted[lo].version <= sorted[hi - 1].version);
            assert(sorted[hi - 1].version <= sorted[hi].version);
            assert(sorted[hi - 1].version < sorted[hi].version);
        }
    }
}


/// Index of the last applied record with version `v` among the first `n`,
/// or -1: a later record for a version replaces an earlier one.
pub open spec fn last_applied(applied: Seq<AppliedMigration>, v: i64, n: int) -> int
    decreases n,
{
    if n <= 0 {
        -1
    } else if applied[n - 1].version == v {
        n - 1
    } else {
        last_applied(applied, v, n - 1)
    }
}

pub open spec fn issue_view(version: i64, name: Seq<char>, status: MigrationStatus, message: Seq<char>) -> MigrationIssueView {
    MigrationIssueView { version, name, status, message }
}

/// What a migration in code reports against the applied records, if anything.
pub open spec fn coded_issue(m: Migration, applied: Seq<AppliedMigration>) -> Seq<MigrationIssueView> {
    let a = last_applied(applied, m.version, applied.len() as int);
    if a < 0 {
        seq![issue_view(m.version, m.name@, MigrationStatus::Pending, "migration is pending"@)]
    } else if applied[a].checksum@ != m.checksum@ {
        seq![issue_view(m.version, m.name@, MigrationStatus::ChecksumMismatch, "migration checksum mismatch"@)]
    } else {
        seq![]
    }
}

/// Issues of the first `n` code migrations, in order.
pub open spec fn coded_issues(sorted: Seq<Migration>, applied: Seq<AppliedMigration>, n: int) -> Seq<MigrationIssueView>
    decreases n,
{
    if n <= 0 {
        seq![]
    } else {
        coded_issues(sorted, applied, n - 1) + coded_issue(sorted[n - 1], applied)
    }
}

/// Number of code migrations among the first `n` that no record applies.
pub open spec fn pending_total(sorted: Seq<Migration>, applied: Seq<AppliedMigration>, n: int) -> int
    decreases n,
{
    if n <= 0 {
        0
    } else {
        pending_total(sorted, applied, n - 1) + if last_applied(applied, sorted[n - 1].version, applied.len() as int) < 0 { 1int } else { 0int }
    }
}

pub open spec fn in_code(migrations: Seq<Migration>, v: i64) -> bool {
    exists|i: int| 0 <= i < migrations.len() && (#[trigger] migrations[i]).version == v
}

/// Issues of the first `n` applied records whose version code lacks, in order.
pub open spec fn missing_issues(migrations: Seq<Migration>, applied: Seq<AppliedMigration>, n: int) -> Seq<MigrationIssueView>
    decreases n,
{
    if n <= 0 {
        seq![]
    } else {
        let a = applied[n - 1];
        missing_issues(migrations, applied, n - 1) + if in_code(migrations, a.version) {
            Seq::<MigrationIssueView>::empty()
        } else {
            seq![issue_view(a.version, a.name@, MigrationStatus::MissingFromCode, "applied migration is missing from code"@)]
        }
    }
}

/// The report that comparing the migrations `sorted` (in version order) with
/// the applied records gives.
pub open spec fn report_for(sorted: Seq<Migration>, applied: Seq<AppliedMigration>, report: MigrationValidationReport) -> bool {
    let issues = coded_issues(sorted, applied, sorted.len() as int) + missing_issues(sorted, applied, applied.len() as int);
    &&& report.issues@.map_values(|x: MigrationIssue| x@) == issues
    &&& report.clean == (issues.len() == 0)
    &&& report.applied_count == applied.len()
    &&& report.pending_count == pending_total(sorted, applied, sorted.len() as int)
}

proof fn lemma_pending_bound(sorted: Seq<Migration>, applied: Seq<AppliedMigration>, n: int)
    requires
        0 <= n,
    ensures
        0 <= pending_total(sorted, applied, n) <= n,
    decreases n,
{
    if n > 0 {
        lemma_pending_bound(sorted, applied, n - 1);
    }
}

proof fn lemma_in_code_perm(a: Seq<Migration>, b: Seq<Migration>, v: i64)
    requires
        a.to_set() == b.to_set(),
    ensures
        in_code(a, v) == in_code(b, v),
{
    if in_code(a, v) {
        let i = choose|i: int| 0 <= i < a.len() && (#[trigger] a[i]).version == v;
        assert(a.to_set().contains(a[i]));
        assert(b.contains(a[i]));
        let j = choose|j: int| 0 <= j < b.len() && b[j] == a[i];
        assert(b[j].version == v);
    }
    if in_code(b, v) {
        let i = choose|i: int| 0 <= i < b.len() && (#[trigger] b[i]).version == v;
        assert(b.to_set().contains(b[i]));
        assert(a.contains(b[i]));
        let j = choose|j: int| 0 <= j < a.len() && a[j] == b[i];
        assert(a[j].version == v);
    }
}

/// Index of the last applied record with version `v`, if any.
fn find_last_applied(applied: &[AppliedMigration], v: i64) -> (r: Option<usize>)
    ensures
        match r {
            Some(i) => i < applied@.len() && last_applied(applied@, v, applied@.len() as int) == i as int,
            None => last_applied(applied@, v, applied@.len() as int) < 0,
        },
{
    let mut n: usize = applied.len();
    while n > 0
        invariant
            n <= applied@.len(),
            last_applied(applied@, v, applied@.len() as int) == last_applied(applied@, v, n as int),
        decreases n,
    {
        if applied[n - 1].version == v {
            return Some(n - 1);
        }
        n = n - 1;
    }
    None
}

fn has_version(migrations: &Vec<Migration>, v: i64) -> (r: bool)
    ensures
        r == in_code(migrations@, v),
{
    let mut i: usize = 0;
    while i < migrations.len()
        invariant
            i <= migrations@.len(),
            forall|j: int| 0 <= j < i ==> (#[trigger] migrations@[j]).version != v,
        decreases migrations.len() - i,
    {
        if migrations[i].version == v {
            return true;
        }
        i = i + 1;
    }
    false
}

/// Compares the migrations in code with the records of applied ones: each
/// code migration without a record is pending, one whose record has another
/// checksum is a mismatch (both in version order), and each record whose
/// version code lacks is missing from code (in record order).
pub fn validate_applied_migrations(migrations: &[Migration], applied: &[AppliedMigration]) -> (r: Result<MigrationValidationReport, MemcoreError>)
    ensures
        match r {
            Ok(report) => versions_distinct(migrations@) && exists|sorted: Seq<Migration>|
                #[trigger] is_version_sorted(migrations@, sorted) && report_for(sorted, applied@, report),
            Err(MemcoreError::MigrationError(msg)) => !versions_distinct(migrations@) && exists|v: i64|
                smallest_repeated_version(migrations@, v) && msg@ == duplicate_version_text(v),
            Err(_) => false,
        },
{
    let sorted = match sorted_migrations(migrations) {
        Ok(s) => s,
        Err(e) => {
            return Err(e);
        },
    };
    let mut issues: Vec<MigrationIssue> = Vec::new();
    let mut pending_count: usize = 0;
    for i in 0..sorted.len()
        invariant
            issues@.map_values(|x: MigrationIssue| x@) == coded_issues(sorted@, applied@, i as int),
            pending_count == pending_total(sorted@, applied@, i as int),
            pending_count <= i,
    {
        let m = &sorted[i];
        let ghost before = issues@.map_values(|x: MigrationIssue| x@);
        proof {
            lemma_pending_bound(sorted@, applied@, i as int + 1);
        }
        match find_last_applied(applied, m.version) {
            Some(a) => {
                if applied[a].checksum != m.checksum {
                    issues.push(MigrationIssue {
                        version: m.version,
                        name: String::from_str(m.name),
                        status: MigrationStatus::ChecksumMismatch,
                        message: String::from_str("migration checksum mismatch"),
                    });
                }
            },
            None => {
                pending_count = pending_count + 1;
                issues.push(MigrationIssue {
                    version: m.version,
                    name: String::from_str(m.name),
                    status: MigrationStatus::Pending,
                    message: String::from_str("migration is pending"),
                });
            },
        }
        assert(issues@.map_values(|x: MigrationIssue| x@) =~= before + coded_issue(sorted@[i as int], applied@));
    }
    let ghost coded = issues@.map_values(|x: MigrationIssue| x@);
    for k in 0..applied.len()
        invariant
            coded == coded_issues(sorted@, applied@, sorted@.len() as int),
            pending_count == pending_total(sorted@, applied@, sorted@.len() as int),
            issues@.map_values(|x: MigrationIssue| x@) == coded + missing_issues(sorted@, applied@, k as int),
    {
        let ghost before = issues@.map_values(|x: MigrationIssue| x@);
        let a = &applied[k];
        if !has_version(&sorted, a.version) {
            let issue = MigrationIssue {
                version: a.version,
                name: a.name.clone(),
                status: MigrationStatus::MissingFromCode,
                message: String::from_str("applied migration is missing from code"),
            };
            assert(issue@ == issue_view(a.version, a.name@, MigrationStatus::MissingFromCode, "applied migration is missing from code"@));
            issues.push(issue);
            assert(issues@.map_values(|x: MigrationIssue| x@) =~= before.push(issue_view(a.version, a.name@, MigrationStatus::MissingFromCode, "applied migration is missing from code"@)));
        } else {
            assert(issues@.map_values(|x: MigrationIssue| x@) =~= before);
        }
        assert(missing_issues(sorted@, applied@, k as int + 1) == missing_issues(sorted@, applied@, k as int) + (if in_code(sorted@, applied@[k as int].version) {
            Seq::<MigrationIssueView>::empty()
        } else {
            seq![issue_view(applied@[k as int].version, applied@[k as int].name@, MigrationStatus::MissingFromCode, "applied migration is missing from code"@)]
        }));
        assert(issues@.map_values(|x: MigrationIssue| x@) =~= coded + missing_issues(sorted@, applied@, k as int + 1));
    }
    let clean = issues.len() == 0;
    let report = MigrationValidationReport { clean, applied_count: applied.len(), pending_count, issues };
    assert(report_for(sorted@, applied@, report));
    Ok(report)
}


/// The statements of a migration script: the pieces between semicolons,
/// trimmed, without the empty ones.
pub open spec fn sql_statements(sql: Seq<char>) -> Seq<Seq<char>> {
    split_on(sql, ';').map_values(|p: Seq<char>| trim(p)).filter(|p: Seq<char>| p.len() > 0)
}

proof fn lemma_statements_push(raw: Seq<Seq<char>>, piece: Seq<char>)
    ensures
        raw.push(piece).map_values(|p: Seq<char>| trim(p)).filter(|p: Seq<char>| p.len() > 0) == if trim(piece).len() > 0 {
            raw.map_values(|p: Seq<char>| trim(p)).filter(|p: Seq<char>| p.len() > 0).push(trim(piece))
        } else {
            raw.map_values(|p: Seq<char>| trim(p)).filter(|p: Seq<char>| p.len() > 0)
        },
{
    let m = raw.map_values(|p: Seq<char>| trim(p));
    assert(raw.push(piece).map_values(|p: Seq<char>| trim(p)) =~= m.push(trim(piece)));
    reveal(Seq::filter);
    assert(m.push(trim(piece)).drop_last() =~= m);
}

/// Splits a migration script into its statements.
pub fn split_sql_statements(sql: &str) -> (r: Vec<String>)
    ensures
        r@.map_values(|s: String| s@) == sql_statements(sql@),
{
    let chars = chars_of(sql);
    let mut out: Vec<String> = Vec::new();
    let mut cur: Vec<char> = Vec::new();
    let ghost mut raw: Seq<Seq<char>> = Seq::empty();
    proof {
        assert(chars@.take(0) =~= Seq::<char>::empty());
        assert(raw.map_values(|p: Seq<char>| trim(p)).filter(|p: Seq<char>| p.len() > 0) =~= Seq::<Seq<char>>::empty()) by {
            reveal(Seq::filter);
        }
        assert(out@.map_values(|s: String| s@) =~= Seq::<Seq<char>>::empty());
        assert(split_on(Seq::<char>::empty(), ';') == seq![Seq::<char>::empty()]);
        assert(raw.push(cur@) =~= seq![Seq::<char>::empty()]);
    }
    for i in 0..chars.len()
        invariant
            chars@ == sql@,
            split_on(chars@.take(i as int), ';') == raw.push(cur@),
            out@.map_values(|s: String| s@) == raw.map_values(|p: Seq<char>| trim(p)).filter(|p: Seq<char>| p.len() > 0),
    {
        let c = chars[i];
        proof {
            assert(chars@.take(i + 1).drop_last() =~= chars@.take(i as int));
            assert(chars@.take(i + 1).last() == c);
        }
        if c == ';' {
            let ghost before = out@.map_values(|s: String| s@);
            let piece = trim_chars(&cur);
            proof {
                lemma_statements_push(raw, cur@);
            }
            if piece.len() > 0 {
                out.push(string_of(&piece));
                assert(out@.map_values(|s: String| s@) =~= before.push(piece@));
            }
            proof {
                raw = raw.push(cur@);
            }
            cur = Vec::new();
            proof {
                assert(split_on(chars@.take(i + 1), ';') =~= raw.push(cur@));
            }
        } else {
            proof {
                let p = raw.push(cur@);
                assert(p.update(p.len() - 1, p.last().push(c)) =~= raw.push(cur@.push(c)));
            }
            cur.push(c);
        }
    }
    let ghost before = out@.map_values(|s: String| s@);
    let piece = trim_chars(&cur);
    proof {
        lemma_statements_push(raw, cur@);
        assert(chars@.take(chars@.len() as int) =~= chars@);
    }
    if piece.len() > 0 {
        out.push(string_of(&piece));
        assert(out@.map_values(|s: String| s@) =~= before.push(piece@));
    }
    out
}


/// Whether `versions` holds `v`.
fn has_version_value(versions: &Vec<i64>, v: i64) -> (r: bool)
    ensures
        r == versions@.contains(v),
{
    let mut i: usize = 0;
    while i < versions.len()
        invariant
            i <= versions@.len(),
            forall|j: int| 0 <= j < i ==> versions@[j] != v,
        decreases versions.len() - i,
    {
        if versions[i] == v {
            return true;
        }
        i = i + 1;
    }
    false
}

/// The migrations, in version order, whose version `versions` holds when
/// `present` is set, or lacks otherwise.
pub fn select_by_version(migrations: &[Migration], versions: &Vec<i64>, present: bool) -> (r: Result<Vec<Migration>, MemcoreError>)
    ensures
        match r {
            Ok(selected) => versions_distinct(migrations@) && exists|sorted: Seq<Migration>|
                #[trigger] is_version_sorted(migrations@, sorted)
                    && selected@ == sorted.filter(|m: Migration| versions@.contains(m.version) == present),
            Err(MemcoreError::MigrationError(msg)) => !versions_distinct(migrations@) && exists|v: i64|
                smallest_repeated_version(migrations@, v) && msg@ == duplicate_version_text(v),
            Err(_) => false,
        },
{
    let sorted = match sorted_migrations(migrations) {
        Ok(s) => s,
        Err(e) => {
            return Err(e);
        },
    };
    let ghost pred = |m: Migration| versions@.contains(m.version) == present;
    let mut selected: Vec<Migration> = Vec::new();
    for i in 0..sorted.len()
        invariant
            pred == (|m: Migration| versions@.contains(m.version) == present),
            selected@ == sorted@.take(i as int).filter(pred),
    {
        proof {
            crate::seqs::lemma_filter_take_step(sorted@, pred, i as int);
        }
        if has_version_value(versions, sorted[i].version) == present {
            selected.push(sorted[i].duplicate());
        }
    }
    proof {
        crate::seqs::lemma_take_full(sorted@);
    }
    Ok(selected)
}

/// The migrations an application run applies, in version order: those no
/// record applies. Blocking issues in `report` refuse the run.
pub fn plan_pending_migrations(migrations: &[Migration], report: &MigrationValidationReport, applied: &[AppliedMigration]) -> (r: Result<Vec<Migration>, MemcoreError>)
    ensures
        (exists|k: int| 0 <= k < report.issues@.len() && is_blocking(#[trigger] report.issues@[k].status)) ==> (r matches Err(
            MemcoreError::MigrationError(msg),
        ) && msg@ == "migration validation failed before applying pending migrations"@),
        !(exists|k: int| 0 <= k < report.issues@.len() && is_blocking(#[trigger] report.issues@[k].status)) ==> match r {
            Ok(selected) => versions_distinct(migrations@) && exists|sorted: Seq<Migration>|
                #[trigger] is_version_sorted(migrations@, sorted) && selected@ == sorted.filter(
                    |m: Migration| !(exists|j: int| 0 <= j < applied@.len() && (#[trigger] applied@[j]).version == m.version),
                ),
            Err(MemcoreError::MigrationError(msg)) => !versions_distinct(migrations@) && exists|v: i64|
                smallest_repeated_version(migrations@, v) && msg@ == duplicate_version_text(v),
            Err(_) => false,
        },
{
    if report.has_blocking_issues() {
        return Err(MemcoreError::MigrationError(String::from_str("migration validation failed before applying pending migrations")));
    }
    let mut versions: Vec<i64> = Vec::new();
    for i in 0..applied.len()
        invariant
            versions@.len() == i,
            forall|j: int| 0 <= j < i ==> versions@[j] == (#[trigger] applied@[j]).version,
    {
        versions.push(applied[i].version);
    }
    proof {
        assert forall|v: i64| versions@.contains(v) == (exists|j: int| 0 <= j < applied@.len() && (#[trigger] applied@[j]).version == v) by {
            if versions@.contains(v) {
                let j = choose|j: int| 0 <= j < versions@.len() && versions@[j] == v;
                assert(applied@[j].version == v);
            }
            if exists|j: int| 0 <= j < applied@.len() && (#[trigger] applied@[j]).version == v {
                let j = choose|j: int| 0 <= j < applied@.len() && (#[trigger] applied@[j]).version == v;
                assert(versions@[j] == v);
            }
        }
    }
    let r = select_by_version(migrations, &versions, false);
    proof {
        assert((|m: Migration| versions@.contains(m.version) == false) =~= (|m: Migration|
            !(exists|j: int| 0 <= j < applied@.len() && (#[trigger] applied@[j]).version == m.version)));
    }
    r
}


/// The version order of a set of migrations is unique: two orderings of the
/// same migrations that both ascend strictly by version are the same
/// sequence. So the report of `validate_applied_migrations` is determined by
/// its inputs.
pub proof fn law_version_order_unique(s: Seq<Migration>, a: Seq<Migration>, b: Seq<Migration>)
    requires
        is_version_sorted(s, a),
        is_version_sorted(s, b),
    ensures
        a == b,
{
    assert forall|i: int| 0 <= i < a.len() implies a[i] == b[i] by {
        lemma_version_order_prefix(s, a, b, i);
    }
    assert(a =~= b);
}

proof fn lemma_version_order_prefix(s: Seq<Migration>, a: Seq<Migration>, b: Seq<Migration>, i: int)
    requires
        is_version_sorted(s, a),
        is_version_sorted(s, b),
        0 <= i < a.len(),
    ensures
        a[i] == b[i],
    decreases i,
{
    assert forall|k: int| 0 <= k < i implies a[k] == b[k] by {
        lemma_version_order_prefix(s, a, b, k);
    }
    assert(b.to_set().contains(a[i])) by {
        assert(a.contains(a[i]));
        assert(a.to_set().contains(a[i]));
    }
    let j = choose|j: int| 0 <= j < b.len() && b[j] == a[i];
    if j < i {
        assert(a[j] == b[j]);
        assert(a[j].version < a[i].version);
    } else if j > i {
        assert(a.to_set().contains(b[i])) by {
            assert(b.contains(b[i]));
            assert(b.to_set().contains(b[i]));
        }
        let m = choose|m: int| 0 <= m < a.len() && a[m] == b[i];
        if m < i {
            assert(a[m] == b[m]);
            assert(b[m].version < b[i].version);
        } else if m == i {
            assert(b[i].version < b[j].version);
        } else {
            assert(a[i].version < a[m].version);
            assert(b[i].version < b[j].version);
        }
    }
}

/// `s` with every line feed written as CR LF.
pub open spec fn with_crlf(s: Seq<char>) -> Seq<char>
    decreases s.len(),
{
    if s.len() == 0 {
        s
    } else if s[0] == '\n' {
        seq!['\r', '\n'] + with_crlf(s.skip(1))
    } else {
        seq![s[0]] + with_crlf(s.skip(1))
    }
}

/// The order in which migrations are given does not matter: for a
/// permutation of the same migrations, validation settles on the same
/// version order and so gives the same report, issue for issue.
pub proof fn law_report_ignores_input_order(
    m: Seq<Migration>,
    p: Seq<Migration>,
    applied: Seq<AppliedMigration>,
    sorted_m: Seq<Migration>,
    sorted_p: Seq<Migration>,
    report_m: MigrationValidationReport,
    report_p: MigrationValidationReport,
)
    requires
        p.to_multiset() == m.to_multiset(),
        is_version_sorted(m, sorted_m),
        is_version_sorted(p, sorted_p),
        report_for(sorted_m, applied, report_m),
        report_for(sorted_p, applied, report_p),
    ensures
        sorted_m == sorted_p,
        report_m.issues@.map_values(|x: MigrationIssue| x@) == report_p.issues@.map_values(|x: MigrationIssue| x@),
        report_m.clean == report_p.clean,
        report_m.applied_count == report_p.applied_count,
        report_m.pending_count == report_p.pending_count,
{
    assert(p.to_set() =~= m.to_set()) by {
        assert forall|x: Migration| p.to_set().contains(x) <==> m.to_set().contains(x) by {
            vstd::seq_lib::to_multiset_contains(p, x);
            vstd::seq_lib::to_multiset_contains(m, x);
        }
    }
    vstd::seq_lib::to_multiset_len(p);
    vstd::seq_lib::to_multiset_len(m);
    assert(is_version_sorted(m, sorted_p));
    law_version_order_unique(m, sorted_m, sorted_p);
}

proof fn lemma_count_two<A>(m: Seq<A>, i: int, j: int)
    requires
        0 <= i < m.len(),
        0 <= j < m.len(),
        i != j,
        m[i] == m[j],
    ensures
        m.to_multiset().count(m[i]) >= 2,
{
    broadcast use vstd::multiset::group_multiset_axioms;
    let q = m.remove(i);
    vstd::seq_lib::to_multiset_remove(m, i);
    let jj = if j < i { j } else { j - 1 };
    assert(q[jj] == m[i]);
    assert(q.contains(m[i]));
    vstd::seq_lib::to_multiset_contains(q, m[i]);
    assert(m.contains(m[i]));
    vstd::seq_lib::to_multiset_contains(m, m[i]);
}

proof fn lemma_two_positions<A>(p: Seq<A>, x: A)
    requires
        p.to_multiset().count(x) >= 2,
    ensures
        exists|a: int, b: int| 0 <= a < p.len() && 0 <= b < p.len() && a != b && p[a] == x && p[b] == x,
{
    broadcast use vstd::multiset::group_multiset_axioms;
    vstd::seq_lib::to_multiset_contains(p, x);
    let a = choose|a: int| 0 <= a < p.len() && p[a] == x;
    let q = p.remove(a);
    vstd::seq_lib::to_multiset_remove(p, a);
    vstd::seq_lib::to_multiset_contains(q, x);
    let c = choose|c: int| 0 <= c < q.len() && q[c] == x;
    let b = if c < a { c } else { c + 1 };
    assert(p[b] == x && b != a);
}

proof fn lemma_repeats_perm(m: Seq<Migration>, p: Seq<Migration>, v: i64)
    requires
        p.to_multiset() == m.to_multiset(),
        version_repeats(m, v),
    ensures
        version_repeats(p, v),
{
    let (i, j) = choose|i: int, j: int| 0 <= i < m.len() && 0 <= j < m.len() && i != j && (#[trigger] m[i]).version == v && (#[trigger] m[j]).version == v;
    if m[i] == m[j] {
        lemma_count_two(m, i, j);
        lemma_two_positions(p, m[i]);
        let (a, b) = choose|a: int, b: int| 0 <= a < p.len() && 0 <= b < p.len() && a != b && p[a] == m[i] && p[b] == m[i];
        assert(p[a].version == v && p[b].version == v);
    } else {
        assert(m.contains(m[i]) && m.contains(m[j]));
        vstd::seq_lib::to_multiset_contains(m, m[i]);
        vstd::seq_lib::to_multiset_contains(m, m[j]);
        vstd::seq_lib::to_multiset_contains(p, m[i]);
        vstd::seq_lib::to_multiset_contains(p, m[j]);
        let a = choose|a: int| 0 <= a < p.len() && p[a] == m[i];
        let b = choose|b: int| 0 <= b < p.len() && p[b] == m[j];
        assert(p[a].version == v && p[b].version == v && a != b);
    }
}

proof fn lemma_distinct_no_repeats(s: Seq<Migration>)
    ensures
        !versions_distinct(s) ==> exists|v: i64| version_repeats(s, v),
        versions_distinct(s) ==> forall|v: i64| !version_repeats(s, v),
{
    if !versions_distinct(s) {
        let (i, j) = choose|i: int, j: int| 0 <= i < s.len() && 0 <= j < s.len() && i != j && (#[trigger] s[i]).version == (#[trigger] s[j]).version;
        assert(version_repeats(s, s[i].version));
    }
}

/// The order in which migrations are given does not change whether their
/// versions repeat, nor which repeated version is the smallest: so a
/// permutation of the same migrations is refused with the same message.
pub proof fn law_duplicate_error_ignores_input_order(m: Seq<Migration>, p: Seq<Migration>)
    requires
        p.to_multiset() == m.to_multiset(),
    ensures
        versions_distinct(m) == versions_distinct(p),
        forall|v: i64| #[trigger] smallest_repeated_version(m, v) == smallest_repeated_version(p, v),
{
    assert forall|v: i64| #[trigger] version_repeats(m, v) == version_repeats(p, v) by {
        if version_repeats(m, v) {
            lemma_repeats_perm(m, p, v);
        }
        if version_repeats(p, v) {
            lemma_repeats_perm(p, m, v);
        }
    }
    lemma_distinct_no_repeats(m);
    lemma_distinct_no_repeats(p);
    if !versions_distinct(m) {
        let v = choose|v: i64| version_repeats(m, v);
        assert(version_repeats(p, v));
    }
    if !versions_distinct(p) {
        let v = choose|v: i64| version_repeats(p, v);
        assert(version_repeats(m, v));
    }
    assert forall|v: i64| #[trigger] smallest_repeated_version(m, v) == smallest_repeated_version(p, v) by {
        assert(version_repeats(m, v) == version_repeats(p, v));
        assert((forall|w: i64| w < v ==> !version_repeats(m, w)) == (forall|w: i64| w < v ==> !version_repeats(p, w))) by {
            assert forall|w: i64| w < v implies version_repeats(m, w) == version_repeats(p, w) by {
                assert(version_repeats(m, w) == version_repeats(p, w));
            }
        }
    }
}

/// Line endings do not change a checksum: SQL without carriage returns has
/// the checksum of the same SQL with every LF written as CR LF.
pub proof fn law_checksum_ignores_crlf(sql: Seq<char>)
    requires
        forall|i: int| 0 <= i < sql.len() ==> sql[i] != '\r',
    ensures
        checksum_text(with_crlf(sql)) == checksum_text(sql),
{
    lemma_crlf_round_trip(sql);
    lemma_crlf_to_lf_fixed(sql);
}

proof fn lemma_crlf_round_trip(s: Seq<char>)
    requires
        forall|i: int| 0 <= i < s.len() ==> s[i] != '\r',
    ensures
        crlf_to_lf(with_crlf(s)) == s,
    decreases s.len(),
{
    if s.len() > 0 {
        let rest = s.skip(1);
        assert forall|i: int| 0 <= i < rest.len() implies rest[i] != '\r' by {
            assert(rest[i] == s[i + 1]);
        }
        lemma_crlf_round_trip(rest);
        let w = with_crlf(s);
        if s[0] == '\n' {
            assert(w == seq!['\r', '\n'] + with_crlf(rest));
            assert(w.skip(2) =~= with_crlf(rest));
            assert(crlf_to_lf(w) == seq!['\n'] + crlf_to_lf(w.skip(2)));
        } else {
            assert(w == seq![s[0]] + with_crlf(rest));
            assert(w.skip(1) =~= with_crlf(rest));
            assert(w[0] == s[0]);
            assert(crlf_to_lf(w) == seq![s[0]] + crlf_to_lf(w.skip(1)));
        }
        assert(s =~= seq![s[0]] + rest);
    }
}

proof fn lemma_crlf_to_lf_fixed(s: Seq<char>)
    requires
        forall|i: int| 0 <= i < s.len() ==> s[i] != '\r',
    ensures
        crlf_to_lf(s) == s,
    decreases s.len(),
{
    if s.len() > 0 {
        let rest = s.skip(1);
        assert forall|i: int| 0 <= i < rest.len() implies rest[i] != '\r' by {
            assert(rest[i] == s[i + 1]);
        }
        lemma_crlf_to_lf_fixed(rest);
        assert(s =~= seq![s[0]] + rest);
    }
}


/// The pending count of a report is the number of its pending issues.
pub proof fn law_pending_count_is_pending_issues(sorted: Seq<Migration>, applied: Seq<AppliedMigration>, n: int)
    requires
        0 <= n <= sorted.len(),
    ensures
        pending_total(sorted, applied, n) == coded_issues(sorted, applied, n).filter(
            |x: MigrationIssueView| x.status == MigrationStatus::Pending,
        ).len(),
    decreases n,
{
    let pred = |x: MigrationIssueView| x.status == MigrationStatus::Pending;
    if n > 0 {
        law_pending_count_is_pending_issues(sorted, applied, n - 1);
        let prev = coded_issues(sorted, applied, n - 1);
        let last = coded_issue(sorted[n - 1], applied);
        Seq::filter_distributes_over_add(prev, last, pred);
        reveal(Seq::filter);
        if last.len() == 1 {
            assert(last.drop_last() =~= Seq::<MigrationIssueView>::empty());
            assert(Seq::<MigrationIssueView>::empty().filter(pred) =~= Seq::<MigrationIssueView>::empty());
        } else {
            assert(last =~= Seq::<MigrationIssueView>::empty());
        }
    } else {
        reveal(Seq::filter);
    }
}

} // verus!
