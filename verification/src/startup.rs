//! The storage startup check as a sequence of decisions. The caller runs the
//! migration step `migration_step` asks for, hands the report to
//! `after_migrations`, checks the tables `required_tables` names when asked
//! to, and hands what is missing to `after_table_check`.

use vstd::prelude::*;
use crate::errors::MemcoreError;
use crate::migrations::MigrationValidationReport;

verus! {

/// How startup treats schema migrations.
#[derive(Clone, Copy, Debug, PartialEq, Eq, Structural)]
pub enum StorageMigrationMode {
    /// Apply pending migrations, then validate.
    Auto,
    /// Only compare code and database.
    ValidateOnly,
    /// Skip migrations and table checks.
    Disabled,
}

/// Outcome of the startup check.
#[derive(Debug)]
pub struct StorageStartupCheckReport {
    pub database_connected: bool,
    pub migrations_clean: bool,
    pub migration_report: Option<MigrationValidationReport>,
    pub warnings: Vec<String>,
}

impl StorageStartupCheckReport {
    /// The report of a deployment without a database: nothing to check.
    pub fn ready_without_database() -> (r: StorageStartupCheckReport)
        ensures
            r.database_connected,
            r.migrations_clean,
            r.migration_report is None,
            r.warnings@.len() == 0,
    {
        StorageStartupCheckReport {
            database_connected: true,
            migrations_clean: true,
            migration_report: None,
            warnings: Vec::new(),
        }
    }
}

/// Text of the error a failed clean requirement reports: the first issue's
/// status and message, or a generic line when the report lists none.
pub open spec fn migration_failure_text(report: MigrationValidationReport) -> Seq<char> {
    if report.issues@.len() > 0 {
        report.issues@[0].status.label() + ": "@ + report.issues@[0].message@
    } else {
        "migration validation failed"@
    }
}

pub fn migration_failure(report: &MigrationValidationReport) -> (e: MemcoreError)
    ensures
        e matches MemcoreError::MigrationError(msg) && msg@ == migration_failure_text(*report),
{
    if report.issues.len() > 0 {
        let first = &report.issues[0];
        let mut msg = String::from_str(first.status.as_str());
        msg.append(": ");
        msg.append(first.message.as_str());
        MemcoreError::MigrationError(msg)
    } else {
        MemcoreError::MigrationError(String::from_str("migration validation failed"))
    }
}

/// What to do with migrations first.
#[derive(Clone, Copy, Debug, PartialEq, Eq, Structural)]
pub enum MigrationStep {
    Skip,
    Validate,
    Apply,
}

pub open spec fn step_for(mode: StorageMigrationMode) -> MigrationStep {
    match mode {
        StorageMigrationMode::Auto => MigrationStep::Apply,
        StorageMigrationMode::ValidateOnly => MigrationStep::Validate,
        StorageMigrationMode::Disabled => MigrationStep::Skip,
    }
}

pub fn migration_step(mode: StorageMigrationMode) -> (r: MigrationStep)
    ensures
        r == step_for(mode),
{
    match mode {
        StorageMigrationMode::Auto => MigrationStep::Apply,
        StorageMigrationMode::ValidateOnly => MigrationStep::Validate,
        StorageMigrationMode::Disabled => MigrationStep::Skip,
    }
}

/// The check after its migration step: the report so far and whether the
/// required tables are to be checked.
#[derive(Debug)]
pub struct StartupProgress {
    pub migration_report: Option<MigrationValidationReport>,
    pub migrations_clean: bool,
    pub warnings: Vec<String>,
    pub check_tables: bool,
}

/// Takes the migration report (none when the step was skipped).
pub fn after_migrations(mode: StorageMigrationMode, require_clean: bool, report: Option<MigrationValidationReport>) -> (r: Result<StartupProgress, MemcoreError>)
    requires
        (mode == StorageMigrationMode::Disabled) == (report is None),
    ensures
        match report {
            None => r matches Ok(p) && p.migration_report is None && p.migrations_clean && !p.check_tables
                && p.warnings@.len() == 1 && p.warnings@[0]@ == "database migration validation is disabled"@,
            Some(rep) => if require_clean && !rep.clean {
                r matches Err(MemcoreError::MigrationError(msg)) && msg@ == migration_failure_text(rep)
            } else {
                r matches Ok(p) && p.migration_report == Some(rep) && p.migrations_clean == rep.clean
                    && p.check_tables && p.warnings@.len() == 0
            },
        },
        require_clean ==> (r matches Ok(p) ==> p.migrations_clean),
{
    match report {
        None => {
            let mut warnings: Vec<String> = Vec::new();
            warnings.push(String::from_str("database migration validation is disabled"));
            Ok(StartupProgress { migration_report: None, migrations_clean: true, warnings, check_tables: false })
        },
        Some(rep) => {
            if require_clean && !rep.clean {
                return Err(migration_failure(&rep));
            }
            let clean = rep.clean;
            Ok(StartupProgress { migration_report: Some(rep), migrations_clean: clean, warnings: Vec::new(), check_tables: true })
        },
    }
}

/// The tables a migrated database holds.
pub open spec fn required_table_names() -> Seq<Seq<char>> {
    seq![
        "facts"@,
        "memory_events"@,
        "api_keys"@,
        "provider_usage_events"@,
        "org_plan_configs"@,
        "memory_usage_snapshots"@,
        "background_job_runs"@,
        "background_job_locks"@,
        "schema_migrations"@,
    ]
}

pub fn required_tables() -> (r: Vec<&'static str>)
    ensures
        r@.map_values(|s: &'static str| s@) == required_table_names(),
{
    let mut r: Vec<&'static str> = Vec::new();
    r.push("facts");
    r.push("memory_events");
    r.push("api_keys");
    r.push("provider_usage_events");
    r.push("org_plan_configs");
    r.push("memory_usage_snapshots");
    r.push("background_job_runs");
    r.push("background_job_locks");
    r.push("schema_migrations");
    assert(r@.map_values(|s: &'static str| s@) =~= required_table_names());
    r
}

/// The names of `tables` whose entry of `present` is false, in order.
pub open spec fn missing_names(tables: Seq<Seq<char>>, present: Seq<bool>, n: int) -> Seq<Seq<char>>
    decreases n,
{
    if n <= 0 {
        Seq::empty()
    } else if present[n - 1] {
        missing_names(tables, present, n - 1)
    } else {
        missing_names(tables, present, n - 1).push(tables[n - 1])
    }
}

pub fn missing_tables(tables: &Vec<&'static str>, present: &Vec<bool>) -> (r: Vec<String>)
    requires
        tables@.len() == present@.len(),
    ensures
        r@.map_values(|s: String| s@) == missing_names(tables@.map_values(|s: &'static str| s@), present@, tables@.len() as int),
{
    let ghost names = tables@.map_values(|s: &'static str| s@);
    let mut r: Vec<String> = Vec::new();
    for i in 0..tables.len()
        invariant
            tables@.len() == present@.len(),
            names == tables@.map_values(|s: &'static str| s@),
            r@.map_values(|s: String| s@) == missing_names(names, present@, i as int),
    {
        let ghost before = r@.map_values(|s: String| s@);
        if !present[i] {
            r.push(String::from_str(tables[i]));
            assert(r@.map_values(|s: String| s@) =~= before.push(names[i as int]));
        }
    }
    r
}

/// `names` separated by `sep`.
pub open spec fn joined(names: Seq<Seq<char>>, sep: Seq<char>) -> Seq<char>
    decreases names.len(),
{
    if names.len() == 0 {
        Seq::empty()
    } else if names.len() == 1 {
        names[0]
    } else {
        joined(names.drop_last(), sep) + sep + names.last()
    }
}

pub fn join_names(names: &Vec<String>, sep: &str) -> (r: String)
    ensures
        r@ == joined(names@.map_values(|s: String| s@), sep@),
{
    let ghost views = names@.map_values(|s: String| s@);
    let mut r = String::new();
    for i in 0..names.len()
        invariant
            views == names@.map_values(|s: String| s@),
            r@ == joined(views.take(i as int), sep@),
    {
        proof {
            assert(views.take(i + 1).drop_last() =~= views.take(i as int));
        }
        if i > 0 {
            r.append(sep);
        }
        r.append(names[i].as_str());
        proof {
            if i == 0 {
                assert(views.take(1) =~= seq![views[0]]);
                assert(r@ =~= views[0]);
            }
        }
    }
    proof {
        assert(views.take(views.len() as int) =~= views);
    }
    r
}

pub open spec fn missing_warning(missing: Seq<Seq<char>>) -> Seq<char> {
    "required tables missing: "@ + joined(missing, ", "@)
}

/// Finishes the check with the tables found missing (none when they were
/// not checked).
pub fn after_table_check(progress: StartupProgress, require_clean: bool, missing: Vec<String>) -> (r: Result<StorageStartupCheckReport, MemcoreError>)
    ensures
        if missing@.len() == 0 {
            r matches Ok(rep) && rep.database_connected && rep.migrations_clean == progress.migrations_clean
                && rep.migration_report == progress.migration_report && rep.warnings@ == progress.warnings@
        } else if require_clean {
            r matches Err(MemcoreError::MigrationError(msg)) && msg@ == "required table missing after migration"@
        } else {
            r matches Ok(rep) && rep.database_connected && !rep.migrations_clean
                && rep.migration_report == progress.migration_report
                && rep.warnings@.len() == progress.warnings@.len() + 1
                && rep.warnings@.take(progress.warnings@.len() as int) == progress.warnings@
                && rep.warnings@.last()@ == missing_warning(missing@.map_values(|s: String| s@))
        },
        require_clean ==> (r matches Ok(rep) ==> rep.migrations_clean == progress.migrations_clean),
{
    let mut warnings = progress.warnings;
    let mut clean = progress.migrations_clean;
    if missing.len() > 0 {
        clean = false;
        let ghost before = warnings@;
        let mut w = String::from_str("required tables missing: ");
        let list = join_names(&missing, ", ");
        w.append(list.as_str());
        warnings.push(w);
        assert(warnings@.take(before.len() as int) =~= before);
        if require_clean {
            return Err(MemcoreError::MigrationError(String::from_str("required table missing after migration")));
        }
    }
    Ok(StorageStartupCheckReport {
        database_connected: true,
        migrations_clean: clean,
        migration_report: progress.migration_report,
        warnings,
    })
}

} // verus!
