//! Records read back from SQLite rows. The caller reads each column as it is
//! stored (text, integers, optional values); these functions parse and check
//! them into records, each failing with the first column that is not valid,
//! in the order the columns are listed.

use vstd::prelude::*;
use crate::conversions::{
    api_key_scope_error_text, api_key_scope_from_str, api_key_scope_parse, capability_error_text,
    capability_from_str, capability_parse, i64_to_bool, job_kind_error_text, job_kind_from_str,
    job_kind_parse, job_status_error_text, job_status_from_str, job_status_parse,
    memory_event_operation_error_text, memory_event_operation_from_str, memory_event_operation_parse,
    memory_source_error_text, memory_source_from_str, memory_source_parse, memory_type_error_text,
    memory_type_from_str, memory_type_parse, optional_i64_to_u64, status_error_text, status_from_str,
    status_parse, tier_error_text, tier_from_storage, tier_parse,
};
use crate::errors::MemcoreError;
use crate::jobs::{JobLockRecord, StoredBackgroundJobRun};
use crate::migrations::AppliedMigration;
use crate::org_plan::{OrgPlanConfig, OrgPlanLimits};
use crate::parse::{check_json, instant_of, json_string_list, json_value_error, parse_instant, parse_string_list, parse_uuid, uuid_parse};
use crate::text::{chars_of, trim, trim_chars};
use crate::types::{
    ApiKeyRecord, ApiKeyScope, Fact, MemoryEvent, MemoryEventOperation, MemorySource, MemoryType,
};
use crate::usage::{MemoryUsageSnapshot, ProviderUsageEventRecord};

verus! {

/// `{what} '{value}': {error}`.
pub open spec fn quoted_error(what: Seq<char>, value: Seq<char>, e: Seq<char>) -> Seq<char> {
    what + " '"@ + value + "': "@ + e
}

/// `{context}: {error}`.
pub open spec fn context_error(context: Seq<char>, e: Seq<char>) -> Seq<char> {
    context + ": "@ + e
}

fn quoted_message(what: &str, value: &str, e: &str) -> (r: String)
    ensures
        r@ == quoted_error(what@, value@, e@),
{
    let mut m = String::from_str(what);
    m.append(" '");
    m.append(value);
    m.append("': ");
    m.append(e);
    m
}

fn context_message(context: &str, e: &str) -> (r: String)
    ensures
        r@ == context_error(context@, e@),
{
    let mut m = String::from_str(context);
    m.append(": ");
    m.append(e);
    m
}

/// A stored timestamp, or the message its parse error gives.
pub open spec fn stored_instant(text: Seq<char>) -> Result<i128, Seq<char>> {
    match instant_of(text) {
        Ok(t) => Ok(t),
        Err(e) => Err(quoted_error("invalid datetime value"@, text, e)),
    }
}

/// Parses a stored RFC 3339 timestamp.
pub fn datetime_from_str(value: &str) -> (r: Result<i128, MemcoreError>)
    ensures
        match r {
            Ok(t) => stored_instant(value@) == Ok::<i128, Seq<char>>(t),
            Err(MemcoreError::StorageError(m)) => stored_instant(value@) == Err::<i128, Seq<char>>(m@),
            Err(_) => false,
        },
{
    match parse_instant(value) {
        Ok(t) => Ok(t),
        Err(e) => Err(MemcoreError::StorageError(quoted_message("invalid datetime value", value, e.as_str()))),
    }
}

/// An optional stored timestamp.
pub open spec fn stored_opt_instant(text: Option<String>) -> Result<Option<i128>, Seq<char>> {
    match text {
        None => Ok(None),
        Some(t) => match stored_instant(t@) {
            Ok(v) => Ok(Some(v)),
            Err(m) => Err(m),
        },
    }
}

pub fn optional_datetime_from_str(value: &Option<String>) -> (r: Result<Option<i128>, MemcoreError>)
    ensures
        match r {
            Ok(t) => stored_opt_instant(*value) == Ok::<Option<i128>, Seq<char>>(t),
            Err(MemcoreError::StorageError(m)) => stored_opt_instant(*value) == Err::<Option<i128>, Seq<char>>(m@),
            Err(_) => false,
        },
{
    match value {
        None => Ok(None),
        Some(t) => match datetime_from_str(t.as_str()) {
            Ok(v) => Ok(Some(v)),
            Err(e) => Err(e),
        },
    }
}

/// A timestamp whose parse error is reported after `context`.
pub open spec fn instant_in(context: Seq<char>, text: Seq<char>) -> Result<i128, Seq<char>> {
    match instant_of(text) {
        Ok(t) => Ok(t),
        Err(e) => Err(context_error(context, e)),
    }
}

fn instant_with_context(context: &str, value: &str) -> (r: Result<i128, String>)
    ensures
        match r {
            Ok(t) => instant_in(context@, value@) == Ok::<i128, Seq<char>>(t),
            Err(m) => instant_in(context@, value@) == Err::<i128, Seq<char>>(m@),
        },
{
    match parse_instant(value) {
        Ok(t) => Ok(t),
        Err(e) => Err(context_message(context, e.as_str())),
    }
}

/// A UUID column whose parse error is reported as `{what} '{text}': {error}`.
pub open spec fn uuid_quoted(what: Seq<char>, text: Seq<char>) -> Result<u128, Seq<char>> {
    match uuid_parse(text) {
        Ok(v) => Ok(v),
        Err(e) => Err(quoted_error(what, text, e)),
    }
}

fn uuid_with_quote(what: &str, text: &str) -> (r: Result<u128, String>)
    ensures
        match r {
            Ok(v) => uuid_quoted(what@, text@) == Ok::<u128, Seq<char>>(v),
            Err(m) => uuid_quoted(what@, text@) == Err::<u128, Seq<char>>(m@),
        },
{
    match parse_uuid(text) {
        Ok(v) => Ok(v),
        Err(e) => Err(quoted_message(what, text, e.as_str())),
    }
}

/// A UUID column whose parse error is reported after `context`.
pub open spec fn uuid_in(context: Seq<char>, text: Seq<char>) -> Result<u128, Seq<char>> {
    match uuid_parse(text) {
        Ok(v) => Ok(v),
        Err(e) => Err(context_error(context, e)),
    }
}

fn uuid_with_context(context: &str, text: &str) -> (r: Result<u128, String>)
    ensures
        match r {
            Ok(v) => uuid_in(context@, text@) == Ok::<u128, Seq<char>>(v),
            Err(m) => uuid_in(context@, text@) == Err::<u128, Seq<char>>(m@),
        },
{
    match parse_uuid(text) {
        Ok(v) => Ok(v),
        Err(e) => Err(context_message(context, e.as_str())),
    }
}

/// Text that must be a JSON document.
pub open spec fn json_required(text: Seq<char>, context: Seq<char>) -> Option<Seq<char>> {
    match json_value_error(text) {
        None => None,
        Some(e) => Some(context_error(context, e)),
    }
}

fn require_json(text: &str, context: &str) -> (r: Option<String>)
    ensures
        match r {
            None => json_required(text@, context@) == None::<Seq<char>>,
            Some(m) => json_required(text@, context@) == Some(m@),
        },
{
    match check_json(text) {
        None => None,
        Some(e) => Some(context_message(context, e.as_str())),
    }
}

/// Optional JSON metadata: absent or blank text reads as none, other text
/// must be a JSON document.
pub open spec fn optional_json(value: Option<String>, context: Seq<char>) -> Result<Option<String>, Seq<char>> {
    match value {
        None => Ok(None),
        Some(raw) => if trim(raw@).len() == 0 {
            Ok(None)
        } else {
            match json_value_error(raw@) {
                None => Ok(Some(raw)),
                Some(e) => Err(context_error(context, e)),
            }
        },
    }
}

fn optional_metadata_from_str(value: Option<String>, context: &str) -> (r: Result<Option<String>, String>)
    ensures
        match r {
            Ok(v) => optional_json(value, context@) == Ok::<Option<String>, Seq<char>>(v),
            Err(m) => optional_json(value, context@) == Err::<Option<String>, Seq<char>>(m@),
        },
{
    match value {
        None => Ok(None),
        Some(raw) => {
            if trim_chars(&chars_of(raw.as_str())).len() == 0 {
                return Ok(None);
            }
            match check_json(raw.as_str()) {
                None => Ok(Some(raw)),
                Some(e) => Err(context_message(context, e.as_str())),
            }
        },
    }
}

/// The columns of a stored fact; the two scores are given as the bit
/// patterns of their `f32` values.
pub struct FactColumns {
    pub id: String,
    pub org_id: String,
    pub user_id: String,
    pub memory_type: String,
    pub content: String,
    pub summary: Option<String>,
    pub source: String,
    pub confidence_bits: u32,
    pub importance_bits: u32,
    pub valid_at: Option<String>,
    pub invalid_at: Option<String>,
    pub recorded_at: String,
    pub updated_at: String,
    pub metadata: String,
}

/// A stored label read back as its value, or the error message.
pub open spec fn memory_type_of(s: Seq<char>) -> Result<MemoryType, Seq<char>> {
    match memory_type_parse(s) {
        Some(t) => Ok(t),
        None => Err(memory_type_error_text(s)),
    }
}

pub open spec fn memory_source_of(s: Seq<char>) -> Result<MemorySource, Seq<char>> {
    match memory_source_parse(s) {
        Some(t) => Ok(t),
        None => Err(memory_source_error_text(s)),
    }
}

pub open spec fn operation_of(s: Seq<char>) -> Result<MemoryEventOperation, Seq<char>> {
    match memory_event_operation_parse(s) {
        Some(t) => Ok(t),
        None => Err(memory_event_operation_error_text(s)),
    }
}

/// The fact a row holds, or the message of its first invalid column.
pub open spec fn fact_of(c: FactColumns) -> Result<Fact, Seq<char>> {
    match uuid_quoted("invalid fact id"@, c.id@) {
        Err(m) => Err(m),
        Ok(id) => match memory_type_of(c.memory_type@) {
            Err(m) => Err(m),
            Ok(memory_type) => match memory_source_of(c.source@) {
                Err(m) => Err(m),
                Ok(source) => match stored_opt_instant(c.valid_at) {
                    Err(m) => Err(m),
                    Ok(valid_at) => match stored_opt_instant(c.invalid_at) {
                        Err(m) => Err(m),
                        Ok(invalid_at) => match stored_instant(c.recorded_at@) {
                            Err(m) => Err(m),
                            Ok(recorded_at) => match stored_instant(c.updated_at@) {
                                Err(m) => Err(m),
                                Ok(updated_at) => match json_required(c.metadata@, "failed to deserialize metadata"@) {
                                    Some(m) => Err(m),
                                    None => Ok(Fact {
                                        id,
                                        org_id: c.org_id,
                                        user_id: c.user_id,
                                        memory_type,
                                        content: c.content,
                                        summary: c.summary,
                                        source,
                                        confidence_bits: c.confidence_bits,
                                        importance_bits: c.importance_bits,
                                        valid_at,
                                        invalid_at,
                                        recorded_at,
                                        updated_at,
                                        metadata_json: c.metadata,
                                    }),
                                },
                            },
                        },
                    },
                },
            },
        },
    }
}

/// Reads a fact back from its columns.
pub fn row_to_fact(c: FactColumns) -> (r: Result<Fact, MemcoreError>)
    ensures
        match r {
            Ok(f) => fact_of(c) == Ok::<Fact, Seq<char>>(f),
            Err(MemcoreError::StorageError(m)) => fact_of(c) == Err::<Fact, Seq<char>>(m@),
            Err(_) => false,
        },
{
    let ghost c0 = c;
    let id = match uuid_with_quote("invalid fact id", c.id.as_str()) {
        Ok(v) => v,
        Err(m) => {
            return Err(MemcoreError::StorageError(m));
        },
    };
    let memory_type = memory_type_from_str(c.memory_type.as_str())?;
    let source = memory_source_from_str(c.source.as_str())?;
    let valid_at = optional_datetime_from_str(&c.valid_at)?;
    let invalid_at = optional_datetime_from_str(&c.invalid_at)?;
    let recorded_at = datetime_from_str(c.recorded_at.as_str())?;
    let updated_at = datetime_from_str(c.updated_at.as_str())?;
    if let Some(m) = require_json(c.metadata.as_str(), "failed to deserialize metadata") {
        return Err(MemcoreError::StorageError(m));
    }
    Ok(Fact {
        id,
        org_id: c.org_id,
        user_id: c.user_id,
        memory_type,
        content: c.content,
        summary: c.summary,
        source,
        confidence_bits: c.confidence_bits,
        importance_bits: c.importance_bits,
        valid_at,
        invalid_at,
        recorded_at,
        updated_at,
        metadata_json: c.metadata,
    })
}


/// The columns of a stored memory event.
pub struct MemoryEventColumns {
    pub id: String,
    pub org_id: String,
    pub user_id: String,
    pub fact_id: Option<String>,
    pub operation: String,
    pub input_text: Option<String>,
    pub previous_content: Option<String>,
    pub new_content: Option<String>,
    pub provider_name: Option<String>,
    pub model_name: Option<String>,
    pub metadata: String,
    pub created_at: String,
}

/// An optional fact id column.
pub open spec fn opt_fact_id(text: Option<String>) -> Result<Option<u128>, Seq<char>> {
    match text {
        None => Ok(None),
        Some(t) => match uuid_quoted("invalid fact_id"@, t@) {
            Ok(v) => Ok(Some(v)),
            Err(m) => Err(m),
        },
    }
}

fn optional_uuid_from_str(value: &Option<String>) -> (r: Result<Option<u128>, MemcoreError>)
    ensures
        match r {
            Ok(v) => opt_fact_id(*value) == Ok::<Option<u128>, Seq<char>>(v),
            Err(MemcoreError::StorageError(m)) => opt_fact_id(*value) == Err::<Option<u128>, Seq<char>>(m@),
            Err(_) => false,
        },
{
    match value {
        None => Ok(None),
        Some(t) => match uuid_with_quote("invalid fact_id", t.as_str()) {
            Ok(v) => Ok(Some(v)),
            Err(m) => Err(MemcoreError::StorageError(m)),
        },
    }
}

/// The memory event a row holds, or the message of its first invalid column.
pub open spec fn memory_event_of(c: MemoryEventColumns) -> Result<MemoryEvent, Seq<char>> {
    match uuid_quoted("invalid memory event id"@, c.id@) {
        Err(m) => Err(m),
        Ok(id) => match opt_fact_id(c.fact_id) {
            Err(m) => Err(m),
            Ok(fact_id) => match operation_of(c.operation@) {
                Err(m) => Err(m),
                Ok(operation) => match json_required(c.metadata@, "failed to deserialize metadata"@) {
                    Some(m) => Err(m),
                    None => match stored_instant(c.created_at@) {
                        Err(m) => Err(m),
                        Ok(created_at) => Ok(MemoryEvent {
                            id,
                            org_id: c.org_id,
                            user_id: c.user_id,
                            fact_id,
                            operation,
                            input_text: c.input_text,
                            previous_content: c.previous_content,
                            new_content: c.new_content,
                            provider_name: c.provider_name,
                            model_name: c.model_name,
                            metadata_json: c.metadata,
                            created_at,
                        }),
                    },
                },
            },
        },
    }
}

/// Reads a memory event back from its columns.
pub fn row_to_memory_event(c: MemoryEventColumns) -> (r: Result<MemoryEvent, MemcoreError>)
    ensures
        match r {
            Ok(e) => memory_event_of(c) == Ok::<MemoryEvent, Seq<char>>(e),
            Err(MemcoreError::StorageError(m)) => memory_event_of(c) == Err::<MemoryEvent, Seq<char>>(m@),
            Err(_) => false,
        },
{
    let id = match uuid_with_quote("invalid memory event id", c.id.as_str()) {
        Ok(v) => v,
        Err(m) => {
            return Err(MemcoreError::StorageError(m));
        },
    };
    let fact_id = optional_uuid_from_str(&c.fact_id)?;
    let operation = memory_event_operation_from_str(c.operation.as_str())?;
    if let Some(m) = require_json(c.metadata.as_str(), "failed to deserialize metadata") {
        return Err(MemcoreError::StorageError(m));
    }
    let created_at = datetime_from_str(c.created_at.as_str())?;
    Ok(MemoryEvent {
        id,
        org_id: c.org_id,
        user_id: c.user_id,
        fact_id,
        operation,
        input_text: c.input_text,
        previous_content: c.previous_content,
        new_content: c.new_content,
        provider_name: c.provider_name,
        model_name: c.model_name,
        metadata_json: c.metadata,
        created_at,
    })
}

/// The columns of a stored API key; the scopes are a JSON list of labels.
pub struct ApiKeyColumns {
    pub id: String,
    pub org_id: String,
    pub name: String,
    pub key_hash: String,
    pub scopes: String,
    pub created_at: String,
    pub revoked_at: Option<String>,
}

/// The scopes of the first `n` labels, or the error of the first invalid one.
pub open spec fn scopes_of(labels: Seq<Seq<char>>, n: int) -> Result<Seq<ApiKeyScope>, Seq<char>>
    decreases n,
{
    if n <= 0 {
        Ok(Seq::empty())
    } else {
        match scopes_of(labels, n - 1) {
            Err(m) => Err(m),
            Ok(prev) => match api_key_scope_parse(labels[n - 1]) {
                Some(s) => Ok(prev.push(s)),
                None => Err(api_key_scope_error_text(labels[n - 1])),
            },
        }
    }
}

/// Scopes stored as a JSON list of labels.
pub open spec fn scopes_json_of(text: Seq<char>) -> Result<Seq<ApiKeyScope>, Seq<char>> {
    match json_string_list(text) {
        Err(e) => Err(context_error("failed to deserialize api key scopes"@, e)),
        Ok(labels) => scopes_of(labels, labels.len() as int),
    }
}

pub fn scopes_from_json(value: &str) -> (r: Result<Vec<ApiKeyScope>, MemcoreError>)
    ensures
        match r {
            Ok(v) => scopes_json_of(value@) == Ok::<Seq<ApiKeyScope>, Seq<char>>(v@),
            Err(MemcoreError::StorageError(m)) => scopes_json_of(value@) == Err::<Seq<ApiKeyScope>, Seq<char>>(m@),
            Err(_) => false,
        },
{
    let labels = match parse_string_list(value) {
        Ok(l) => l,
        Err(e) => {
            return Err(MemcoreError::StorageError(context_message("failed to deserialize api key scopes", e.as_str())));
        },
    };
    let ghost views = labels@.map_values(|s: String| s@);
    let mut scopes: Vec<ApiKeyScope> = Vec::new();
    for i in 0..labels.len()
        invariant
            views == labels@.map_values(|s: String| s@),
            json_string_list(value@) == Ok::<Seq<Seq<char>>, Seq<char>>(views),
            scopes_of(views, i as int) == Ok::<Seq<ApiKeyScope>, Seq<char>>(scopes@),
    {
        match api_key_scope_from_str(labels[i].as_str()) {
            Ok(sc) => {
                scopes.push(sc);
            },
            Err(e) => {
                proof {
                    assert(views[i as int] == labels@[i as int]@);
                    assert(scopes_of(views, i + 1) == Err::<Seq<ApiKeyScope>, Seq<char>>(api_key_scope_error_text(views[i as int])));
                    lemma_scopes_stop(views, i + 1);
                }
                return Err(e);
            },
        }
    }
    Ok(scopes)
}

/// Once a label is invalid, every longer prefix fails with its message.
proof fn lemma_scopes_stop(labels: Seq<Seq<char>>, n: int)
    requires
        0 < n <= labels.len(),
        scopes_of(labels, n) is Err,
    ensures
        scopes_of(labels, labels.len() as int) == scopes_of(labels, n),
    decreases labels.len() - n,
{
    if n < labels.len() {
        assert(scopes_of(labels, n + 1) == scopes_of(labels, n));
        lemma_scopes_stop(labels, n + 1);
    }
}

/// The labels of the scopes, in order.
pub open spec fn scope_labels(scopes: Seq<ApiKeyScope>) -> Seq<Seq<char>> {
    scopes.map_values(|s: ApiKeyScope| s.label())
}

/// The scopes as their stored labels.
pub fn scopes_to_strings(scopes: &Vec<ApiKeyScope>) -> (r: Vec<String>)
    ensures
        r@.map_values(|s: String| s@) == scope_labels(scopes@),
{
    let mut r: Vec<String> = Vec::new();
    for i in 0..scopes.len()
        invariant
            r@.map_values(|s: String| s@) == scope_labels(scopes@.take(i as int)),
    {
        let ghost before = r@.map_values(|s: String| s@);
        let label = String::from_str(crate::conversions::api_key_scope_to_str(scopes[i]));
        assert(label@ == scopes@[i as int].label());
        r.push(label);
        assert(r@.map_values(|s: String| s@) =~= before.push(scopes@[i as int].label()));
        assert(scopes@.take(i + 1) =~= scopes@.take(i as int).push(scopes@[i as int]));
        assert(scope_labels(scopes@.take(i + 1)) =~= scope_labels(scopes@.take(i as int)).push(scopes@[i as int].label()));
    }
    assert(scopes@.take(scopes@.len() as int) =~= scopes@);
    r
}

/// Scopes read back from their labels; the first unknown label is an error.
pub fn scopes_from_strings(values: &Vec<String>) -> (r: Result<Vec<ApiKeyScope>, MemcoreError>)
    ensures
        match r {
            Ok(v) => scopes_of(values@.map_values(|s: String| s@), values@.len() as int) == Ok::<Seq<ApiKeyScope>, Seq<char>>(v@),
            Err(MemcoreError::StorageError(m)) => scopes_of(values@.map_values(|s: String| s@), values@.len() as int)
                == Err::<Seq<ApiKeyScope>, Seq<char>>(m@),
            Err(_) => false,
        },
{
    let ghost views = values@.map_values(|s: String| s@);
    let mut scopes: Vec<ApiKeyScope> = Vec::new();
    for i in 0..values.len()
        invariant
            views == values@.map_values(|s: String| s@),
            scopes_of(views, i as int) == Ok::<Seq<ApiKeyScope>, Seq<char>>(scopes@),
    {
        match api_key_scope_from_str(values[i].as_str()) {
            Ok(sc) => {
                scopes.push(sc);
            },
            Err(e) => {
                proof {
                    assert(views[i as int] == values@[i as int]@);
                    assert(scopes_of(views, i + 1) == Err::<Seq<ApiKeyScope>, Seq<char>>(api_key_scope_error_text(views[i as int])));
                    lemma_scopes_stop(views, i + 1);
                }
                return Err(e);
            },
        }
    }
    Ok(scopes)
}

/// The scopes stored as a JSON list of their labels.
pub fn scopes_to_json(scopes: &Vec<ApiKeyScope>) -> (r: Result<String, MemcoreError>)
    ensures
        match r {
            Ok(t) => crate::parse::json_string_array_text(scope_labels(scopes@)) == Ok::<Seq<char>, Seq<char>>(t@),
            Err(MemcoreError::StorageError(m)) => exists|e: Seq<char>|
                crate::parse::json_string_array_text(scope_labels(scopes@)) == Err::<Seq<char>, Seq<char>>(e)
                    && m@ == context_error("failed to serialize api key scopes"@, e),
            Err(_) => false,
        },
{
    let labels = scopes_to_strings(scopes);
    match crate::parse::string_list_json(&labels) {
        Ok(t) => Ok(t),
        Err(e) => Err(MemcoreError::StorageError(context_message("failed to serialize api key scopes", e.as_str()))),
    }
}

/// The API key a row holds, or the message of its first invalid column.
pub open spec fn api_key_of(c: ApiKeyColumns) -> Result<crate::types::ApiKeyView, Seq<char>> {
    match uuid_quoted("invalid api key id"@, c.id@) {
        Err(m) => Err(m),
        Ok(id) => match scopes_json_of(c.scopes@) {
            Err(m) => Err(m),
            Ok(scopes) => match stored_instant(c.created_at@) {
                Err(m) => Err(m),
                Ok(created_at) => match stored_opt_instant(c.revoked_at) {
                    Err(m) => Err(m),
                    Ok(revoked_at) => Ok(crate::types::ApiKeyView {
                        id,
                        org_id: c.org_id@,
                        name: c.name@,
                        key_hash: c.key_hash@,
                        scopes,
                        created_at,
                        revoked_at,
                    }),
                },
            },
        },
    }
}

/// Reads an API key back from its columns.
pub fn row_to_api_key_record(c: ApiKeyColumns) -> (r: Result<ApiKeyRecord, MemcoreError>)
    ensures
        match r {
            Ok(k) => api_key_of(c) == Ok::<crate::types::ApiKeyView, Seq<char>>(k@),
            Err(MemcoreError::StorageError(m)) => api_key_of(c) == Err::<crate::types::ApiKeyView, Seq<char>>(m@),
            Err(_) => false,
        },
{
    let id = match uuid_with_quote("invalid api key id", c.id.as_str()) {
        Ok(v) => v,
        Err(m) => {
            return Err(MemcoreError::StorageError(m));
        },
    };
    let scopes = scopes_from_json(c.scopes.as_str())?;
    let created_at = datetime_from_str(c.created_at.as_str())?;
    let revoked_at = optional_datetime_from_str(&c.revoked_at)?;
    Ok(ApiKeyRecord { id, org_id: c.org_id, name: c.name, key_hash: c.key_hash, scopes, created_at, revoked_at })
}


/// The columns of a stored provider usage event; the cost is given as the
/// bit pattern of its `f64` value.
pub struct UsageEventColumns {
    pub id: String,
    pub org_id: String,
    pub user_id: Option<String>,
    pub provider_name: String,
    pub model_name: Option<String>,
    pub capability: String,
    pub operation_name: String,
    pub status: String,
    pub input_tokens: Option<i64>,
    pub output_tokens: Option<i64>,
    pub total_tokens: Option<i64>,
    pub retry_count: i64,
    pub fallback_used: i64,
    pub circuit_blocked: i64,
    pub timed_out: i64,
    pub estimated_cost_bits: Option<u64>,
    pub metadata: Option<String>,
    pub created_at: String,
}

/// A stored count as an unsigned number: the integer's bits reinterpreted.
pub open spec fn opt_count(v: Option<i64>) -> Option<u64> {
    match v {
        Some(x) => Some(x as u64),
        None => None,
    }
}

fn opt_count_exec(v: Option<i64>) -> (r: Option<u64>)
    ensures
        r == opt_count(v),
{
    match v {
        Some(x) => Some(x as u64),
        None => None,
    }
}

/// The usage event a row holds, or the message of its first invalid column.
pub open spec fn usage_event_of(c: UsageEventColumns) -> Result<ProviderUsageEventRecord, Seq<char>> {
    match uuid_in("row id uuid"@, c.id@) {
        Err(m) => Err(m),
        Ok(id) => match capability_parse(c.capability@) {
            None => Err(capability_error_text(c.capability@)),
            Some(capability) => match status_parse(c.status@) {
                None => Err(status_error_text(c.status@)),
                Some(status) => match optional_json(c.metadata, "deserialize provider usage metadata"@) {
                    Err(m) => Err(m),
                    Ok(metadata_json) => match stored_instant(c.created_at@) {
                        Err(m) => Err(m),
                        Ok(created_at) => Ok(ProviderUsageEventRecord {
                            id,
                            org_id: c.org_id,
                            user_id: c.user_id,
                            provider_name: c.provider_name,
                            model_name: c.model_name,
                            capability,
                            operation_name: c.operation_name,
                            status,
                            input_tokens: opt_count(c.input_tokens),
                            output_tokens: opt_count(c.output_tokens),
                            total_tokens: opt_count(c.total_tokens),
                            retry_count: c.retry_count as u64,
                            fallback_used: c.fallback_used != 0,
                            circuit_blocked: c.circuit_blocked != 0,
                            timed_out: c.timed_out != 0,
                            estimated_cost_bits: c.estimated_cost_bits,
                            metadata_json,
                            created_at,
                        }),
                    },
                },
            },
        },
    }
}

/// Reads a provider usage event back from its columns.
pub fn row_to_event(c: UsageEventColumns) -> (r: Result<ProviderUsageEventRecord, MemcoreError>)
    ensures
        match r {
            Ok(e) => usage_event_of(c) == Ok::<ProviderUsageEventRecord, Seq<char>>(e),
            Err(MemcoreError::StorageError(m)) => usage_event_of(c) == Err::<ProviderUsageEventRecord, Seq<char>>(m@),
            Err(_) => false,
        },
{
    let id = match uuid_with_context("row id uuid", c.id.as_str()) {
        Ok(v) => v,
        Err(m) => {
            return Err(MemcoreError::StorageError(m));
        },
    };
    let capability = capability_from_str(c.capability.as_str())?;
    let status = status_from_str(c.status.as_str())?;
    let metadata_json = match optional_metadata_from_str(c.metadata, "deserialize provider usage metadata") {
        Ok(m) => m,
        Err(m) => {
            return Err(MemcoreError::StorageError(m));
        },
    };
    let created_at = datetime_from_str(c.created_at.as_str())?;
    Ok(ProviderUsageEventRecord {
        id,
        org_id: c.org_id,
        user_id: c.user_id,
        provider_name: c.provider_name,
        model_name: c.model_name,
        capability,
        operation_name: c.operation_name,
        status,
        input_tokens: opt_count_exec(c.input_tokens),
        output_tokens: opt_count_exec(c.output_tokens),
        total_tokens: opt_count_exec(c.total_tokens),
        retry_count: c.retry_count as u64,
        fallback_used: i64_to_bool(c.fallback_used),
        circuit_blocked: i64_to_bool(c.circuit_blocked),
        timed_out: i64_to_bool(c.timed_out),
        estimated_cost_bits: c.estimated_cost_bits,
        metadata_json,
        created_at,
    })
}

/// The columns of a stored job run; a count column that could not be read
/// is `None`.
pub struct JobRunColumns {
    pub id: String,
    pub kind: String,
    pub status: String,
    pub started_at: String,
    pub finished_at: Option<String>,
    pub duration_ms: Option<i64>,
    pub attempt_count: Option<i64>,
    pub max_attempts: Option<i64>,
    pub retried: bool,
    pub error_code: Option<String>,
    pub error_message: Option<String>,
    pub metadata: Option<String>,
}

/// A positive stored count, else one.
pub open spec fn count_or_one(v: Option<i64>) -> usize {
    match v {
        Some(x) => if x > 0 {
            x as usize
        } else {
            1
        },
        None => 1,
    }
}

fn count_or_one_exec(v: Option<i64>) -> (r: usize)
    ensures
        r == count_or_one(v),
{
    match v {
        Some(x) => {
            if x > 0 {
                x as usize
            } else {
                1
            }
        },
        None => 1,
    }
}

pub open spec fn run_time_context() -> Seq<char> {
    "parse sqlite background job timestamp"@
}

/// An optional run timestamp.
pub open spec fn opt_instant_in(context: Seq<char>, text: Option<String>) -> Result<Option<i128>, Seq<char>> {
    match text {
        None => Ok(None),
        Some(t) => match instant_in(context, t@) {
            Ok(v) => Ok(Some(v)),
            Err(m) => Err(m),
        },
    }
}

fn opt_instant_with_context(context: &str, value: &Option<String>) -> (r: Result<Option<i128>, String>)
    ensures
        match r {
            Ok(v) => opt_instant_in(context@, *value) == Ok::<Option<i128>, Seq<char>>(v),
            Err(m) => opt_instant_in(context@, *value) == Err::<Option<i128>, Seq<char>>(m@),
        },
{
    match value {
        None => Ok(None),
        Some(t) => match instant_with_context(context, t.as_str()) {
            Ok(v) => Ok(Some(v)),
            Err(m) => Err(m),
        },
    }
}

/// The job run a row holds, or the message of its first invalid column.
pub open spec fn job_run_of(c: JobRunColumns) -> Result<StoredBackgroundJobRun, Seq<char>> {
    match uuid_in("row id uuid"@, c.id@) {
        Err(m) => Err(m),
        Ok(id) => match job_kind_parse(c.kind@) {
            None => Err(job_kind_error_text(c.kind@)),
            Some(kind) => match job_status_parse(c.status@) {
                None => Err(job_status_error_text(c.status@)),
                Some(status) => match instant_in(run_time_context(), c.started_at@) {
                    Err(m) => Err(m),
                    Ok(started_at) => match opt_instant_in(run_time_context(), c.finished_at) {
                        Err(m) => Err(m),
                        Ok(finished_at) => match optional_json(c.metadata, "deserialize background job run metadata"@) {
                            Err(m) => Err(m),
                            Ok(metadata_json) => Ok(StoredBackgroundJobRun {
                                id,
                                kind,
                                status,
                                started_at,
                                finished_at,
                                duration_ms: opt_count(c.duration_ms),
                                attempt_count: count_or_one(c.attempt_count),
                                max_attempts: count_or_one(c.max_attempts),
                                retried: c.retried,
                                error_code: c.error_code,
                                error_message: c.error_message,
                                metadata_json,
                            }),
                        },
                    },
                },
            },
        },
    }
}

/// Reads a job run back from its columns.
pub fn row_to_run(c: JobRunColumns) -> (r: Result<StoredBackgroundJobRun, MemcoreError>)
    ensures
        match r {
            Ok(x) => job_run_of(c) == Ok::<StoredBackgroundJobRun, Seq<char>>(x),
            Err(MemcoreError::StorageError(m)) => job_run_of(c) == Err::<StoredBackgroundJobRun, Seq<char>>(m@),
            Err(_) => false,
        },
{
    let id = match uuid_with_context("row id uuid", c.id.as_str()) {
        Ok(v) => v,
        Err(m) => {
            return Err(MemcoreError::StorageError(m));
        },
    };
    let kind = job_kind_from_str(c.kind.as_str())?;
    let status = job_status_from_str(c.status.as_str())?;
    let started_at = match instant_with_context("parse sqlite background job timestamp", c.started_at.as_str()) {
        Ok(v) => v,
        Err(m) => {
            return Err(MemcoreError::StorageError(m));
        },
    };
    let finished_at = match opt_instant_with_context("parse sqlite background job timestamp", &c.finished_at) {
        Ok(v) => v,
        Err(m) => {
            return Err(MemcoreError::StorageError(m));
        },
    };
    let metadata_json = match optional_metadata_from_str(c.metadata, "deserialize background job run metadata") {
        Ok(m) => m,
        Err(m) => {
            return Err(MemcoreError::StorageError(m));
        },
    };
    Ok(StoredBackgroundJobRun {
        id,
        kind,
        status,
        started_at,
        finished_at,
        duration_ms: opt_count_exec(c.duration_ms),
        attempt_count: count_or_one_exec(c.attempt_count),
        max_attempts: count_or_one_exec(c.max_attempts),
        retried: c.retried,
        error_code: c.error_code,
        error_message: c.error_message,
        metadata_json,
    })
}

/// The columns of a stored job lease.
pub struct JobLockColumns {
    pub kind: String,
    pub owner_id: String,
    pub locked_until: String,
    pub acquired_at: String,
    pub heartbeat_at: Option<String>,
}

pub open spec fn lock_time_context() -> Seq<char> {
    "parse sqlite background job lock timestamp"@
}

/// The lease a row holds, or the message of its first invalid column.
pub open spec fn job_lock_of(c: JobLockColumns) -> Result<crate::jobs::JobLockView, Seq<char>> {
    match job_kind_parse(c.kind@) {
        None => Err(job_kind_error_text(c.kind@)),
        Some(kind) => match instant_in(lock_time_context(), c.locked_until@) {
            Err(m) => Err(m),
            Ok(locked_until) => match instant_in(lock_time_context(), c.acquired_at@) {
                Err(m) => Err(m),
                Ok(acquired_at) => match opt_instant_in(lock_time_context(), c.heartbeat_at) {
                    Err(m) => Err(m),
                    Ok(heartbeat_at) => Ok(crate::jobs::JobLockView {
                        kind,
                        owner_id: c.owner_id@,
                        locked_until,
                        acquired_at,
                        heartbeat_at,
                    }),
                },
            },
        },
    }
}

/// Reads a job lease back from its columns.
pub fn row_to_lock(c: JobLockColumns) -> (r: Result<JobLockRecord, MemcoreError>)
    ensures
        match r {
            Ok(l) => job_lock_of(c) == Ok::<crate::jobs::JobLockView, Seq<char>>(l@),
            Err(MemcoreError::StorageError(m)) => job_lock_of(c) == Err::<crate::jobs::JobLockView, Seq<char>>(m@),
            Err(_) => false,
        },
{
    let kind = job_kind_from_str(c.kind.as_str())?;
    let locked_until = match instant_with_context("parse sqlite background job lock timestamp", c.locked_until.as_str()) {
        Ok(v) => v,
        Err(m) => {
            return Err(MemcoreError::StorageError(m));
        },
    };
    let acquired_at = match instant_with_context("parse sqlite background job lock timestamp", c.acquired_at.as_str()) {
        Ok(v) => v,
        Err(m) => {
            return Err(MemcoreError::StorageError(m));
        },
    };
    let heartbeat_at = match opt_instant_with_context("parse sqlite background job lock timestamp", &c.heartbeat_at) {
        Ok(v) => v,
        Err(m) => {
            return Err(MemcoreError::StorageError(m));
        },
    };
    Ok(JobLockRecord { kind, owner_id: c.owner_id, locked_until, acquired_at, heartbeat_at })
}

/// The columns of a stored memory usage snapshot.
pub struct SnapshotColumns {
    pub id: String,
    pub org_id: String,
    pub total_users: i64,
    pub total_memories: i64,
    pub active_memories: i64,
    pub deleted_memories: Option<i64>,
    pub captured_at: String,
    pub metadata: Option<String>,
}

/// The snapshot a row holds, or the message of its first invalid column.
pub open spec fn snapshot_of(c: SnapshotColumns) -> Result<MemoryUsageSnapshot, Seq<char>> {
    match uuid_in("row id uuid"@, c.id@) {
        Err(m) => Err(m),
        Ok(id) => match stored_instant(c.captured_at@) {
            Err(m) => Err(m),
            Ok(captured_at) => match optional_json(c.metadata, "deserialize memory usage snapshot metadata"@) {
                Err(m) => Err(m),
                Ok(metadata_json) => Ok(MemoryUsageSnapshot {
                    id,
                    org_id: c.org_id,
                    total_users: c.total_users as u64,
                    total_memories: c.total_memories as u64,
                    active_memories: c.active_memories as u64,
                    deleted_memories: opt_count(c.deleted_memories),
                    captured_at,
                    metadata_json,
                }),
            },
        },
    }
}

/// Reads a memory usage snapshot back from its columns.
pub fn row_to_snapshot(c: SnapshotColumns) -> (r: Result<MemoryUsageSnapshot, MemcoreError>)
    ensures
        match r {
            Ok(x) => snapshot_of(c) == Ok::<MemoryUsageSnapshot, Seq<char>>(x),
            Err(MemcoreError::StorageError(m)) => snapshot_of(c) == Err::<MemoryUsageSnapshot, Seq<char>>(m@),
            Err(_) => false,
        },
{
    let id = match uuid_with_context("row id uuid", c.id.as_str()) {
        Ok(v) => v,
        Err(m) => {
            return Err(MemcoreError::StorageError(m));
        },
    };
    let captured_at = datetime_from_str(c.captured_at.as_str())?;
    let metadata_json = match optional_metadata_from_str(c.metadata, "deserialize memory usage snapshot metadata") {
        Ok(m) => m,
        Err(m) => {
            return Err(MemcoreError::StorageError(m));
        },
    };
    Ok(MemoryUsageSnapshot {
        id,
        org_id: c.org_id,
        total_users: c.total_users as u64,
        total_memories: c.total_memories as u64,
        active_memories: c.active_memories as u64,
        deleted_memories: opt_count_exec(c.deleted_memories),
        captured_at,
        metadata_json,
    })
}

/// The columns of a stored organization plan.
pub struct PlanColumns {
    pub org_id: String,
    pub tier: String,
    pub max_users_per_org: Option<i64>,
    pub max_memories_per_user: Option<i64>,
    pub max_memories_per_org: Option<i64>,
    pub daily_provider_request_limit: Option<i64>,
    pub daily_provider_token_limit: Option<i64>,
    pub is_active: i64,
    pub metadata: Option<String>,
    pub created_at: String,
    pub updated_at: String,
}

/// A stored optional limit: only a positive value is a limit.
pub open spec fn positive_limit(v: Option<i64>) -> Option<u64> {
    match v {
        Some(x) => if x > 0 {
            Some(x as u64)
        } else {
            None
        },
        None => None,
    }
}

/// The plan a row holds, or the message of its first invalid column.
pub open spec fn plan_of(c: PlanColumns) -> Result<OrgPlanConfig, Seq<char>> {
    match tier_parse(c.tier@) {
        None => Err(tier_error_text(c.tier@)),
        Some(tier) => match optional_json(c.metadata, "deserialize org plan metadata"@) {
            Err(m) => Err(m),
            Ok(metadata_json) => match stored_instant(c.created_at@) {
                Err(m) => Err(m),
                Ok(created_at) => match stored_instant(c.updated_at@) {
                    Err(m) => Err(m),
                    Ok(updated_at) => Ok(OrgPlanConfig {
                        org_id: c.org_id,
                        tier,
                        limits: OrgPlanLimits {
                            max_users_per_org: positive_limit(c.max_users_per_org),
                            max_memories_per_user: positive_limit(c.max_memories_per_user),
                            max_memories_per_org: positive_limit(c.max_memories_per_org),
                            daily_provider_request_limit: positive_limit(c.daily_provider_request_limit),
                            daily_provider_token_limit: positive_limit(c.daily_provider_token_limit),
                        },
                        is_active: c.is_active != 0,
                        metadata_json,
                        created_at,
                        updated_at,
                    }),
                },
            },
        },
    }
}

/// Reads an organization plan back from its columns.
pub fn row_to_plan(c: PlanColumns) -> (r: Result<OrgPlanConfig, MemcoreError>)
    ensures
        match r {
            Ok(p) => plan_of(c) == Ok::<OrgPlanConfig, Seq<char>>(p),
            Err(MemcoreError::StorageError(m)) => plan_of(c) == Err::<OrgPlanConfig, Seq<char>>(m@),
            Err(_) => false,
        },
{
    let tier = tier_from_storage(c.tier.as_str())?;
    let metadata_json = match optional_metadata_from_str(c.metadata, "deserialize org plan metadata") {
        Ok(m) => m,
        Err(m) => {
            return Err(MemcoreError::StorageError(m));
        },
    };
    let created_at = datetime_from_str(c.created_at.as_str())?;
    let updated_at = datetime_from_str(c.updated_at.as_str())?;
    Ok(OrgPlanConfig {
        org_id: c.org_id,
        tier,
        limits: OrgPlanLimits {
            max_users_per_org: optional_i64_to_u64(c.max_users_per_org),
            max_memories_per_user: optional_i64_to_u64(c.max_memories_per_user),
            max_memories_per_org: optional_i64_to_u64(c.max_memories_per_org),
            daily_provider_request_limit: optional_i64_to_u64(c.daily_provider_request_limit),
            daily_provider_token_limit: optional_i64_to_u64(c.daily_provider_token_limit),
        },
        is_active: i64_to_bool(c.is_active),
        metadata_json,
        created_at,
        updated_at,
    })
}

/// The columns of a recorded migration.
pub struct AppliedColumns {
    pub version: i64,
    pub name: String,
    pub checksum: String,
    pub applied_at: String,
}

pub open spec fn applied_of(c: AppliedColumns) -> Result<i128, Seq<char>> {
    instant_in("parse sqlite migration applied_at"@, c.applied_at@)
}

/// Reads a recorded migration back; an unreadable time is a migration error.
pub fn parse_applied_row(c: AppliedColumns) -> (r: Result<AppliedMigration, MemcoreError>)
    ensures
        match r {
            Ok(a) => applied_of(c) == Ok::<i128, Seq<char>>(a.applied_at) && a.version == c.version && a.name == c.name
                && a.checksum == c.checksum,
            Err(MemcoreError::MigrationError(m)) => applied_of(c) == Err::<i128, Seq<char>>(m@),
            Err(_) => false,
        },
{
    let applied_at = match instant_with_context("parse sqlite migration applied_at", c.applied_at.as_str()) {
        Ok(v) => v,
        Err(m) => {
            return Err(MemcoreError::MigrationError(m));
        },
    };
    Ok(AppliedMigration { version: c.version, name: c.name, checksum: c.checksum, applied_at })
}


/// The ids of the first `n` rows, parsed in order, or the error of the
/// first that is not a UUID.
pub open spec fn fact_ids_of(texts: Seq<String>, n: nat) -> Result<Seq<u128>, Seq<char>>
    decreases n,
{
    if n == 0 {
        Ok(Seq::empty())
    } else {
        match fact_ids_of(texts, (n - 1) as nat) {
            Err(e) => Err(e),
            Ok(prev) => match uuid_in("invalid fact id"@, texts[n - 1]@) {
                Err(e) => Err(e),
                Ok(id) => Ok(prev.push(id)),
            },
        }
    }
}

proof fn lemma_fact_ids_error_stays(texts: Seq<String>, k: nat, n: nat)
    requires
        k <= n,
        fact_ids_of(texts, k) is Err,
    ensures
        fact_ids_of(texts, n) == fact_ids_of(texts, k),
    decreases n - k,
{
    if n > k {
        lemma_fact_ids_error_stays(texts, k, (n - 1) as nat);
    }
}

/// Parses the ids a retention query selected.
pub fn parse_fact_ids(texts: &Vec<String>) -> (r: Result<Vec<u128>, MemcoreError>)
    ensures
        match r {
            Ok(ids) => fact_ids_of(texts@, texts.len() as nat) == Ok::<Seq<u128>, Seq<char>>(ids@),
            Err(MemcoreError::StorageError(m)) => fact_ids_of(texts@, texts.len() as nat) == Err::<Seq<u128>, Seq<char>>(m@),
            Err(_) => false,
        },
{
    let mut ids: Vec<u128> = Vec::new();
    let mut i: usize = 0;
    assert(ids@ =~= Seq::<u128>::empty());
    while i < texts.len()
        invariant
            i <= texts.len(),
            fact_ids_of(texts@, i as nat) == Ok::<Seq<u128>, Seq<char>>(ids@),
        decreases texts.len() - i,
    {
        match uuid_with_context("invalid fact id", texts[i].as_str()) {
            Ok(id) => {
                ids.push(id);
            },
            Err(m) => {
                proof {
                    lemma_fact_ids_error_stays(texts@, (i + 1) as nat, texts.len() as nat);
                }
                return Err(MemcoreError::StorageError(m));
            },
        }
        i = i + 1;
    }
    Ok(ids)
}

} // verus!
