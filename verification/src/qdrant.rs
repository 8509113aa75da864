//! The Qdrant-backed vector store's own logic: the payload each point
//! carries, the filters its requests use, and reading a scored point back.
//! Filters are plain data here; a caller turns them into the client's types.

use vstd::prelude::*;
use crate::conversions::{memory_type_parse, memory_type_from_str, memory_type_to_str, memory_type_error_text};
use crate::errors::MemcoreError;
use crate::facts::id_message;
use crate::ids::{uuid_string, uuid_text};
use crate::parse::{check_json, json_value_error, parse_uuid, uuid_parse};
use crate::text::str_eq;
use crate::types::{MemoryType, TenantContext};
use crate::vector::{SearchHit, VectorRecord, VectorSearchQuery, vector_not_found_text};

verus! {

/// A payload field that must hold exactly this text.
#[derive(Debug)]
pub struct MatchCondition {
    pub key: String,
    pub value: String,
}

/// One clause of a filter: a condition, or a group of which one must hold.
#[derive(Debug)]
pub enum FilterClause {
    Match(MatchCondition),
    AnyOf(Vec<MatchCondition>),
}

pub struct MatchView {
    pub key: Seq<char>,
    pub value: Seq<char>,
}

pub enum ClauseView {
    Match(MatchView),
    AnyOf(Seq<MatchView>),
}

impl View for MatchCondition {
    type V = MatchView;

    open spec fn view(&self) -> MatchView {
        MatchView { key: self.key@, value: self.value@ }
    }
}

impl View for FilterClause {
    type V = ClauseView;

    open spec fn view(&self) -> ClauseView {
        match self {
            FilterClause::Match(m) => ClauseView::Match(m@),
            FilterClause::AnyOf(ms) => ClauseView::AnyOf(ms@.map_values(|m: MatchCondition| m@)),
        }
    }
}

pub open spec fn match_view(key: Seq<char>, value: Seq<char>) -> MatchView {
    MatchView { key, value }
}

fn match_condition(key: &str, value: String) -> (r: MatchCondition)
    ensures
        r@ == match_view(key@, value@),
{
    MatchCondition { key: String::from_str(key), value }
}

/// Every clause must hold: the tenant's organization and user.
pub open spec fn tenant_clauses(tenant: TenantContext) -> Seq<ClauseView> {
    seq![
        ClauseView::Match(match_view("org_id"@, tenant.org_id@)),
        ClauseView::Match(match_view("user_id"@, tenant.user_id@)),
    ]
}

pub fn qdrant_tenant_filter(tenant: &TenantContext) -> (r: Vec<FilterClause>)
    ensures
        r@.map_values(|c: FilterClause| c@) == tenant_clauses(*tenant),
{
    let mut r: Vec<FilterClause> = Vec::new();
    r.push(FilterClause::Match(match_condition("org_id", tenant.org_id.clone())));
    r.push(FilterClause::Match(match_condition("user_id", tenant.user_id.clone())));
    assert(r@.map_values(|c: FilterClause| c@) =~= tenant_clauses(*tenant));
    r
}

/// The tenant's points of one fact.
pub open spec fn tenant_fact_clauses(tenant: TenantContext, fact_id: u128) -> Seq<ClauseView> {
    tenant_clauses(tenant).push(ClauseView::Match(match_view("fact_id"@, uuid_text(fact_id))))
}

pub fn qdrant_tenant_fact_filter(tenant: &TenantContext, fact_id: u128) -> (r: Vec<FilterClause>)
    ensures
        r@.map_values(|c: FilterClause| c@) == tenant_fact_clauses(*tenant, fact_id),
{
    let mut r = qdrant_tenant_filter(tenant);
    let ghost before = r@.map_values(|c: FilterClause| c@);
    r.push(FilterClause::Match(match_condition("fact_id", uuid_string(fact_id))));
    assert(r@.map_values(|c: FilterClause| c@) =~= before.push(ClauseView::Match(match_view("fact_id"@, uuid_text(fact_id)))));
    r
}

/// One condition per memory type, on its label.
pub open spec fn type_matches(types: Seq<MemoryType>) -> Seq<MatchView> {
    types.map_values(|t: MemoryType| match_view("memory_type"@, t.label()))
}

/// The tenant, and one of the memory types when some are named.
pub open spec fn search_clauses(q: VectorSearchQuery) -> Seq<ClauseView> {
    match q.memory_types {
        Some(types) => if types@.len() > 0 {
            tenant_clauses(q.tenant).push(ClauseView::AnyOf(type_matches(types@)))
        } else {
            tenant_clauses(q.tenant)
        },
        None => tenant_clauses(q.tenant),
    }
}

pub fn qdrant_search_filter(query: &VectorSearchQuery) -> (r: Vec<FilterClause>)
    ensures
        r@.map_values(|c: FilterClause| c@) == search_clauses(*query),
{
    let mut r = qdrant_tenant_filter(&query.tenant);
    if let Some(types) = &query.memory_types {
        if types.len() > 0 {
            let mut any: Vec<MatchCondition> = Vec::new();
            for i in 0..types.len()
                invariant
                    any@.map_values(|m: MatchCondition| m@) == type_matches(types@.take(i as int)),
            {
                let ghost before = any@.map_values(|m: MatchCondition| m@);
                let label = String::from_str(memory_type_to_str(types[i]));
                let cond = match_condition("memory_type", label);
                assert(cond@ == match_view("memory_type"@, types@[i as int].label()));
                any.push(cond);
                assert(any@.map_values(|m: MatchCondition| m@) =~= before.push(cond@));
                assert(types@.take(i + 1) =~= types@.take(i as int).push(types@[i as int]));
                assert(type_matches(types@.take(i + 1)) =~= type_matches(types@.take(i as int)).push(cond@));
            }
            assert(types@.take(types@.len() as int) =~= types@);
            let ghost before = r@.map_values(|c: FilterClause| c@);
            r.push(FilterClause::AnyOf(any));
            assert(r@.map_values(|c: FilterClause| c@) =~= before.push(ClauseView::AnyOf(type_matches(types@))));
        }
    }
    r
}

/// The text fields a point's payload carries.
pub open spec fn payload_fields(r: crate::vector::VectorRecordView) -> Seq<(Seq<char>, Seq<char>)> {
    seq![
        ("id"@, uuid_text(r.id)),
        ("fact_id"@, uuid_text(r.fact_id)),
        ("org_id"@, r.org_id),
        ("user_id"@, r.user_id),
        ("content"@, r.content),
        ("memory_type"@, r.memory_type.label()),
        ("metadata"@, r.metadata_json),
    ]
}

pub fn record_to_payload(record: &VectorRecord) -> (r: Vec<(String, String)>)
    ensures
        r@.map_values(|p: (String, String)| (p.0@, p.1@)) == payload_fields(record@),
{
    let mut r: Vec<(String, String)> = Vec::new();
    r.push((String::from_str("id"), uuid_string(record.id)));
    r.push((String::from_str("fact_id"), uuid_string(record.fact_id)));
    r.push((String::from_str("org_id"), record.org_id.clone()));
    r.push((String::from_str("user_id"), record.user_id.clone()));
    r.push((String::from_str("content"), record.content.clone()));
    r.push((String::from_str("memory_type"), String::from_str(memory_type_to_str(record.memory_type))));
    r.push((String::from_str("metadata"), record.metadata_json.clone()));
    assert(r@.map_values(|p: (String, String)| (p.0@, p.1@)) =~= payload_fields(record@));
    r
}

/// A payload as read back: each field with its text, or `None` when the
/// field holds something other than text.
pub type PayloadEntries = Vec<(String, Option<String>)>;

/// The text of field `key`, or the error reading it gives.
pub open spec fn payload_text(payload: Seq<(String, Option<String>)>, key: Seq<char>) -> Result<Seq<char>, Seq<char>> {
    if exists|i: int| 0 <= i < payload.len() && (#[trigger] payload[i]).0@ == key {
        let i = choose|i: int| 0 <= i < payload.len() && (#[trigger] payload[i]).0@ == key && forall|j: int|
            0 <= j < i ==> payload[j].0@ != key;
        match payload[i].1 {
            Some(v) => Ok(v@),
            None => Err("invalid qdrant payload value: expected string value"@),
        }
    } else {
        Err("missing qdrant payload field: "@ + key + " missing"@)
    }
}

/// Reads the text of field `key` (the first entry with that key).
pub fn map_string(payload: &PayloadEntries, key: &str) -> (r: Result<String, MemcoreError>)
    ensures
        match r {
            Ok(v) => payload_text(payload@, key@) == Ok::<Seq<char>, Seq<char>>(v@),
            Err(MemcoreError::StorageError(m)) => payload_text(payload@, key@) == Err::<Seq<char>, Seq<char>>(m@),
            Err(_) => false,
        },
{
    let mut i: usize = 0;
    while i < payload.len()
        invariant
            i <= payload@.len(),
            forall|j: int| 0 <= j < i ==> (#[trigger] payload@[j]).0@ != key@,
        decreases payload.len() - i,
    {
        if str_eq(payload[i].0.as_str(), key) {
            proof {
                let k = choose|k: int| 0 <= k < payload@.len() && (#[trigger] payload@[k]).0@ == key@ && forall|j: int|
                    0 <= j < k ==> payload@[j].0@ != key@;
                assert(payload@[i as int].0@ == key@);
                if k < i {
                    assert(payload@[k].0@ != key@);
                } else if k > i {
                    assert(payload@[i as int].0@ != key@);
                }
            }
            return match &payload[i].1 {
                Some(v) => Ok(v.clone()),
                None => Err(MemcoreError::StorageError(String::from_str("invalid qdrant payload value: expected string value"))),
            };
        }
        i = i + 1;
    }
    let mut m = String::from_str("missing qdrant payload field: ");
    m.append(key);
    m.append(" missing");
    Err(MemcoreError::StorageError(m))
}

/// The hit a payload describes, or the message of the first field that is
/// missing or invalid, in the order fact id, memory type, metadata, content.
pub open spec fn hit_of(payload: Seq<(String, Option<String>)>) -> Result<(u128, MemoryType, Seq<char>, Seq<char>), Seq<char>> {
    if payload.len() == 0 {
        Err("missing qdrant point payload: payload absent"@)
    } else {
        match payload_text(payload, "fact_id"@) {
            Err(m) => Err(m),
            Ok(f) => match uuid_parse(f) {
                Err(e) => Err("invalid fact_id uuid in qdrant payload: "@ + e),
                Ok(fact_id) => match payload_text(payload, "memory_type"@) {
                    Err(m) => Err(m),
                    Ok(t) => match memory_type_parse(t) {
                        None => Err(memory_type_error_text(t)),
                        Some(memory_type) => match payload_text(payload, "metadata"@) {
                            Err(m) => Err(m),
                            Ok(meta) => match json_value_error(meta) {
                                Some(e) => Err("invalid metadata json in qdrant payload: "@ + e),
                                None => match payload_text(payload, "content"@) {
                                    Err(m) => Err(m),
                                    Ok(content) => Ok((fact_id, memory_type, meta, content)),
                                },
                            },
                        },
                    },
                },
            },
        }
    }
}

/// Reads a scored point's payload back.
#[verifier::rlimit(40)]
pub fn scored_point_to_result(payload: &PayloadEntries) -> (r: Result<SearchHit, MemcoreError>)
    ensures
        match r {
            Ok(h) => hit_of(payload@) == Ok::<(u128, MemoryType, Seq<char>, Seq<char>), Seq<char>>(h@),
            Err(MemcoreError::StorageError(m)) => hit_of(payload@) == Err::<(u128, MemoryType, Seq<char>, Seq<char>), Seq<char>>(m@),
            Err(_) => false,
        },
{
    if payload.len() == 0 {
        return Err(MemcoreError::StorageError(String::from_str("missing qdrant point payload: payload absent")));
    }
    let fact_text = match map_string(payload, "fact_id") {
        Ok(v) => v,
        Err(e) => return Err(e),
    };
    let fact_id = match parse_uuid(fact_text.as_str()) {
        Ok(v) => v,
        Err(e) => {
            let mut m = String::from_str("invalid fact_id uuid in qdrant payload: ");
            m.append(e.as_str());
            return Err(MemcoreError::StorageError(m));
        },
    };
    let type_text = match map_string(payload, "memory_type") {
        Ok(v) => v,
        Err(e) => return Err(e),
    };
    let memory_type = match memory_type_from_str(type_text.as_str()) {
        Ok(v) => v,
        Err(e) => return Err(e),
    };
    let metadata_json = match map_string(payload, "metadata") {
        Ok(v) => v,
        Err(e) => return Err(e),
    };
    if let Some(e) = check_json(metadata_json.as_str()) {
        let mut m = String::from_str("invalid metadata json in qdrant payload: ");
        m.append(e.as_str());
        return Err(MemcoreError::StorageError(m));
    }
    let content = match map_string(payload, "content") {
        Ok(v) => v,
        Err(e) => return Err(e),
    };
    Ok(SearchHit { fact_id, content, memory_type, metadata_json })
}

/// A deletion by fact needs at least one matching point.
pub fn require_fact_vectors(matching: u64, fact_id: u128) -> (r: Result<(), MemcoreError>)
    ensures
        if matching > 0 {
            r is Ok
        } else {
            r matches Err(MemcoreError::NotFound(m)) && m@ == vector_not_found_text(fact_id)
        },
{
    if matching == 0 {
        return Err(MemcoreError::NotFound(id_message("vector record not found for fact: ", fact_id)));
    }
    Ok(())
}

/// The Qdrant vector store's settings.
#[derive(Debug)]
pub struct QdrantVectorStore {
    pub collection_name: String,
    pub dimensions: usize,
}

impl QdrantVectorStore {
    /// Refuses embeddings of no dimension.
    pub fn new(collection_name: &str, dimensions: usize) -> (r: Result<QdrantVectorStore, MemcoreError>)
        ensures
            if dimensions > 0 {
                r matches Ok(s) && s.dimensions == dimensions && s.collection_name@ == collection_name@
            } else {
                r matches Err(MemcoreError::ValidationError(msg)) && msg@ == "embedding dimensions must be greater than 0"@
            },
    {
        if dimensions == 0 {
            return Err(MemcoreError::ValidationError(String::from_str("embedding dimensions must be greater than 0")));
        }
        Ok(QdrantVectorStore { collection_name: String::from_str(collection_name), dimensions })
    }
}

} // verus!
