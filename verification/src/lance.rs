//! The LanceDB-backed vector store's own logic: the filter predicates it
//! hands the table, with every value quoted as an SQL string literal, and
//! the checks on embedding sizes.

use vstd::prelude::*;
use crate::backup::{escape_sqlite_path_literal, quote_doubled};
use crate::conversions::{memory_type_error_text, memory_type_from_str, memory_type_parse, memory_type_to_str};
use crate::errors::MemcoreError;
use crate::ids::{uuid_string, uuid_text};
use crate::text::{decimal_text, push_decimal};
use crate::types::{MemoryType, TenantContext, same_tenant};
use crate::parse::{check_json, json_value_error, parse_uuid, uuid_parse};
use crate::vector::{SearchHit, VectorRecord};

verus! {

/// `value` with every `'` doubled, for use inside a quoted literal.
pub fn escape_sql_literal(value: &str) -> (r: String)
    ensures
        r@ == quote_doubled(value@),
{
    escape_sqlite_path_literal(value)
}

/// `org_id = '{org}' AND user_id = '{user}'`, both quoted.
pub open spec fn tenant_filter_text(tenant: TenantContext) -> Seq<char> {
    "org_id = '"@ + quote_doubled(tenant.org_id@) + "' AND user_id = '"@ + quote_doubled(tenant.user_id@) + "'"@
}

pub fn tenant_filter(tenant: &TenantContext) -> (r: String)
    ensures
        r@ == tenant_filter_text(*tenant),
{
    let mut r = String::from_str("org_id = '");
    r.append(escape_sql_literal(tenant.org_id.as_str()).as_str());
    r.append("' AND user_id = '");
    r.append(escape_sql_literal(tenant.user_id.as_str()).as_str());
    r.append("'");
    r
}

/// The quoted labels of the first `n` types, separated by `, `.
pub open spec fn quoted_labels(types: Seq<MemoryType>, n: int) -> Seq<char>
    decreases n,
{
    if n <= 0 {
        Seq::empty()
    } else if n == 1 {
        "'"@ + quote_doubled(types[0].label()) + "'"@
    } else {
        quoted_labels(types, n - 1) + ", '"@ + quote_doubled(types[n - 1].label()) + "'"@
    }
}

/// `memory_type IN ('a', 'b', ...)`.
pub open spec fn memory_types_filter_text(types: Seq<MemoryType>) -> Seq<char> {
    "memory_type IN ("@ + quoted_labels(types, types.len() as int) + ")"@
}

pub fn memory_types_filter(types: &Vec<MemoryType>) -> (r: String)
    ensures
        r@ == memory_types_filter_text(types@),
{
    let mut list = String::new();
    for i in 0..types.len()
        invariant
            list@ == quoted_labels(types@, i as int),
    {
        if i > 0 {
            list.append(", '");
        } else {
            list.append("'");
        }
        list.append(escape_sql_literal(memory_type_to_str(types[i])).as_str());
        list.append("'");
        proof {
            if i == 0 {
                assert(list@ =~= quoted_labels(types@, 1));
            } else {
                assert(list@ =~= quoted_labels(types@, i + 1));
            }
        }
    }
    let mut r = String::from_str("memory_type IN (");
    r.append(list.as_str());
    r.append(")");
    r
}

/// The predicate selecting a tenant's vectors of one fact.
pub open spec fn fact_predicate_text(tenant: TenantContext, fact_id: u128) -> Seq<char> {
    tenant_filter_text(tenant) + " AND fact_id = '"@ + quote_doubled(uuid_text(fact_id)) + "'"@
}

pub fn fact_predicate(tenant: &TenantContext, fact_id: u128) -> (r: String)
    ensures
        r@ == fact_predicate_text(*tenant, fact_id),
{
    let mut r = tenant_filter(tenant);
    r.append(" AND fact_id = '");
    r.append(escape_sql_literal(uuid_string(fact_id).as_str()).as_str());
    r.append("'");
    r
}

/// The predicate of a search: the tenant, and the memory types when some
/// are named.
pub open spec fn search_filter_text(tenant: TenantContext, types: Option<Vec<MemoryType>>) -> Seq<char> {
    match types {
        Some(t) => if t@.len() > 0 {
            tenant_filter_text(tenant) + " AND "@ + memory_types_filter_text(t@)
        } else {
            tenant_filter_text(tenant)
        },
        None => tenant_filter_text(tenant),
    }
}

pub fn search_filter(tenant: &TenantContext, types: &Option<Vec<MemoryType>>) -> (r: String)
    ensures
        r@ == search_filter_text(*tenant, *types),
{
    let mut filter = tenant_filter(tenant);
    if let Some(t) = types {
        if t.len() > 0 {
            filter.append(" AND ");
            filter.append(memory_types_filter(t).as_str());
        }
    }
    filter
}

/// Refuses a record of another tenant.
pub fn ensure_record_tenant(record: &VectorRecord, tenant: &TenantContext) -> (r: Result<(), MemcoreError>)
    ensures
        if same_tenant(record.org_id@, record.user_id@, *tenant) {
            r is Ok
        } else {
            r matches Err(MemcoreError::Forbidden)
        },
{
    if tenant.owns(&record.org_id, &record.user_id) {
        Ok(())
    } else {
        Err(MemcoreError::Forbidden)
    }
}

pub open spec fn record_length_error(len: usize, dimensions: usize) -> Seq<char> {
    "embedding length "@ + decimal_text(len as nat) + " does not match configured dimensions "@ + decimal_text(dimensions as nat)
}

pub open spec fn query_length_error(len: usize, dimensions: usize) -> Seq<char> {
    "query embedding length "@ + decimal_text(len as nat) + " does not match configured dimensions "@ + decimal_text(dimensions as nat)
}

/// The LanceDB vector store's settings: the size every embedding has.
#[derive(Debug)]
pub struct LanceDbVectorStore {
    pub dimensions: usize,
}

impl LanceDbVectorStore {
    /// Refuses embeddings of no dimension.
    pub fn new(dimensions: usize) -> (r: Result<LanceDbVectorStore, MemcoreError>)
        ensures
            if dimensions > 0 {
                r matches Ok(s) && s.dimensions == dimensions
            } else {
                r matches Err(MemcoreError::ValidationError(msg)) && msg@ == "embedding dimensions must be greater than 0"@
            },
    {
        if dimensions == 0 {
            return Err(MemcoreError::ValidationError(String::from_str("embedding dimensions must be greater than 0")));
        }
        Ok(LanceDbVectorStore { dimensions })
    }
}

/// A stored embedding must have the configured size.
pub fn check_embedding_length(dimensions: usize, len: usize) -> (r: Result<(), MemcoreError>)
    ensures
        if len == dimensions {
            r is Ok
        } else {
            r matches Err(MemcoreError::ValidationError(msg)) && msg@ == record_length_error(len, dimensions)
        },
{
    if len != dimensions {
        let mut msg = String::from_str("embedding length ");
        push_decimal(&mut msg, len);
        msg.append(" does not match configured dimensions ");
        push_decimal(&mut msg, dimensions);
        return Err(MemcoreError::ValidationError(msg));
    }
    Ok(())
}

/// A query embedding must have the configured size.
pub fn check_query_embedding_length(dimensions: usize, len: usize) -> (r: Result<(), MemcoreError>)
    ensures
        if len == dimensions {
            r is Ok
        } else {
            r matches Err(MemcoreError::ValidationError(msg)) && msg@ == query_length_error(len, dimensions)
        },
{
    if len != dimensions {
        let mut msg = String::from_str("query embedding length ");
        push_decimal(&mut msg, len);
        msg.append(" does not match configured dimensions ");
        push_decimal(&mut msg, dimensions);
        return Err(MemcoreError::ValidationError(msg));
    }
    Ok(())
}


/// A column of a search result batch, as far as reading it goes.
pub enum BatchColumn {
    /// The batch has no column of that name.
    Missing,
    /// The column holds something other than UTF-8 text.
    NotText,
    /// The column's text, one value per row.
    Text(Vec<String>),
}

/// The column's rows, or the error naming why it cannot be read.
pub open spec fn column_rows(name: Seq<char>, column: BatchColumn) -> Result<Seq<String>, Seq<char>> {
    match column {
        BatchColumn::Missing => Err("missing "@ + name + " column: column not found"@),
        BatchColumn::NotText => Err("invalid "@ + name + " column type: expected utf8"@),
        BatchColumn::Text(v) => Ok(v@),
    }
}

pub fn text_column(name: &str, column: BatchColumn) -> (r: Result<Vec<String>, MemcoreError>)
    ensures
        match r {
            Ok(v) => column_rows(name@, column) == Ok::<Seq<String>, Seq<char>>(v@),
            Err(MemcoreError::StorageError(m)) => column_rows(name@, column) == Err::<Seq<String>, Seq<char>>(m@),
            Err(_) => false,
        },
{
    match column {
        BatchColumn::Missing => {
            let mut m = String::from_str("missing ");
            m.append(name);
            m.append(" column: column not found");
            Err(MemcoreError::StorageError(m))
        },
        BatchColumn::NotText => {
            let mut m = String::from_str("invalid ");
            m.append(name);
            m.append(" column type: expected utf8");
            Err(MemcoreError::StorageError(m))
        },
        BatchColumn::Text(v) => Ok(v),
    }
}

/// One result row: the fact id parsed, the memory type read from its label,
/// the metadata checked to be JSON; or the first of these that fails.
pub open spec fn lance_row(fact_id: Seq<char>, content: Seq<char>, memory_type: Seq<char>, metadata: Seq<char>)
    -> Result<(u128, MemoryType, Seq<char>, Seq<char>), Seq<char>>
{
    match uuid_parse(fact_id) {
        Err(e) => Err("invalid fact_id uuid in lancedb row: "@ + e),
        Ok(id) => match memory_type_parse(memory_type) {
            None => Err(memory_type_error_text(memory_type)),
            Some(t) => match json_value_error(metadata) {
                Some(e) => Err("invalid metadata json in lancedb row: "@ + e),
                None => Ok((id, t, metadata, content)),
            },
        },
    }
}

/// The first `n` rows read in order, stopping at the first that fails.
pub open spec fn lance_rows(ids: Seq<String>, contents: Seq<String>, types: Seq<String>, metas: Seq<String>, n: nat)
    -> Result<Seq<(u128, MemoryType, Seq<char>, Seq<char>)>, Seq<char>>
    decreases n,
{
    if n == 0 {
        Ok(Seq::empty())
    } else {
        match lance_rows(ids, contents, types, metas, (n - 1) as nat) {
            Err(e) => Err(e),
            Ok(prev) => match lance_row(ids[n - 1]@, contents[n - 1]@, types[n - 1]@, metas[n - 1]@) {
                Err(e) => Err(e),
                Ok(h) => Ok(prev.push(h)),
            },
        }
    }
}

proof fn lemma_rows_error_stays(ids: Seq<String>, contents: Seq<String>, types: Seq<String>, metas: Seq<String>, k: nat, n: nat)
    requires
        k <= n,
        lance_rows(ids, contents, types, metas, k) is Err,
    ensures
        lance_rows(ids, contents, types, metas, n) == lance_rows(ids, contents, types, metas, k),
    decreases n - k,
{
    if n > k {
        lemma_rows_error_stays(ids, contents, types, metas, k, (n - 1) as nat);
    }
}

fn parse_search_row(fact_id: &str, content: &str, memory_type: &str, metadata: &str) -> (r: Result<SearchHit, MemcoreError>)
    ensures
        match r {
            Ok(h) => lance_row(fact_id@, content@, memory_type@, metadata@)
                == Ok::<(u128, MemoryType, Seq<char>, Seq<char>), Seq<char>>(h@),
            Err(MemcoreError::StorageError(m)) => lance_row(fact_id@, content@, memory_type@, metadata@)
                == Err::<(u128, MemoryType, Seq<char>, Seq<char>), Seq<char>>(m@),
            Err(_) => false,
        },
{
    let id = match parse_uuid(fact_id) {
        Ok(v) => v,
        Err(e) => {
            let mut m = String::from_str("invalid fact_id uuid in lancedb row: ");
            m.append(e.as_str());
            return Err(MemcoreError::StorageError(m));
        },
    };
    let t = match memory_type_from_str(memory_type) {
        Ok(v) => v,
        Err(e) => return Err(e),
    };
    if let Some(e) = check_json(metadata) {
        let mut m = String::from_str("invalid metadata json in lancedb row: ");
        m.append(e.as_str());
        return Err(MemcoreError::StorageError(m));
    }
    Ok(SearchHit {
        fact_id: id,
        content: String::from_str(content),
        memory_type: t,
        metadata_json: String::from_str(metadata),
    })
}

/// Reads the rows of one batch, in order; the first row that fails stops
/// the read with its error.
pub fn parse_search_rows(fact_ids: &Vec<String>, contents: &Vec<String>, memory_types: &Vec<String>, metadata: &Vec<String>)
    -> (r: Result<Vec<SearchHit>, MemcoreError>)
    requires
        contents.len() == fact_ids.len(),
        memory_types.len() == fact_ids.len(),
        metadata.len() == fact_ids.len(),
    ensures
        match r {
            Ok(hits) => lance_rows(fact_ids@, contents@, memory_types@, metadata@, fact_ids.len() as nat)
                == Ok::<Seq<(u128, MemoryType, Seq<char>, Seq<char>)>, Seq<char>>(hits@.map_values(|h: SearchHit| h@)),
            Err(MemcoreError::StorageError(m)) => lance_rows(fact_ids@, contents@, memory_types@, metadata@, fact_ids.len() as nat)
                == Err::<Seq<(u128, MemoryType, Seq<char>, Seq<char>)>, Seq<char>>(m@),
            Err(_) => false,
        },
{
    let mut hits: Vec<SearchHit> = Vec::new();
    let mut i: usize = 0;
    assert(hits@.map_values(|h: SearchHit| h@) =~= Seq::<(u128, MemoryType, Seq<char>, Seq<char>)>::empty());
    while i < fact_ids.len()
        invariant
            i <= fact_ids.len(),
            contents.len() == fact_ids.len(),
            memory_types.len() == fact_ids.len(),
            metadata.len() == fact_ids.len(),
            lance_rows(fact_ids@, contents@, memory_types@, metadata@, i as nat)
                == Ok::<Seq<(u128, MemoryType, Seq<char>, Seq<char>)>, Seq<char>>(hits@.map_values(|h: SearchHit| h@)),
        decreases fact_ids.len() - i,
    {
        let row = parse_search_row(fact_ids[i].as_str(), contents[i].as_str(), memory_types[i].as_str(), metadata[i].as_str());
        match row {
            Ok(h) => {
                let ghost before = hits@.map_values(|x: SearchHit| x@);
                let ghost hv = h@;
                hits.push(h);
                assert(hits@.map_values(|x: SearchHit| x@) =~= before.push(hv));
            },
            Err(e) => {
                proof {
                    lemma_rows_error_stays(fact_ids@, contents@, memory_types@, metadata@, (i + 1) as nat, fact_ids.len() as nat);
                }
                return Err(e);
            },
        }
        i = i + 1;
    }
    Ok(hits)
}

/// The columns of a batch are those of one table: text columns have a row each.
pub open spec fn column_has_rows(column: BatchColumn, n: nat) -> bool {
    match column {
        BatchColumn::Text(v) => v@.len() == n,
        _ => true,
    }
}

/// A batch's hits: its four columns checked in the order fact id, content,
/// memory type, metadata, then its rows read.
pub open spec fn batch_hits(fact_ids: BatchColumn, contents: BatchColumn, memory_types: BatchColumn, metadata: BatchColumn)
    -> Result<Seq<(u128, MemoryType, Seq<char>, Seq<char>)>, Seq<char>>
{
    match column_rows("fact_id"@, fact_ids) {
        Err(e) => Err(e),
        Ok(f) => match column_rows("content"@, contents) {
            Err(e) => Err(e),
            Ok(c) => match column_rows("memory_type"@, memory_types) {
                Err(e) => Err(e),
                Ok(t) => match column_rows("metadata"@, metadata) {
                    Err(e) => Err(e),
                    Ok(m) => lance_rows(f, c, t, m, f.len()),
                },
            },
        },
    }
}

pub fn parse_search_batch(fact_ids: BatchColumn, contents: BatchColumn, memory_types: BatchColumn, metadata: BatchColumn)
    -> (r: Result<Vec<SearchHit>, MemcoreError>)
    requires
        fact_ids matches BatchColumn::Text(f) ==> column_has_rows(contents, f@.len())
            && column_has_rows(memory_types, f@.len()) && column_has_rows(metadata, f@.len()),
    ensures
        match r {
            Ok(hits) => batch_hits(fact_ids, contents, memory_types, metadata)
                == Ok::<Seq<(u128, MemoryType, Seq<char>, Seq<char>)>, Seq<char>>(hits@.map_values(|h: SearchHit| h@)),
            Err(MemcoreError::StorageError(m)) => batch_hits(fact_ids, contents, memory_types, metadata)
                == Err::<Seq<(u128, MemoryType, Seq<char>, Seq<char>)>, Seq<char>>(m@),
            Err(_) => false,
        },
{
    let f = match text_column("fact_id", fact_ids) {
        Ok(v) => v,
        Err(e) => return Err(e),
    };
    let c = match text_column("content", contents) {
        Ok(v) => v,
        Err(e) => return Err(e),
    };
    let t = match text_column("memory_type", memory_types) {
        Ok(v) => v,
        Err(e) => return Err(e),
    };
    let m = match text_column("metadata", metadata) {
        Ok(v) => v,
        Err(e) => return Err(e),
    };
    parse_search_rows(&f, &c, &t, &m)
}

} // verus!
