//! SQL statements as a sequence of text pieces and bound values, built by
//! the filters the SQL backends share. A backend replays the pieces in order
//! into its query builder: text is appended, a value becomes a placeholder
//! bound to it.

use vstd::prelude::*;
use crate::conversions::job_kind_to_str;
use crate::conversions::job_status_to_str;
use crate::facts::UserCursor;
use crate::ids::{uuid_string, uuid_text};
use crate::jobs::{BackgroundJobRunQuery, StoredBackgroundJobRun};
use crate::conversions::{job_kind_parse, job_status_parse, law_labels_round_trip};
use crate::pagination::PageCursor;
use crate::text::{lower_seq, to_ascii_lowercase};

verus! {

/// A value bound to a placeholder. A timestamp is nanoseconds since the Unix
/// epoch; a backend binds it as its own timestamp type.
#[derive(Debug)]
pub enum SqlValue {
    Text(String),
    Int(i64),
    Timestamp(i128),
    Uuid(u128),
    Bool(bool),
}

/// One piece of a statement.
#[derive(Debug)]
pub enum SqlPart {
    Sql(String),
    Bind(SqlValue),
}

pub enum SqlValueView {
    Text(Seq<char>),
    Int(i64),
    Timestamp(i128),
    Uuid(u128),
    Bool(bool),
}

pub enum SqlPartView {
    Sql(Seq<char>),
    Bind(SqlValueView),
}

impl View for SqlValue {
    type V = SqlValueView;

    open spec fn view(&self) -> SqlValueView {
        match self {
            SqlValue::Text(s) => SqlValueView::Text(s@),
            SqlValue::Int(v) => SqlValueView::Int(*v),
            SqlValue::Timestamp(v) => SqlValueView::Timestamp(*v),
            SqlValue::Uuid(v) => SqlValueView::Uuid(*v),
            SqlValue::Bool(v) => SqlValueView::Bool(*v),
        }
    }
}

impl View for SqlPart {
    type V = SqlPartView;

    open spec fn view(&self) -> SqlPartView {
        match self {
            SqlPart::Sql(s) => SqlPartView::Sql(s@),
            SqlPart::Bind(v) => SqlPartView::Bind(v@),
        }
    }
}

/// A statement under construction.
#[derive(Debug)]
pub struct SqlQuery {
    pub parts: Vec<SqlPart>,
}

impl View for SqlQuery {
    type V = Seq<SqlPartView>;

    open spec fn view(&self) -> Seq<SqlPartView> {
        self.parts@.map_values(|p: SqlPart| p@)
    }
}

pub open spec fn text(s: Seq<char>) -> SqlPartView {
    SqlPartView::Sql(s)
}

pub open spec fn bind_text(s: Seq<char>) -> SqlPartView {
    SqlPartView::Bind(SqlValueView::Text(s))
}

pub open spec fn bind_time(t: i128) -> SqlPartView {
    SqlPartView::Bind(SqlValueView::Timestamp(t))
}

impl SqlQuery {
    /// A statement starting with `head`.
    pub fn new(head: &str) -> (q: SqlQuery)
        ensures
            q@ == seq![text(head@)],
    {
        let mut parts: Vec<SqlPart> = Vec::new();
        parts.push(SqlPart::Sql(String::from_str(head)));
        let q = SqlQuery { parts };
        assert(q@ =~= seq![text(head@)]);
        q
    }

    /// Appends SQL text.
    pub fn push(&mut self, sql: &str)
        ensures
            final(self)@ == old(self)@.push(text(sql@)),
    {
        let ghost before = self@;
        self.parts.push(SqlPart::Sql(String::from_str(sql)));
        assert(self@ =~= before.push(text(sql@)));
    }

    /// Appends a placeholder bound to `value`.
    pub fn push_bind(&mut self, value: SqlValue)
        ensures
            final(self)@ == old(self)@.push(SqlPartView::Bind(value@)),
    {
        let ghost before = self@;
        let ghost v = value@;
        self.parts.push(SqlPart::Bind(value));
        assert(self@ =~= before.push(SqlPartView::Bind(v)));
    }
}

/// The pieces of a descending-order cursor condition: rows strictly after
/// (`sort_value`, `id`) when listed by `sort_column` then `id_column`, both
/// descending.
pub open spec fn desc_cursor_parts(sort_column: Seq<char>, id_column: Seq<char>, sort_value: i128, id: SqlValueView) -> Seq<SqlPartView> {
    seq![
        text(" AND ("@),
        text(sort_column),
        text(" < "@),
        bind_time(sort_value),
        text(" OR ("@),
        text(sort_column),
        text(" = "@),
        bind_time(sort_value),
        text(" AND "@),
        text(id_column),
        text(" < "@),
        SqlPartView::Bind(id),
        text("))"@),
    ]
}

fn push_desc_cursor(q: &mut SqlQuery, sort_column: &str, id_column: &str, sort_value: i128, id: SqlValue)
    ensures
        final(q)@ == old(q)@ + desc_cursor_parts(sort_column@, id_column@, sort_value, id@),
{
    let ghost before = q@;
    let ghost idv = id@;
    q.push(" AND (");
    q.push(sort_column);
    q.push(" < ");
    q.push_bind(SqlValue::Timestamp(sort_value));
    q.push(" OR (");
    q.push(sort_column);
    q.push(" = ");
    q.push_bind(SqlValue::Timestamp(sort_value));
    q.push(" AND ");
    q.push(id_column);
    q.push(" < ");
    q.push_bind(id);
    q.push("))");
    assert(q@ =~= before + desc_cursor_parts(sort_column@, id_column@, sort_value, idv));
}

/// Cursor condition for SQLite, where ids are stored as their text.
pub fn push_sqlite_desc_cursor(q: &mut SqlQuery, sort_column: &str, id_column: &str, cursor: &PageCursor)
    ensures
        final(q)@ == old(q)@ + desc_cursor_parts(
            sort_column@,
            id_column@,
            cursor.last_sort_value,
            SqlValueView::Text(uuid_text(cursor.last_id)),
        ),
{
    push_desc_cursor(q, sort_column, id_column, cursor.last_sort_value, SqlValue::Text(uuid_string(cursor.last_id)));
}

/// Cursor condition for PostgreSQL over a UUID id column.
pub fn push_postgres_desc_cursor_uuid(q: &mut SqlQuery, sort_column: &str, id_column: &str, cursor: &PageCursor)
    ensures
        final(q)@ == old(q)@ + desc_cursor_parts(
            sort_column@,
            id_column@,
            cursor.last_sort_value,
            SqlValueView::Uuid(cursor.last_id),
        ),
{
    push_desc_cursor(q, sort_column, id_column, cursor.last_sort_value, SqlValue::Uuid(cursor.last_id));
}

/// Cursor condition for PostgreSQL over a text id column.
pub fn push_postgres_desc_cursor_str_id(q: &mut SqlQuery, sort_column: &str, id_column: &str, cursor: &UserCursor)
    ensures
        final(q)@ == old(q)@ + desc_cursor_parts(
            sort_column@,
            id_column@,
            cursor.last_sort_value,
            SqlValueView::Text(cursor.last_id@),
        ),
{
    push_desc_cursor(q, sort_column, id_column, cursor.last_sort_value, SqlValue::Text(cursor.last_id.clone()));
}

/// The filter pieces of a job run listing.
pub open spec fn job_run_filter_parts(query: BackgroundJobRunQuery) -> Seq<SqlPartView> {
    seq![text(" WHERE 1 = 1"@)]
        + (match query.kind {
        Some(k) => seq![text(" AND kind = "@), bind_text(k.label())],
        None => Seq::empty(),
    }) + (match query.status {
        Some(s) => seq![text(" AND status = "@), bind_text(s.label())],
        None => Seq::empty(),
    }) + (match query.created_after {
        Some(t) => seq![text(" AND started_at >= "@), bind_time(t)],
        None => Seq::empty(),
    }) + (match query.created_before {
        Some(t) => seq![text(" AND started_at < "@), bind_time(t)],
        None => Seq::empty(),
    })
}

/// Appends the kind, status and start-time filters of a job run listing.
pub fn push_job_run_filters(q: &mut SqlQuery, query: &BackgroundJobRunQuery)
    ensures
        final(q)@ == old(q)@ + job_run_filter_parts(*query),
{
    let ghost start = q@;
    q.push(" WHERE 1 = 1");
    let ghost a = q@;
    if let Some(kind) = query.kind {
        q.push(" AND kind = ");
        q.push_bind(SqlValue::Text(String::from_str(job_kind_to_str(kind))));
    }
    let ghost b = q@;
    if let Some(status) = query.status {
        q.push(" AND status = ");
        q.push_bind(SqlValue::Text(String::from_str(job_status_to_str(status))));
    }
    let ghost c = q@;
    if let Some(t) = query.created_after {
        q.push(" AND started_at >= ");
        q.push_bind(SqlValue::Timestamp(t));
    }
    let ghost d = q@;
    if let Some(t) = query.created_before {
        q.push(" AND started_at < ");
        q.push_bind(SqlValue::Timestamp(t));
    }
    assert(q@ =~= start + job_run_filter_parts(*query));
}

/// What the conditions at the front of `parts` demand of a stored run, read
/// as SQL: each condition is a piece of text naming the column and the
/// comparison, followed by the value bound to it; reading stops at the first
/// piece that is no such condition.
pub open spec fn run_conditions_hold(parts: Seq<SqlPartView>, r: StoredBackgroundJobRun) -> bool
    decreases parts.len(),
{
    if parts.len() < 2 {
        true
    } else if parts[0] == text(" AND kind = "@) {
        parts[1] == bind_text(r.kind.label()) && run_conditions_hold(parts.skip(2), r)
    } else if parts[0] == text(" AND status = "@) {
        parts[1] == bind_text(r.status.label()) && run_conditions_hold(parts.skip(2), r)
    } else if parts[0] == text(" AND started_at >= "@) {
        (parts[1] matches SqlPartView::Bind(SqlValueView::Timestamp(t)) && r.started_at >= t)
            && run_conditions_hold(parts.skip(2), r)
    } else if parts[0] == text(" AND started_at < "@) {
        (parts[1] matches SqlPartView::Bind(SqlValueView::Timestamp(t)) && r.started_at < t)
            && run_conditions_hold(parts.skip(2), r)
    } else {
        true
    }
}

proof fn lemma_run_condition_texts()
    ensures
        " AND kind = "@ != " AND status = "@,
        " AND kind = "@ != " AND started_at >= "@,
        " AND kind = "@ != " AND started_at < "@,
        " AND status = "@ != " AND started_at >= "@,
        " AND status = "@ != " AND started_at < "@,
        " AND started_at >= "@ != " AND started_at < "@,
{
    reveal_strlit(" AND kind = ");
    reveal_strlit(" AND status = ");
    reveal_strlit(" AND started_at >= ");
    reveal_strlit(" AND started_at < ");
    assert(" AND kind = "@.len() != " AND status = "@.len());
    assert(" AND kind = "@.len() != " AND started_at >= "@.len());
    assert(" AND kind = "@.len() != " AND started_at < "@.len());
    assert(" AND status = "@.len() != " AND started_at >= "@.len());
    assert(" AND status = "@.len() != " AND started_at < "@.len());
    assert(" AND started_at >= "@.len() != " AND started_at < "@.len());
}

/// One condition, then more: the run must meet both.
proof fn lemma_run_conditions_front(seg: Seq<SqlPartView>, rest: Seq<SqlPartView>, r: StoredBackgroundJobRun)
    requires
        seg.len() == 0 || (seg.len() == 2 && (seg[0] == text(" AND kind = "@) || seg[0] == text(" AND status = "@)
            || seg[0] == text(" AND started_at >= "@) || seg[0] == text(" AND started_at < "@))),
    ensures
        run_conditions_hold(seg + rest, r) == (run_conditions_hold(seg, r) && run_conditions_hold(rest, r)),
{
    if seg.len() == 2 {
        assert((seg + rest).skip(2) =~= rest);
        assert(seg.skip(2) =~= Seq::<SqlPartView>::empty());
        assert(run_conditions_hold(seg.skip(2), r));
        assert((seg + rest)[0] == seg[0] && (seg + rest)[1] == seg[1]);
    } else {
        assert(seg + rest =~= rest);
    }
}

/// The filters a job-run listing appends keep exactly the runs that pass
/// them: read as SQL, they demand the asked kind, the asked status and a
/// start at or after `created_after` and before `created_before`, and nothing
/// for a filter that is not given.
pub proof fn law_job_run_sql_filters(before: Seq<SqlPartView>, after: Seq<SqlPartView>, query: BackgroundJobRunQuery)
    requires
        after == before + job_run_filter_parts(query),
    ensures
        after[before.len() as int] == text(" WHERE 1 = 1"@),
        forall|r: StoredBackgroundJobRun| #[trigger] run_conditions_hold(after.skip(before.len() + 1int), r) == {
            &&& (query.kind matches Some(k) ==> r.kind == k)
            &&& (query.status matches Some(s) ==> r.status == s)
            &&& (query.created_after matches Some(t) ==> r.started_at >= t)
            &&& (query.created_before matches Some(t) ==> r.started_at < t)
        },
{
    let ks: Seq<SqlPartView> = match query.kind {
        Some(k) => seq![text(" AND kind = "@), bind_text(k.label())],
        None => Seq::empty(),
    };
    let ss: Seq<SqlPartView> = match query.status {
        Some(s) => seq![text(" AND status = "@), bind_text(s.label())],
        None => Seq::empty(),
    };
    let a: Seq<SqlPartView> = match query.created_after {
        Some(t) => seq![text(" AND started_at >= "@), bind_time(t)],
        None => Seq::empty(),
    };
    let b: Seq<SqlPartView> = match query.created_before {
        Some(t) => seq![text(" AND started_at < "@), bind_time(t)],
        None => Seq::empty(),
    };
    let e = Seq::<SqlPartView>::empty();
    assert(after =~= before + seq![text(" WHERE 1 = 1"@)] + ks + ss + a + b);
    assert(after.skip(before.len() + 1int) =~= ks + (ss + (a + (b + e))));
    lemma_run_condition_texts();
    law_labels_round_trip();
    assert forall|r: StoredBackgroundJobRun| #[trigger] run_conditions_hold(after.skip(before.len() + 1int), r) == {
        &&& (query.kind matches Some(k) ==> r.kind == k)
        &&& (query.status matches Some(s) ==> r.status == s)
        &&& (query.created_after matches Some(t) ==> r.started_at >= t)
        &&& (query.created_before matches Some(t) ==> r.started_at < t)
    } by {
        lemma_run_conditions_front(ks, ss + (a + (b + e)), r);
        lemma_run_conditions_front(ss, a + (b + e), r);
        lemma_run_conditions_front(a, b + e, r);
        lemma_run_conditions_front(b, e, r);
        assert(run_conditions_hold(e, r));
        if let Some(k) = query.kind {
            assert(ks.skip(2) =~= e);
            assert(job_kind_parse(k.label()) == Some(k));
            assert(job_kind_parse(r.kind.label()) == Some(r.kind));
            assert(run_conditions_hold(ks, r) == (k.label() == r.kind.label()));
            assert(run_conditions_hold(ks, r) == (r.kind == k));
        } else {
            assert(run_conditions_hold(ks, r));
        }
        if let Some(st) = query.status {
            assert(ss.skip(2) =~= e);
            assert(job_status_parse(st.label()) == Some(st));
            assert(job_status_parse(r.status.label()) == Some(r.status));
            assert(run_conditions_hold(ss, r) == (st.label() == r.status.label()));
            assert(run_conditions_hold(ss, r) == (r.status == st));
        } else {
            assert(run_conditions_hold(ss, r));
        }
        if let Some(t) = query.created_after {
            assert(a.skip(2) =~= e);
            assert(run_conditions_hold(a, r) == (r.started_at >= t));
        } else {
            assert(run_conditions_hold(a, r));
        }
        if let Some(t) = query.created_before {
            assert(b.skip(2) =~= e);
            assert(run_conditions_hold(b, r) == (r.started_at < t));
        } else {
            assert(run_conditions_hold(b, r));
        }
    }
}

/// SQLite `LIKE` pattern matching `query` anywhere, case-insensitively for
/// ASCII (the column side is lowered too).
pub open spec fn sqlite_like_text(query: Seq<char>) -> Seq<char> {
    seq!['%'] + lower_seq(query) + seq!['%']
}

pub fn sqlite_like_pattern(query: &str) -> (r: String)
    ensures
        r@ == sqlite_like_text(query@),
{
    let mut r = String::from_str("%");
    let lower = to_ascii_lowercase(query);
    r.append(lower.as_str());
    r.append("%");
    proof {
        reveal_strlit("%");
    }
    r
}

/// PostgreSQL `ILIKE` pattern matching `query` anywhere.
pub open spec fn postgres_ilike_text(query: Seq<char>) -> Seq<char> {
    seq!['%'] + query + seq!['%']
}

pub fn postgres_ilike_pattern(query: &str) -> (r: String)
    ensures
        r@ == postgres_ilike_text(query@),
{
    let mut r = String::from_str("%");
    r.append(query);
    r.append("%");
    proof {
        reveal_strlit("%");
    }
    r
}

/// Fact keyword condition for SQLite: content or summary contains the text.
pub open spec fn sqlite_fact_keyword_parts(query: Seq<char>) -> Seq<SqlPartView> {
    let p = sqlite_like_text(query);
    seq![
        text(" AND (LOWER(content) LIKE "@),
        bind_text(p),
        text(" OR LOWER(COALESCE(summary, '')) LIKE "@),
        bind_text(p),
        text(")"@),
    ]
}

pub fn push_sqlite_fact_keyword_filter(q: &mut SqlQuery, query_text: &str)
    ensures
        final(q)@ == old(q)@ + sqlite_fact_keyword_parts(query_text@),
{
    let ghost start = q@;
    let pattern = sqlite_like_pattern(query_text);
    q.push(" AND (LOWER(content) LIKE ");
    q.push_bind(SqlValue::Text(pattern.clone()));
    q.push(" OR LOWER(COALESCE(summary, '')) LIKE ");
    q.push_bind(SqlValue::Text(pattern));
    q.push(")");
    assert(q@ =~= start + sqlite_fact_keyword_parts(query_text@));
}

/// Event keyword condition for SQLite: any of the texts an event carries,
/// and the user id when asked, contains the text.
pub open spec fn sqlite_event_keyword_parts(query: Seq<char>, include_user_id: bool) -> Seq<SqlPartView> {
    let p = sqlite_like_text(query);
    seq![
        text(" AND (LOWER(COALESCE(previous_content, '')) LIKE "@),
        bind_text(p),
        text(" OR LOWER(COALESCE(new_content, '')) LIKE "@),
        bind_text(p),
        text(" OR LOWER(COALESCE(provider_name, '')) LIKE "@),
        bind_text(p),
        text(" OR LOWER(COALESCE(model_name, '')) LIKE "@),
        bind_text(p),
    ] + (if include_user_id {
        seq![text(" OR LOWER(user_id) LIKE "@), bind_text(p)]
    } else {
        Seq::empty()
    }) + seq![text(")"@)]
}

pub fn push_sqlite_event_keyword_filter(q: &mut SqlQuery, query_text: &str, include_user_id: bool)
    ensures
        final(q)@ == old(q)@ + sqlite_event_keyword_parts(query_text@, include_user_id),
{
    let ghost start = q@;
    let pattern = sqlite_like_pattern(query_text);
    q.push(" AND (LOWER(COALESCE(previous_content, '')) LIKE ");
    q.push_bind(SqlValue::Text(pattern.clone()));
    q.push(" OR LOWER(COALESCE(new_content, '')) LIKE ");
    q.push_bind(SqlValue::Text(pattern.clone()));
    q.push(" OR LOWER(COALESCE(provider_name, '')) LIKE ");
    q.push_bind(SqlValue::Text(pattern.clone()));
    q.push(" OR LOWER(COALESCE(model_name, '')) LIKE ");
    q.push_bind(SqlValue::Text(pattern.clone()));
    if include_user_id {
        q.push(" OR LOWER(user_id) LIKE ");
        q.push_bind(SqlValue::Text(pattern));
    }
    q.push(")");
    assert(q@ =~= start + sqlite_event_keyword_parts(query_text@, include_user_id));
}

/// Fact keyword condition for PostgreSQL.
pub open spec fn postgres_fact_keyword_parts(query: Seq<char>) -> Seq<SqlPartView> {
    let p = postgres_ilike_text(query);
    seq![
        text(" AND (content ILIKE "@),
        bind_text(p),
        text(" OR COALESCE(summary, '') ILIKE "@),
        bind_text(p),
        text(")"@),
    ]
}

pub fn push_postgres_fact_keyword_filter(q: &mut SqlQuery, query_text: &str)
    ensures
        final(q)@ == old(q)@ + postgres_fact_keyword_parts(query_text@),
{
    let ghost start = q@;
    let pattern = postgres_ilike_pattern(query_text);
    q.push(" AND (content ILIKE ");
    q.push_bind(SqlValue::Text(pattern.clone()));
    q.push(" OR COALESCE(summary, '') ILIKE ");
    q.push_bind(SqlValue::Text(pattern));
    q.push(")");
    assert(q@ =~= start + postgres_fact_keyword_parts(query_text@));
}

/// Event keyword condition for PostgreSQL.
pub open spec fn postgres_event_keyword_parts(query: Seq<char>, include_user_id: bool) -> Seq<SqlPartView> {
    let p = postgres_ilike_text(query);
    seq![
        text(" AND (COALESCE(previous_content, '') ILIKE "@),
        bind_text(p),
        text(" OR COALESCE(new_content, '') ILIKE "@),
        bind_text(p),
        text(" OR COALESCE(provider_name, '') ILIKE "@),
        bind_text(p),
        text(" OR COALESCE(model_name, '') ILIKE "@),
        bind_text(p),
    ] + (if include_user_id {
        seq![text(" OR user_id ILIKE "@), bind_text(p)]
    } else {
        Seq::empty()
    }) + seq![text(")"@)]
}

pub fn push_postgres_event_keyword_filter(q: &mut SqlQuery, query_text: &str, include_user_id: bool)
    ensures
        final(q)@ == old(q)@ + postgres_event_keyword_parts(query_text@, include_user_id),
{
    let ghost start = q@;
    let pattern = postgres_ilike_pattern(query_text);
    q.push(" AND (COALESCE(previous_content, '') ILIKE ");
    q.push_bind(SqlValue::Text(pattern.clone()));
    q.push(" OR COALESCE(new_content, '') ILIKE ");
    q.push_bind(SqlValue::Text(pattern.clone()));
    q.push(" OR COALESCE(provider_name, '') ILIKE ");
    q.push_bind(SqlValue::Text(pattern.clone()));
    q.push(" OR COALESCE(model_name, '') ILIKE ");
    q.push_bind(SqlValue::Text(pattern.clone()));
    if include_user_id {
        q.push(" OR user_id ILIKE ");
        q.push_bind(SqlValue::Text(pattern));
    }
    q.push(")");
    assert(q@ =~= start + postgres_event_keyword_parts(query_text@, include_user_id));
}

} // verus!
