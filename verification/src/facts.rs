//! In-memory fact store: tenant-scoped facts with soft deletion, keyword and
//! type search in most-recently-updated order, retention pruning and per-org
//! admin counts.

use vstd::prelude::*;
use crate::errors::MemcoreError;
use crate::ids::{push_uuid_text, uuid_text};
use crate::pagination::{
    PageCursor, after_cursor, fetch_limit_spec, is_after_cursor_in_desc_order, is_desc_page,
    keys_distinct, lemma_page_from_positions, lemma_top_positions_map, page_fetch_limit,
    top_desc_positions, ListingKey, ListingOrder,
};
use crate::seqs::{lemma_push_no_duplicates, lemma_push_to_set};
use crate::text::{chars_lt, chars_of, contains_ci, contains_chars, lower_chars, str_eq};
use crate::types::{Fact, MemoryType, TenantContext, same_tenant};

verus! {

/// Ids of `s` are pairwise distinct.
pub open spec fn fact_ids_distinct(s: Seq<Fact>) -> bool {
    forall|i: int, j: int| 0 <= i < s.len() && 0 <= j < s.len() && i != j ==> (#[trigger] s[i]).id != (#[trigger] s[j]).id
}

pub open spec fn seq_has_fact_id(s: Seq<Fact>, id: u128) -> bool {
    exists|i: int| 0 <= i < s.len() && (#[trigger] s[i]).id == id
}

/// The facts of `s` keyed by id.
pub open spec fn fact_map(s: Seq<Fact>) -> Map<u128, Fact> {
    Map::new(
        |id: u128| seq_has_fact_id(s, id),
        |id: u128| s[choose|i: int| 0 <= i < s.len() && (#[trigger] s[i]).id == id],
    )
}

/// Every position of a distinct-id sequence is what the map holds for its id.
pub proof fn lemma_fact_map_at(s: Seq<Fact>, i: int)
    requires
        fact_ids_distinct(s),
        0 <= i < s.len(),
    ensures
        fact_map(s).contains_key(s[i].id),
        fact_map(s)[s[i].id] == s[i],
{
    assert(seq_has_fact_id(s, s[i].id));
    let j = choose|j: int| 0 <= j < s.len() && (#[trigger] s[j]).id == s[i].id;
    assert(j == i);
}

proof fn lemma_fact_map_push(s: Seq<Fact>, f: Fact)
    requires
        fact_ids_distinct(s),
        !fact_map(s).contains_key(f.id),
    ensures
        fact_ids_distinct(s.push(f)),
        fact_map(s.push(f)) == fact_map(s).insert(f.id, f),
{
    let t = s.push(f);
    assert forall|i: int, j: int| 0 <= i < t.len() && 0 <= j < t.len() && i != j implies (#[trigger] t[i]).id != (#[trigger] t[j]).id by {
        if i == s.len() {
            assert(t[j] == s[j]);
            assert(seq_has_fact_id(s, s[j].id));
        } else if j == s.len() {
            assert(t[i] == s[i]);
            assert(seq_has_fact_id(s, s[i].id));
        } else {
            assert(t[i] == s[i] && t[j] == s[j]);
        }
    }
    assert forall|id: u128| #[trigger] fact_map(t).contains_key(id) <==> fact_map(s).insert(f.id, f).contains_key(id) by {
        if seq_has_fact_id(t, id) && id != f.id {
            let i = choose|i: int| 0 <= i < t.len() && (#[trigger] t[i]).id == id;
            assert(t[i] == s[i]);
        }
        if seq_has_fact_id(s, id) {
            let i = choose|i: int| 0 <= i < s.len() && (#[trigger] s[i]).id == id;
            assert(t[i] == s[i]);
        }
        if id == f.id {
            assert(t[s.len() as int] == f);
        }
    }
    assert forall|id: u128| #[trigger] fact_map(t).contains_key(id) implies fact_map(t)[id] == fact_map(s).insert(f.id, f)[id] by {
        let i = choose|i: int| 0 <= i < t.len() && (#[trigger] t[i]).id == id;
        lemma_fact_map_at(t, i);
        if i < s.len() {
            assert(t[i] == s[i]);
            lemma_fact_map_at(s, i);
        }
    }
    assert(fact_map(t) =~= fact_map(s).insert(f.id, f));
}

proof fn lemma_fact_map_update(s: Seq<Fact>, i: int, f: Fact)
    requires
        fact_ids_distinct(s),
        0 <= i < s.len(),
        s[i].id == f.id,
    ensures
        fact_ids_distinct(s.update(i, f)),
        fact_map(s.update(i, f)) == fact_map(s).insert(f.id, f),
{
    let t = s.update(i, f);
    assert forall|a: int, b: int| 0 <= a < t.len() && 0 <= b < t.len() && a != b implies (#[trigger] t[a]).id != (#[trigger] t[b]).id by {
        assert(t[a].id == s[a].id);
        assert(t[b].id == s[b].id);
    }
    assert forall|id: u128| #[trigger] fact_map(t).contains_key(id) <==> fact_map(s).insert(f.id, f).contains_key(id) by {
        if seq_has_fact_id(t, id) {
            let j = choose|j: int| 0 <= j < t.len() && (#[trigger] t[j]).id == id;
            assert(s[j].id == id);
        }
        if seq_has_fact_id(s, id) {
            let j = choose|j: int| 0 <= j < s.len() && (#[trigger] s[j]).id == id;
            assert(t[j].id == id);
        }
        if id == f.id {
            assert(t[i].id == id);
        }
    }
    assert forall|id: u128| #[trigger] fact_map(t).contains_key(id) implies fact_map(t)[id] == fact_map(s).insert(f.id, f)[id] by {
        let j = choose|j: int| 0 <= j < t.len() && (#[trigger] t[j]).id == id;
        lemma_fact_map_at(t, j);
        if j != i {
            assert(t[j] == s[j]);
            lemma_fact_map_at(s, j);
        }
    }
    assert(fact_map(t) =~= fact_map(s).insert(f.id, f));
}

/// What a search query asks for.
pub struct FactSearchQuery {
    pub tenant: TenantContext,
    pub memory_types: Option<Vec<MemoryType>>,
    pub query_text: Option<String>,
    pub limit: usize,
    pub cursor: Option<PageCursor>,
    pub include_deleted: bool,
}

impl FactSearchQuery {
    /// All non-deleted facts of `tenant`, first page of `limit`.
    pub fn new(tenant: TenantContext, limit: usize) -> (q: FactSearchQuery)
        ensures
            q.tenant == tenant,
            q.memory_types is None,
            q.query_text is None,
            q.limit == limit,
            q.cursor is None,
            !q.include_deleted,
    {
        FactSearchQuery {
            tenant,
            memory_types: None,
            query_text: None,
            limit,
            cursor: None,
            include_deleted: false,
        }
    }
}

/// Abstract state of a fact store.
pub struct FactStoreView {
    pub facts: Map<u128, Fact>,
    pub deleted: Set<u128>,
}

/// Result of a retention run: how many facts matched and, when applied, which.
#[derive(Debug)]
pub struct RetentionPruneResult {
    pub count: usize,
    pub fact_ids: Vec<u128>,
}

/// One user of an organization with live facts.
#[derive(Debug)]
pub struct OrgUserSummary {
    pub user_id: String,
    pub memory_count: usize,
    pub last_memory_at: Option<i128>,
}

pub struct OrgUserSummaryView {
    pub user_id: Seq<char>,
    pub memory_count: usize,
    pub last_memory_at: Option<i128>,
}

impl View for OrgUserSummary {
    type V = OrgUserSummaryView;

    open spec fn view(&self) -> OrgUserSummaryView {
        OrgUserSummaryView {
            user_id: self.user_id@,
            memory_count: self.memory_count,
            last_memory_at: self.last_memory_at,
        }
    }
}

/// Where a page of users ends: (latest fact time, user id).
pub struct UserCursor {
    pub last_sort_value: i128,
    pub last_id: String,
}

/// Query for the users of one organization.
pub struct OrgUserListQuery {
    pub org_id: String,
    pub limit: usize,
    pub cursor: Option<UserCursor>,
}

/// Fact store kept in memory.
pub struct MockFactStore {
    facts: Vec<Fact>,
    deleted: Vec<u128>,
}

impl View for MockFactStore {
    type V = FactStoreView;

    closed spec fn view(&self) -> FactStoreView {
        FactStoreView { facts: fact_map(self.facts@), deleted: self.deleted@.to_set() }
    }
}

/// The fact `id` as `tenant` sees it: stored, theirs, and not deleted.
pub open spec fn visible_fact(v: FactStoreView, tenant: TenantContext, id: u128) -> Option<Fact> {
    if v.facts.contains_key(id) && same_tenant(v.facts[id].org_id@, v.facts[id].user_id@, tenant)
        && !v.deleted.contains(id) {
        Some(v.facts[id])
    } else {
        None
    }
}

impl FactStoreView {
    /// Each fact is stored under its own id and only stored facts are marked deleted.
    pub open spec fn valid(self) -> bool {
        &&& forall|id: u128| #[trigger] self.facts.contains_key(id) ==> self.facts[id].id == id
        &&& self.deleted.subset_of(self.facts.dom())
    }
}

/// Whether `f` is a live or (when asked) deleted fact of the query's tenant
/// that passes its type, text and cursor filters.
pub open spec fn search_match(v: FactStoreView, q: FactSearchQuery, f: Fact) -> bool {
    &&& same_tenant(f.org_id@, f.user_id@, q.tenant)
    &&& (q.include_deleted || !v.deleted.contains(f.id))
    &&& (q.memory_types matches Some(ts) ==> ts@.contains(f.memory_type))
    &&& (q.query_text matches Some(t) ==> contains_ci(f.content@, t@))
    &&& (q.cursor matches Some(c) ==> after_cursor(f.updated_at, f.id, c))
}

pub open spec fn fact_key() -> spec_fn(Fact) -> (i128, u128) {
    |f: Fact| f.sort_key()
}

/// Stored facts that `pred` accepts.
pub open spec fn facts_where(v: FactStoreView, pred: spec_fn(Fact) -> bool) -> Set<Fact> {
    v.facts.values().filter(pred)
}

impl MockFactStore {
    /// Ids are distinct and every deleted id names a stored fact.
    pub closed spec fn wf(&self) -> bool {
        &&& fact_ids_distinct(self.facts@)
        &&& self.deleted@.no_duplicates()
        &&& forall|k: int| 0 <= k < self.deleted@.len() ==> seq_has_fact_id(self.facts@, #[trigger] self.deleted@[k])
    }

    /// A well-formed store has a valid view.
    pub proof fn lemma_wf_view(&self)
        requires
            self.wf(),
        ensures
            self@.valid(),
    {
        assert forall|id: u128| #[trigger] self@.facts.contains_key(id) implies self@.facts[id].id == id by {
            let i = choose|i: int| 0 <= i < self.facts@.len() && (#[trigger] self.facts@[i]).id == id;
            lemma_fact_map_at(self.facts@, i);
        }
        assert forall|id: u128| self@.deleted.contains(id) implies #[trigger] self@.facts.contains_key(id) by {
            let k = choose|k: int| 0 <= k < self.deleted@.len() && self.deleted@[k] == id;
            assert(seq_has_fact_id(self.facts@, self.deleted@[k]));
        }
    }

    pub fn new() -> (s: MockFactStore)
        ensures
            s.wf(),
            s@.facts == Map::<u128, Fact>::empty(),
            s@.deleted == Set::<u128>::empty(),
    {
        let s = MockFactStore { facts: Vec::new(), deleted: Vec::new() };
        assert(s@.facts =~= Map::<u128, Fact>::empty());
        assert(s@.deleted =~= Set::<u128>::empty());
        s
    }

    /// Position of the fact with `id`, if stored.
    fn position_of(&self, id: u128) -> (r: Option<usize>)
        requires
            self.wf(),
        ensures
            match r {
                Some(i) => i < self.facts@.len() && self.facts@[i as int].id == id,
                None => !seq_has_fact_id(self.facts@, id),
            },
    {
        let mut i: usize = 0;
        while i < self.facts.len()
            invariant
                i <= self.facts@.len(),
                forall|j: int| 0 <= j < i ==> (#[trigger] self.facts@[j]).id != id,
            decreases self.facts.len() - i,
        {
            if self.facts[i].id == id {
                return Some(i);
            }
            i = i + 1;
        }
        None
    }

    fn is_deleted(&self, id: u128) -> (r: bool)
        ensures
            r == self.deleted@.contains(id),
    {
        let mut i: usize = 0;
        while i < self.deleted.len()
            invariant
                i <= self.deleted@.len(),
                forall|j: int| 0 <= j < i ==> self.deleted@[j] != id,
            decreases self.deleted.len() - i,
        {
            if self.deleted[i] == id {
                return true;
            }
            i = i + 1;
        }
        false
    }

    /// Stores a new fact of `tenant`.
    pub fn insert_fact(&mut self, tenant: &TenantContext, fact: Fact) -> (r: Result<Fact, MemcoreError>)
        requires
            old(self).wf(),
        ensures
            final(self).wf(),
            match r {
                Ok(f) => {
                    &&& f == fact
                    &&& same_tenant(fact.org_id@, fact.user_id@, *tenant)
                    &&& !old(self)@.facts.contains_key(fact.id)
                    &&& final(self)@.facts == old(self)@.facts.insert(fact.id, fact)
                    &&& final(self)@.deleted == old(self)@.deleted
                },
                Err(MemcoreError::Forbidden) => {
                    &&& !same_tenant(fact.org_id@, fact.user_id@, *tenant)
                    &&& final(self)@ == old(self)@
                },
                Err(MemcoreError::Conflict(msg)) => {
                    &&& same_tenant(fact.org_id@, fact.user_id@, *tenant)
                    &&& old(self)@.facts.contains_key(fact.id)
                    &&& msg@ == "fact already exists: "@ + uuid_text(fact.id)
                    &&& final(self)@ == old(self)@
                },
                Err(_) => false,
            },
    {
        if !tenant.owns(&fact.org_id, &fact.user_id) {
            return Err(MemcoreError::Forbidden);
        }
        if let Some(_) = self.position_of(fact.id) {
            proof {
                let i = choose|i: int| 0 <= i < self.facts@.len() && (#[trigger] self.facts@[i]).id == fact.id;
                lemma_fact_map_at(self.facts@, i);
            }
            return Err(MemcoreError::Conflict(id_message("fact already exists: ", fact.id)));
        }
        let stored = fact.duplicate();
        proof {
            lemma_fact_map_push(self.facts@, stored);
        }
        let ghost old_facts = self.facts@;
        self.facts.push(stored);
        proof {
            assert forall|k: int| 0 <= k < self.deleted@.len() implies seq_has_fact_id(self.facts@, #[trigger] self.deleted@[k]) by {
                assert(seq_has_fact_id(old_facts, self.deleted@[k]));
                let i = choose|i: int| 0 <= i < old_facts.len() && (#[trigger] old_facts[i]).id == self.deleted@[k];
                assert(self.facts@[i] == old_facts[i]);
            }
        }
        Ok(fact)
    }

    /// Replaces a stored fact of `tenant` with `fact` (same id).
    pub fn update_fact(&mut self, tenant: &TenantContext, fact: Fact) -> (r: Result<Fact, MemcoreError>)
        requires
            old(self).wf(),
        ensures
            final(self).wf(),
            match r {
                Ok(f) => {
                    &&& f == fact
                    &&& same_tenant(fact.org_id@, fact.user_id@, *tenant)
                    &&& old(self)@.facts.contains_key(fact.id)
                    &&& final(self)@.facts == old(self)@.facts.insert(fact.id, fact)
                    &&& final(self)@.deleted == old(self)@.deleted
                },
                Err(MemcoreError::Forbidden) => {
                    &&& (!same_tenant(fact.org_id@, fact.user_id@, *tenant) || (
                    old(self)@.facts.contains_key(fact.id) && !same_tenant(
                        old(self)@.facts[fact.id].org_id@,
                        old(self)@.facts[fact.id].user_id@,
                        *tenant,
                    )))
                    &&& final(self)@ == old(self)@
                },
                Err(MemcoreError::NotFound(msg)) => {
                    &&& same_tenant(fact.org_id@, fact.user_id@, *tenant)
                    &&& !old(self)@.facts.contains_key(fact.id)
                    &&& msg@ == "fact not found: "@ + uuid_text(fact.id)
                    &&& final(self)@ == old(self)@
                },
                Err(_) => false,
            },
    {
        if !tenant.owns(&fact.org_id, &fact.user_id) {
            return Err(MemcoreError::Forbidden);
        }
        let pos = self.position_of(fact.id);
        match pos {
            None => {
                return Err(MemcoreError::NotFound(id_message("fact not found: ", fact.id)));
            },
            Some(i) => {
                proof {
                    lemma_fact_map_at(self.facts@, i as int);
                }
                if !tenant.owns(&self.facts[i].org_id, &self.facts[i].user_id) {
                    return Err(MemcoreError::Forbidden);
                }
                let stored = fact.duplicate();
                proof {
                    lemma_fact_map_update(self.facts@, i as int, stored);
                }
                let ghost old_facts = self.facts@;
                self.facts.set(i, stored);
                proof {
                    assert forall|k: int| 0 <= k < self.deleted@.len() implies seq_has_fact_id(self.facts@, #[trigger] self.deleted@[k]) by {
                        assert(seq_has_fact_id(old_facts, self.deleted@[k]));
                        let j = choose|j: int| 0 <= j < old_facts.len() && (#[trigger] old_facts[j]).id == self.deleted@[k];
                        assert(self.facts@[j].id == old_facts[j].id);
                    }
                }
                Ok(fact)
            },
        }
    }

    /// The live fact `fact_id` if it belongs to `tenant`.
    pub fn get_fact(&self, tenant: &TenantContext, fact_id: u128) -> (r: Result<Option<Fact>, MemcoreError>)
        requires
            self.wf(),
        ensures
            r == Ok::<Option<Fact>, MemcoreError>(visible_fact(self@, *tenant, fact_id)),
    {
        match self.position_of(fact_id) {
            None => Ok(None),
            Some(i) => {
                proof {
                    lemma_fact_map_at(self.facts@, i as int);
                }
                if !tenant.owns(&self.facts[i].org_id, &self.facts[i].user_id) {
                    return Ok(None);
                }
                if self.is_deleted(fact_id) {
                    return Ok(None);
                }
                Ok(Some(self.facts[i].duplicate()))
            },
        }
    }
}

/// Whether `t` is one of `types`.
pub fn memory_type_in(types: &Vec<MemoryType>, t: MemoryType) -> (r: bool)
    ensures
        r == types@.contains(t),
{
    let mut i: usize = 0;
    while i < types.len()
        invariant
            i <= types@.len(),
            forall|j: int| 0 <= j < i ==> types@[j] != t,
        decreases types.len() - i,
    {
        if types[i] == t {
            return true;
        }
        i = i + 1;
    }
    false
}

impl MockFactStore {
    fn matches_search(&self, query: &FactSearchQuery, needle: &Option<Vec<char>>, f: &Fact) -> (r: bool)
        requires
            match query.query_text {
                Some(t) => needle matches Some(n) && n@ == crate::text::lower_seq(t@),
                None => needle is None,
            },
        ensures
            r == search_match(self@, *query, *f),
    {
        if !query.tenant.owns(&f.org_id, &f.user_id) {
            return false;
        }
        if !query.include_deleted && self.is_deleted(f.id) {
            return false;
        }
        if let Some(types) = &query.memory_types {
            if !memory_type_in(types, f.memory_type) {
                return false;
            }
        }
        if let Some(n) = needle {
            let hay = lower_chars(f.content.as_str());
            if !contains_chars(&hay, n) {
                return false;
            }
        }
        if let Some(c) = &query.cursor {
            if !is_after_cursor_in_desc_order(f.updated_at, f.id, c) {
                return false;
            }
        }
        true
    }

    /// The query's page of matching facts, most recently updated first,
    /// holding one row more than `limit` when that many match.
    pub fn search_facts(&self, query: FactSearchQuery) -> (r: Result<Vec<Fact>, MemcoreError>)
        requires
            self.wf(),
        ensures
            r matches Ok(page) && is_desc_page(
                facts_where(self@, |f: Fact| search_match(self@, query, f)),
                fact_key(),
                fetch_limit_spec(query.limit) as int,
                page@,
            ),
    {
        let needle: Option<Vec<char>> = match &query.query_text {
            Some(t) => Some(lower_chars(t.as_str())),
            None => None,
        };
        let ghost pred = |f: Fact| search_match(self@, query, f);
        let mut cands: Vec<Fact> = Vec::new();
        let ghost mut src: Seq<int> = Seq::empty();
        let mut i: usize = 0;
        while i < self.facts.len()
            invariant
                self.wf(),
                i <= self.facts@.len(),
                match query.query_text {
                    Some(t) => needle matches Some(n) && n@ == crate::text::lower_seq(t@),
                    None => needle is None,
                },
                pred == (|f: Fact| search_match(self@, query, f)),
                src.len() == cands@.len(),
                forall|k: int| 0 <= k < src.len() ==> 0 <= #[trigger] src[k] < i,
                forall|k: int, l: int| 0 <= k < l < src.len() ==> #[trigger] src[k] < #[trigger] src[l],
                forall|k: int| 0 <= k < src.len() ==> cands@[k] == self.facts@[#[trigger] src[k]],
                forall|k: int| 0 <= k < cands@.len() ==> pred(#[trigger] cands@[k]),
                forall|j: int| 0 <= j < i && pred(#[trigger] self.facts@[j]) ==> src.contains(j),
            decreases self.facts.len() - i,
        {
            let f = &self.facts[i];
            let ghost old_src = src;
            if self.matches_search(&query, &needle, f) {
                cands.push(f.duplicate());
                proof {
                    src = src.push(i as int);
                }
            }
            proof {
                assert forall|j: int| 0 <= j < i + 1 && pred(#[trigger] self.facts@[j]) implies src.contains(j) by {
                    if j == i {
                        assert(src[src.len() - 1] == j);
                    } else {
                        assert(old_src.contains(j));
                        let w = choose|w: int| 0 <= w < old_src.len() && old_src[w] == j;
                        assert(src[w] == j);
                    }
                }
            }
            i = i + 1;
        }
        let mut keys: Vec<(i128, u128)> = Vec::new();
        for k in 0..cands.len()
            invariant
                keys@.len() == k,
                forall|m: int| 0 <= m < k ==> keys@[m] == (#[trigger] cands@[m]).sort_key(),
        {
            keys.push((cands[k].updated_at, cands[k].id));
        }
        let n = page_fetch_limit(query.limit);
        let out = top_desc_positions(&keys, n);
        let mut page: Vec<Fact> = Vec::new();
        for k in 0..out.len()
            invariant
                out@.len() <= cands@.len(),
                crate::pagination::is_top_positions(keys@, n as int, out@),
                keys@.len() == cands@.len(),
                page@.len() == k,
                forall|m: int| 0 <= m < k ==> page@[m] == cands@[#[trigger] out@[m] as int],
        {
            page.push(cands[out[k]].duplicate());
        }
        proof {
            let key = fact_key();
            assert(keys_distinct(cands@, key)) by {
                assert forall|a: int, b: int| 0 <= a < b < cands@.len() implies key(#[trigger] cands@[a]) != key(#[trigger] cands@[b]) by {
                    assert(src[a] < src[b]);
                    assert(self.facts@[src[a]].id != self.facts@[src[b]].id);
                }
            }
            assert forall|m: int| 0 <= m < cands@.len() implies keys@[m] == key(#[trigger] cands@[m]) by {}
            lemma_page_from_positions(cands@, key, keys@, n as int, out@, page@);
            // the candidates are exactly the matching stored facts
            let pool = facts_where(self@, pred);
            assert forall|x: Fact| pool.contains(x) <==> cands@.to_set().contains(x) by {
                if pool.contains(x) {
                    let id = choose|id: u128| #[trigger] self@.facts.contains_key(id) && self@.facts[id] == x;
                    let j = choose|j: int| 0 <= j < self.facts@.len() && (#[trigger] self.facts@[j]).id == id;
                    lemma_fact_map_at(self.facts@, j);
                    assert(pred(self.facts@[j]));
                    let k = choose|k: int| 0 <= k < src.len() && src[k] == j;
                    assert(cands@[k] == x);
                    assert(cands@.contains(x));
                }
                if cands@.to_set().contains(x) {
                    let k = choose|k: int| 0 <= k < cands@.len() && cands@[k] == x;
                    lemma_fact_map_at(self.facts@, src[k]);
                    assert(self@.facts.contains_key(x.id));
                    assert(self@.facts.values().contains(x));
                    assert(pred(x));
                }
            }
            assert(pool =~= cands@.to_set());
        }
        Ok(page)
    }
}

/// Ids of stored facts that `pred` accepts.
pub open spec fn ids_where(v: FactStoreView, pred: spec_fn(Fact) -> bool) -> Set<u128> {
    v.facts.dom().filter(|id: u128| pred(v.facts[id]))
}

/// Live facts of `tenant` last updated before `cutoff`.
pub open spec fn retention_match(v: FactStoreView, tenant: TenantContext, cutoff: i128, f: Fact) -> bool {
    &&& same_tenant(f.org_id@, f.user_id@, tenant)
    &&& !v.deleted.contains(f.id)
    &&& f.updated_at < cutoff
}

/// Live facts of organization `org_id`.
pub open spec fn live_in_org(v: FactStoreView, org_id: Seq<char>, f: Fact) -> bool {
    f.org_id@ == org_id && !v.deleted.contains(f.id)
}

/// Users with at least one live fact in organization `org_id`.
pub open spec fn org_users(v: FactStoreView, org_id: Seq<char>) -> Set<Seq<char>> {
    Set::new(
        |u: Seq<char>|
            exists|id: u128|
                #[trigger] v.facts.contains_key(id) && live_in_org(v, org_id, v.facts[id])
                    && v.facts[id].user_id@ == u,
    )
}

impl MockFactStore {
    /// Ids of the stored facts, in storage order, that `pred` accepts, given
    /// that `accept` answers `pred` for each position.
    proof fn lemma_collected_ids(&self, pred: spec_fn(Fact) -> bool, ids: Seq<u128>, src: Seq<int>)
        requires
            self.wf(),
            src.len() == ids.len(),
            forall|k: int| 0 <= k < src.len() ==> 0 <= #[trigger] src[k] < self.facts@.len(),
            forall|k: int, l: int| 0 <= k < l < src.len() ==> #[trigger] src[k] < #[trigger] src[l],
            forall|k: int| 0 <= k < src.len() ==> ids[k] == self.facts@[#[trigger] src[k]].id,
            forall|k: int| 0 <= k < src.len() ==> pred(self.facts@[#[trigger] src[k]]),
            forall|j: int| 0 <= j < self.facts@.len() && pred(#[trigger] self.facts@[j]) ==> src.contains(j),
        ensures
            ids.no_duplicates(),
            ids.to_set() == ids_where(self@, pred),
            ids.len() == ids_where(self@, pred).len(),
    {
        assert forall|a: int, b: int| 0 <= a < ids.len() && 0 <= b < ids.len() && a != b implies ids[a] != ids[b] by {
            if a < b {
                assert(src[a] < src[b]);
            } else {
                assert(src[b] < src[a]);
            }
        }
        assert forall|id: u128| ids.to_set().contains(id) <==> ids_where(self@, pred).contains(id) by {
            if ids.to_set().contains(id) {
                let k = choose|k: int| 0 <= k < ids.len() && ids[k] == id;
                lemma_fact_map_at(self.facts@, src[k]);
            }
            if ids_where(self@, pred).contains(id) {
                let j = choose|j: int| 0 <= j < self.facts@.len() && (#[trigger] self.facts@[j]).id == id;
                lemma_fact_map_at(self.facts@, j);
                let k = choose|k: int| 0 <= k < src.len() && src[k] == j;
                assert(ids[k] == id);
            }
        }
        assert(ids.to_set() =~= ids_where(self@, pred));
        ids.unique_seq_to_set();
    }

    /// Marks a stored fact of `tenant` deleted; it stays stored.
    pub fn soft_delete_fact(&mut self, tenant: &TenantContext, fact_id: u128) -> (r: Result<(), MemcoreError>)
        requires
            old(self).wf(),
        ensures
            final(self).wf(),
            final(self)@.facts == old(self)@.facts,
            match r {
                Ok(()) => {
                    &&& old(self)@.facts.contains_key(fact_id)
                    &&& same_tenant(old(self)@.facts[fact_id].org_id@, old(self)@.facts[fact_id].user_id@, *tenant)
                    &&& final(self)@.deleted == old(self)@.deleted.insert(fact_id)
                },
                Err(MemcoreError::NotFound(msg)) => {
                    &&& !old(self)@.facts.contains_key(fact_id)
                    &&& msg@ == "fact not found: "@ + uuid_text(fact_id)
                    &&& final(self)@ == old(self)@
                },
                Err(MemcoreError::Forbidden) => {
                    &&& old(self)@.facts.contains_key(fact_id)
                    &&& !same_tenant(old(self)@.facts[fact_id].org_id@, old(self)@.facts[fact_id].user_id@, *tenant)
                    &&& final(self)@ == old(self)@
                },
                Err(_) => false,
            },
    {
        match self.position_of(fact_id) {
            None => Err(MemcoreError::NotFound(id_message("fact not found: ", fact_id))),
            Some(i) => {
                proof {
                    lemma_fact_map_at(self.facts@, i as int);
                }
                if !tenant.owns(&self.facts[i].org_id, &self.facts[i].user_id) {
                    return Err(MemcoreError::Forbidden);
                }
                if !self.is_deleted(fact_id) {
                    let ghost old_del = self.deleted@;
                    self.deleted.push(fact_id);
                    proof {
                        lemma_push_to_set(old_del, fact_id);
                        lemma_push_no_duplicates(old_del, fact_id);
                        assert forall|k: int| 0 <= k < self.deleted@.len() implies seq_has_fact_id(self.facts@, #[trigger] self.deleted@[k]) by {
                            if k < old_del.len() {
                                assert(self.deleted@[k] == old_del[k]);
                            } else {
                                assert(self.facts@[i as int].id == fact_id);
                            }
                        }
                    }
                } else {
                    proof {
                        assert(self.deleted@.to_set() =~= self.deleted@.to_set().insert(fact_id));
                    }
                }
                Ok(())
            },
        }
    }

    /// Counts, and unless `dry_run` soft-deletes, the live facts of `tenant`
    /// last updated before `cutoff`.
    pub fn delete_facts_older_than(&mut self, tenant: &TenantContext, cutoff: i128, dry_run: bool) -> (r: Result<RetentionPruneResult, MemcoreError>)
        requires
            old(self).wf(),
        ensures
            final(self).wf(),
            r matches Ok(res) && {
                let matching = ids_where(old(self)@, |f: Fact| retention_match(old(self)@, *tenant, cutoff, f));
                &&& res.count == matching.len()
                &&& final(self)@.facts == old(self)@.facts
                &&& if dry_run {
                    &&& res.fact_ids@.len() == 0
                    &&& final(self)@.deleted == old(self)@.deleted
                } else {
                    &&& res.fact_ids@.no_duplicates()
                    &&& res.fact_ids@.to_set() == matching
                    &&& final(self)@.deleted == old(self)@.deleted.union(matching)
                }
            },
    {
        let ghost pred = |f: Fact| retention_match(self@, *tenant, cutoff, f);
        let mut ids: Vec<u128> = Vec::new();
        let ghost mut src: Seq<int> = Seq::empty();
        let mut i: usize = 0;
        while i < self.facts.len()
            invariant
                self.wf(),
                i <= self.facts@.len(),
                pred == (|f: Fact| retention_match(self@, *tenant, cutoff, f)),
                src.len() == ids@.len(),
                forall|k: int| 0 <= k < src.len() ==> 0 <= #[trigger] src[k] < i,
                forall|k: int, l: int| 0 <= k < l < src.len() ==> #[trigger] src[k] < #[trigger] src[l],
                forall|k: int| 0 <= k < src.len() ==> ids@[k] == self.facts@[#[trigger] src[k]].id,
                forall|k: int| 0 <= k < src.len() ==> pred(self.facts@[#[trigger] src[k]]),
                forall|j: int| 0 <= j < i && pred(#[trigger] self.facts@[j]) ==> src.contains(j),
            decreases self.facts.len() - i,
        {
            let f = &self.facts[i];
            let ghost old_src = src;
            if tenant.owns(&f.org_id, &f.user_id) && !self.is_deleted(f.id) && f.updated_at < cutoff {
                ids.push(f.id);
                proof {
                    src = src.push(i as int);
                }
            }
            proof {
                assert forall|j: int| 0 <= j < i + 1 && pred(#[trigger] self.facts@[j]) implies src.contains(j) by {
                    if j == i {
                        assert(src[src.len() - 1] == j);
                    } else {
                        let w = choose|w: int| 0 <= w < old_src.len() && old_src[w] == j;
                        assert(src[w] == j);
                    }
                }
            }
            i = i + 1;
        }
        proof {
            self.lemma_collected_ids(pred, ids@, src);
            assert forall|m: int| 0 <= m < ids@.len() implies seq_has_fact_id(self.facts@, #[trigger] ids@[m]) by {
                assert(self.facts@[src[m]].id == ids@[m]);
            }
        }
        let count = ids.len();
        if dry_run {
            return Ok(RetentionPruneResult { count, fact_ids: Vec::new() });
        }
        let ghost matching = ids@.to_set();
        let ghost old_facts = self.facts@;
        let ghost old_del = self.deleted@;
        let mut k: usize = 0;
        while k < ids.len()
            invariant
                self.facts@ == old_facts,
                fact_ids_distinct(self.facts@),
                k <= ids@.len(),
                matching == ids@.to_set(),
                forall|m: int| 0 <= m < ids@.len() ==> seq_has_fact_id(self.facts@, #[trigger] ids@[m]),
                self.deleted@.no_duplicates(),
                forall|m: int| 0 <= m < self.deleted@.len() ==> seq_has_fact_id(self.facts@, #[trigger] self.deleted@[m]),
                self.deleted@.to_set() == old_del.to_set().union(ids@.take(k as int).to_set()),
            decreases ids.len() - k,
        {
            let id = ids[k];
            let ghost before = self.deleted@;
            if !self.is_deleted(id) {
                self.deleted.push(id);
                proof {
                    lemma_push_no_duplicates(before, id);
                    lemma_push_to_set(before, id);
                    assert forall|m: int| 0 <= m < self.deleted@.len() implies seq_has_fact_id(self.facts@, #[trigger] self.deleted@[m]) by {
                        if m < before.len() {
                            assert(self.deleted@[m] == before[m]);
                        }
                    }
                }
            }
            proof {
                assert(ids@.take(k + 1) =~= ids@.take(k as int).push(id));
                lemma_push_to_set(ids@.take(k as int), id);
                if before.contains(id) {
                    assert(before.to_set().contains(id));
                }
                assert(self.deleted@.to_set() =~= old_del.to_set().union(ids@.take(k + 1).to_set()));
            }
            k = k + 1;
        }
        proof {
            assert(ids@.take(ids@.len() as int) =~= ids@);
        }
        Ok(RetentionPruneResult { count, fact_ids: ids })
    }
}

/// Position in `v` of the fact with `id`, if any.
fn position_in(v: &Vec<Fact>, id: u128) -> (r: Option<usize>)
    ensures
        match r {
            Some(i) => i < v@.len() && v@[i as int].id == id,
            None => !seq_has_fact_id(v@, id),
        },
{
    let mut i: usize = 0;
    while i < v.len()
        invariant
            i <= v@.len(),
            forall|j: int| 0 <= j < i ==> (#[trigger] v@[j]).id != id,
        decreases v.len() - i,
    {
        if v[i].id == id {
            return Some(i);
        }
        i = i + 1;
    }
    None
}

/// A subsequence of a distinct-id sequence that keeps exactly the positions
/// `pred` accepts maps to the restriction of the original map.
proof fn lemma_fact_map_filter(s: Seq<Fact>, t: Seq<Fact>, src: Seq<int>, pred: spec_fn(Fact) -> bool)
    requires
        fact_ids_distinct(s),
        src.len() == t.len(),
        forall|k: int| 0 <= k < src.len() ==> 0 <= #[trigger] src[k] < s.len(),
        forall|k: int, l: int| 0 <= k < l < src.len() ==> #[trigger] src[k] < #[trigger] src[l],
        forall|k: int| 0 <= k < src.len() ==> t[k] == s[#[trigger] src[k]],
        forall|k: int| 0 <= k < src.len() ==> pred(s[#[trigger] src[k]]),
        forall|j: int| 0 <= j < s.len() && pred(#[trigger] s[j]) ==> src.contains(j),
    ensures
        fact_ids_distinct(t),
        fact_map(t) == fact_map(s).restrict(fact_map(s).dom().filter(|id: u128| pred(fact_map(s)[id]))),
{
    assert forall|a: int, b: int| 0 <= a < t.len() && 0 <= b < t.len() && a != b implies (#[trigger] t[a]).id != (#[trigger] t[b]).id by {
        if a < b {
            assert(src[a] < src[b]);
        } else {
            assert(src[b] < src[a]);
        }
    }
    let m = fact_map(s);
    let keep = m.dom().filter(|id: u128| pred(m[id]));
    assert forall|id: u128| #[trigger] fact_map(t).contains_key(id) <==> m.restrict(keep).contains_key(id) by {
        if seq_has_fact_id(t, id) {
            let k = choose|k: int| 0 <= k < t.len() && (#[trigger] t[k]).id == id;
            lemma_fact_map_at(s, src[k]);
        }
        if m.restrict(keep).contains_key(id) {
            let j = choose|j: int| 0 <= j < s.len() && (#[trigger] s[j]).id == id;
            lemma_fact_map_at(s, j);
            let k = choose|k: int| 0 <= k < src.len() && src[k] == j;
            assert(t[k].id == id);
        }
    }
    assert forall|id: u128| #[trigger] fact_map(t).contains_key(id) implies fact_map(t)[id] == m.restrict(keep)[id] by {
        let k = choose|k: int| 0 <= k < t.len() && (#[trigger] t[k]).id == id;
        lemma_fact_map_at(t, k);
        lemma_fact_map_at(s, src[k]);
    }
    assert(fact_map(t) =~= m.restrict(keep));
}

impl MockFactStore {
    /// Removes every fact of `tenant`, and their deletion marks.
    pub fn delete_user_data(&mut self, tenant: &TenantContext) -> (r: Result<(), MemcoreError>)
        requires
            old(self).wf(),
        ensures
            final(self).wf(),
            r is Ok,
            final(self)@.facts == old(self)@.facts.restrict(
                ids_where(old(self)@, |f: Fact| !same_tenant(f.org_id@, f.user_id@, *tenant)),
            ),
            final(self)@.deleted == old(self)@.deleted.intersect(final(self)@.facts.dom()),
    {
        let ghost pred = |f: Fact| !same_tenant(f.org_id@, f.user_id@, *tenant);
        let ghost old_facts = self.facts@;
        let mut kept: Vec<Fact> = Vec::new();
        let ghost mut src: Seq<int> = Seq::empty();
        let mut i: usize = 0;
        while i < self.facts.len()
            invariant
                self.wf(),
                self.facts@ == old_facts,
                i <= self.facts@.len(),
                pred == (|f: Fact| !same_tenant(f.org_id@, f.user_id@, *tenant)),
                src.len() == kept@.len(),
                forall|k: int| 0 <= k < src.len() ==> 0 <= #[trigger] src[k] < i,
                forall|k: int, l: int| 0 <= k < l < src.len() ==> #[trigger] src[k] < #[trigger] src[l],
                forall|k: int| 0 <= k < src.len() ==> kept@[k] == self.facts@[#[trigger] src[k]],
                forall|k: int| 0 <= k < src.len() ==> pred(self.facts@[#[trigger] src[k]]),
                forall|j: int| 0 <= j < i && pred(#[trigger] self.facts@[j]) ==> src.contains(j),
            decreases self.facts.len() - i,
        {
            let f = &self.facts[i];
            let ghost old_src = src;
            if !tenant.owns(&f.org_id, &f.user_id) {
                kept.push(f.duplicate());
                proof {
                    src = src.push(i as int);
                }
            }
            proof {
                assert forall|j: int| 0 <= j < i + 1 && pred(#[trigger] self.facts@[j]) implies src.contains(j) by {
                    if j == i {
                        assert(src[src.len() - 1] == j);
                    } else {
                        let w = choose|w: int| 0 <= w < old_src.len() && old_src[w] == j;
                        assert(src[w] == j);
                    }
                }
            }
            i = i + 1;
        }
        proof {
            lemma_fact_map_filter(old_facts, kept@, src, pred);
            assert(fact_map(old_facts).dom().filter(|id: u128| pred(fact_map(old_facts)[id])) =~= ids_where(old(self)@, pred));
        }
        let mut still_deleted: Vec<u128> = Vec::new();
        let mut k: usize = 0;
        while k < self.deleted.len()
            invariant
                self.wf(),
                self.facts@ == old_facts,
                fact_ids_distinct(kept@),
                k <= self.deleted@.len(),
                still_deleted@.no_duplicates(),
                forall|m: int| 0 <= m < still_deleted@.len() ==> seq_has_fact_id(kept@, #[trigger] still_deleted@[m]),
                still_deleted@.to_set() == self.deleted@.take(k as int).to_set().filter(|id: u128| seq_has_fact_id(kept@, id)),
            decreases self.deleted.len() - k,
        {
            let id = self.deleted[k];
            let ghost before = still_deleted@;
            proof {
                assert(self.deleted@.take(k + 1) =~= self.deleted@.take(k as int).push(id));
                lemma_push_to_set(self.deleted@.take(k as int), id);
            }
            if let Some(_) = position_in(&kept, id) {
                proof {
                    assert(!before.contains(id)) by {
                        if before.contains(id) {
                            assert(before.to_set().contains(id));
                            let w = choose|w: int| 0 <= w < k && self.deleted@.take(k as int)[w] == id;
                            assert(self.deleted@[w] == self.deleted@[k as int]);
                        }
                    }
                    lemma_push_no_duplicates(before, id);
                    lemma_push_to_set(before, id);
                }
                still_deleted.push(id);
                proof {
                    assert(still_deleted@.to_set() =~= self.deleted@.take(k + 1).to_set().filter(|id: u128| seq_has_fact_id(kept@, id)));
                }
            } else {
                proof {
                    assert(still_deleted@.to_set() =~= self.deleted@.take(k + 1).to_set().filter(|id: u128| seq_has_fact_id(kept@, id)));
                }
            }
            k = k + 1;
        }
        proof {
            assert(self.deleted@.take(self.deleted@.len() as int) =~= self.deleted@);
        }
        let ghost old_del = self.deleted@;
        self.facts = kept;
        self.deleted = still_deleted;
        proof {
            assert(self@.deleted =~= old(self)@.deleted.intersect(self@.facts.dom()));
        }
        Ok(())
    }

    /// Number of live facts of organization `org_id`.
    pub fn count_facts_by_org(&self, org_id: &str) -> (r: Result<usize, MemcoreError>)
        requires
            self.wf(),
        ensures
            r matches Ok(n) && n == ids_where(self@, |f: Fact| live_in_org(self@, org_id@, f)).len(),
    {
        let ghost pred = |f: Fact| live_in_org(self@, org_id@, f);
        let mut ids: Vec<u128> = Vec::new();
        let ghost mut src: Seq<int> = Seq::empty();
        let mut i: usize = 0;
        while i < self.facts.len()
            invariant
                self.wf(),
                i <= self.facts@.len(),
                pred == (|f: Fact| live_in_org(self@, org_id@, f)),
                src.len() == ids@.len(),
                forall|k: int| 0 <= k < src.len() ==> 0 <= #[trigger] src[k] < i,
                forall|k: int, l: int| 0 <= k < l < src.len() ==> #[trigger] src[k] < #[trigger] src[l],
                forall|k: int| 0 <= k < src.len() ==> ids@[k] == self.facts@[#[trigger] src[k]].id,
                forall|k: int| 0 <= k < src.len() ==> pred(self.facts@[#[trigger] src[k]]),
                forall|j: int| 0 <= j < i && pred(#[trigger] self.facts@[j]) ==> src.contains(j),
            decreases self.facts.len() - i,
        {
            let f = &self.facts[i];
            let ghost old_src = src;
            if str_eq(f.org_id.as_str(), org_id) && !self.is_deleted(f.id) {
                ids.push(f.id);
                proof {
                    src = src.push(i as int);
                }
            }
            proof {
                assert forall|j: int| 0 <= j < i + 1 && pred(#[trigger] self.facts@[j]) implies src.contains(j) by {
                    if j == i {
                        assert(src[src.len() - 1] == j);
                    } else {
                        let w = choose|w: int| 0 <= w < old_src.len() && old_src[w] == j;
                        assert(src[w] == j);
                    }
                }
            }
            i = i + 1;
        }
        proof {
            self.lemma_collected_ids(pred, ids@, src);
        }
        Ok(ids.len())
    }
}

/// Ids of the live facts user `u` holds in organization `org_id`.
pub open spec fn user_fact_ids(v: FactStoreView, org_id: Seq<char>, u: Seq<char>) -> Set<u128> {
    ids_where(v, |f: Fact| live_in_org(v, org_id, f) && f.user_id@ == u)
}

/// `t` is the latest update time among those facts.
pub open spec fn is_latest_update(v: FactStoreView, org_id: Seq<char>, u: Seq<char>, t: i128) -> bool {
    &&& exists|id: u128| #[trigger] user_fact_ids(v, org_id, u).contains(id) && v.facts[id].updated_at == t
    &&& forall|id: u128| #[trigger] user_fact_ids(v, org_id, u).contains(id) ==> v.facts[id].updated_at <= t
}

/// Listing key of a user summary: latest fact time, then user id, both descending.
pub open spec fn user_key() -> spec_fn(OrgUserSummaryView) -> (i128, Seq<char>) {
    |s: OrgUserSummaryView|
        (
            match s.last_memory_at {
                Some(t) => t,
                None => i128::MIN,
            },
            s.user_id,
        )
}

/// The summaries a user listing draws from: one per user with live facts in
/// the organization, with their count and latest update, past the cursor.
pub open spec fn user_pool(v: FactStoreView, q: OrgUserListQuery) -> Set<OrgUserSummaryView> {
    Set::new(
        |s: OrgUserSummaryView|
            {
                &&& org_users(v, q.org_id@).contains(s.user_id)
                &&& s.memory_count == user_fact_ids(v, q.org_id@, s.user_id).len()
                &&& s.last_memory_at matches Some(t) && is_latest_update(v, q.org_id@, s.user_id, t)
                &&& (q.cursor matches Some(c) ==> (c.last_sort_value, c.last_id@).before(
                    user_key()(s),
                ))
            },
    )
}

/// Exec form of a user listing key.
pub struct UserRank {
    pub at: i128,
    pub user: Vec<char>,
}

impl ListingOrder for UserRank {
    open spec fn before(self, other: Self) -> bool {
        (self.at, self.user@).before((other.at, other.user@))
    }

    proof fn lemma_order(a: Self, b: Self, c: Self) {
        <(i128, Seq<char>) as ListingOrder>::lemma_order((a.at, a.user@), (b.at, b.user@), (c.at, c.user@));
    }
}

impl ListingKey for UserRank {
    fn is_before(&self, other: &Self) -> (r: bool) {
        self.at > other.at || (self.at == other.at && chars_lt(&other.user, &self.user))
    }
}

/// Position of `user` among `users`, if present.
fn find_user(users: &Vec<String>, user: &str) -> (r: Option<usize>)
    ensures
        match r {
            Some(j) => j < users@.len() && users@[j as int]@ == user@,
            None => forall|a: int| 0 <= a < users@.len() ==> (#[trigger] users@[a])@ != user@,
        },
{
    let mut j: usize = 0;
    while j < users.len()
        invariant
            j <= users@.len(),
            forall|a: int| 0 <= a < j ==> (#[trigger] users@[a])@ != user@,
        decreases users.len() - j,
    {
        if str_eq(users[j].as_str(), user) {
            return Some(j);
        }
        j = j + 1;
    }
    None
}

/// Per-user tallies of an organization's live facts: user ids, fact counts
/// and latest update times, in parallel.
pub struct UserTallies {
    pub users: Vec<String>,
    pub counts: Vec<usize>,
    pub lasts: Vec<i128>,
}

impl MockFactStore {
    /// The tally invariant over the first `i` stored facts.
    spec fn tallies_cover(&self, org_id: Seq<char>, users: Seq<String>, counts: Seq<usize>, lasts: Seq<i128>, ids: Seq<Seq<u128>>, i: int) -> bool {
        let pred = |f: Fact| live_in_org(self@, org_id, f);
        &&& 0 <= i <= self.facts@.len()
        &&& ids.len() == users.len()
        &&& counts.len() == users.len()
        &&& lasts.len() == users.len()
        &&& forall|a: int, b: int| 0 <= a < b < users.len() ==> (#[trigger] users[a])@ != (#[trigger] users[b])@
        &&& forall|m: int| 0 <= m < i && pred(#[trigger] self.facts@[m]) ==> exists|a: int| 0 <= a < users.len() && (#[trigger] users[a])@ == self.facts@[m].user_id@
        &&& forall|a: int| 0 <= a < users.len() ==> {
            &&& (#[trigger] ids[a]).no_duplicates()
            &&& counts[a] == ids[a].len()
            &&& counts[a] <= i
            &&& forall|id: u128| #[trigger] ids[a].contains(id) <==> exists|m: int| 0 <= m < i && (#[trigger] self.facts@[m]).id == id && pred(self.facts@[m]) && self.facts@[m].user_id@ == users[a]@
            &&& exists|m: int| 0 <= m < i && pred(#[trigger] self.facts@[m]) && self.facts@[m].user_id@ == users[a]@ && self.facts@[m].updated_at == lasts[a]
            &&& forall|m: int| 0 <= m < i && pred(#[trigger] self.facts@[m]) && self.facts@[m].user_id@ == users[a]@ ==> self.facts@[m].updated_at <= lasts[a]
        }
    }

    proof fn lemma_tally_skip(&self, org_id: Seq<char>, users: Seq<String>, counts: Seq<usize>, lasts: Seq<i128>, ids: Seq<Seq<u128>>, i: int)
        requires
            self.tallies_cover(org_id, users, counts, lasts, ids, i),
            i < self.facts@.len(),
            !live_in_org(self@, org_id, self.facts@[i]),
        ensures
            self.tallies_cover(org_id, users, counts, lasts, ids, i + 1),
    {
        let pred = |f: Fact| live_in_org(self@, org_id, f);
        assert forall|a: int| 0 <= a < users.len() implies {
            &&& forall|id: u128| #[trigger] ids[a].contains(id) <==> exists|m: int| 0 <= m < i + 1 && (#[trigger] self.facts@[m]).id == id && pred(self.facts@[m]) && self.facts@[m].user_id@ == users[a]@
            &&& exists|m: int| 0 <= m < i + 1 && pred(#[trigger] self.facts@[m]) && self.facts@[m].user_id@ == (#[trigger] users[a])@ && self.facts@[m].updated_at == lasts[a]
        } by {
            assert(ids[a].no_duplicates());
            assert forall|id: u128| #[trigger] ids[a].contains(id) <==> exists|m: int| 0 <= m < i + 1 && (#[trigger] self.facts@[m]).id == id && pred(self.facts@[m]) && self.facts@[m].user_id@ == users[a]@ by {
                if exists|m: int| 0 <= m < i + 1 && (#[trigger] self.facts@[m]).id == id && pred(self.facts@[m]) && self.facts@[m].user_id@ == users[a]@ {
                    let m = choose|m: int| 0 <= m < i + 1 && (#[trigger] self.facts@[m]).id == id && pred(self.facts@[m]) && self.facts@[m].user_id@ == users[a]@;
                    assert(m < i);
                }
            }
            let m0 = choose|m: int| 0 <= m < i && pred(#[trigger] self.facts@[m]) && self.facts@[m].user_id@ == users[a]@ && self.facts@[m].updated_at == lasts[a];
            assert(0 <= m0 < i + 1 && pred(self.facts@[m0]) && self.facts@[m0].user_id@ == users[a]@ && self.facts@[m0].updated_at == lasts[a]);
        }
    }

    proof fn lemma_tally_found(&self, org_id: Seq<char>, users: Seq<String>, counts: Seq<usize>, lasts: Seq<i128>, ids: Seq<Seq<u128>>, i: int, j: int, new_counts: Seq<usize>, new_lasts: Seq<i128>, new_ids: Seq<Seq<u128>>)
        requires
            self.wf(),
            self.tallies_cover(org_id, users, counts, lasts, ids, i),
            i < self.facts@.len(),
            live_in_org(self@, org_id, self.facts@[i]),
            0 <= j < users.len(),
            counts[j] < usize::MAX,
            users[j]@ == self.facts@[i].user_id@,
            !ids[j].contains(self.facts@[i].id),
            new_counts == counts.update(j, (counts[j] + 1) as usize),
            new_lasts == lasts.update(j, if self.facts@[i].updated_at > lasts[j] { self.facts@[i].updated_at } else { lasts[j] }),
            new_ids == ids.update(j, ids[j].push(self.facts@[i].id)),
        ensures
            self.tallies_cover(org_id, users, new_counts, new_lasts, new_ids, i + 1),
    {
        let pred = |f: Fact| live_in_org(self@, org_id, f);
        let f = self.facts@[i];
        assert forall|m: int| 0 <= m < i + 1 && pred(#[trigger] self.facts@[m]) implies exists|a: int| 0 <= a < users.len() && (#[trigger] users[a])@ == self.facts@[m].user_id@ by {
            if m == i {
                assert(users[j]@ == f.user_id@);
            }
        }
        assert forall|a: int| 0 <= a < users.len() implies {
            &&& (#[trigger] new_ids[a]).no_duplicates()
            &&& new_counts[a] == new_ids[a].len()
            &&& new_counts[a] <= i + 1
            &&& forall|id: u128| #[trigger] new_ids[a].contains(id) <==> exists|m: int| 0 <= m < i + 1 && (#[trigger] self.facts@[m]).id == id && pred(self.facts@[m]) && self.facts@[m].user_id@ == users[a]@
            &&& exists|m: int| 0 <= m < i + 1 && pred(#[trigger] self.facts@[m]) && self.facts@[m].user_id@ == users[a]@ && self.facts@[m].updated_at == new_lasts[a]
            &&& forall|m: int| 0 <= m < i + 1 && pred(#[trigger] self.facts@[m]) && self.facts@[m].user_id@ == users[a]@ ==> self.facts@[m].updated_at <= new_lasts[a]
        } by {
            assert(ids[a].no_duplicates());
            assert(ids[j].no_duplicates());
            if a == j {
                lemma_push_no_duplicates(ids[j], f.id);
                assert forall|id: u128| #[trigger] new_ids[a].contains(id) <==> exists|m: int| 0 <= m < i + 1 && (#[trigger] self.facts@[m]).id == id && pred(self.facts@[m]) && self.facts@[m].user_id@ == users[a]@ by {
                    if new_ids[a].contains(id) && id != f.id {
                        assert(ids[j].contains(id)) by {
                            let w = choose|w: int| 0 <= w < new_ids[a].len() && new_ids[a][w] == id;
                            assert(ids[j][w] == id);
                        }
                    }
                    if ids[j].contains(id) {
                        let w = choose|w: int| 0 <= w < ids[j].len() && ids[j][w] == id;
                        assert(new_ids[a][w] == id);
                    }
                    if id == f.id {
                        assert(new_ids[a][ids[j].len() as int] == id);
                    }
                    if exists|m: int| 0 <= m < i + 1 && (#[trigger] self.facts@[m]).id == id && pred(self.facts@[m]) && self.facts@[m].user_id@ == users[a]@ {
                        let m = choose|m: int| 0 <= m < i + 1 && (#[trigger] self.facts@[m]).id == id && pred(self.facts@[m]) && self.facts@[m].user_id@ == users[a]@;
                        if m < i {
                            assert(ids[j].contains(id));
                        }
                    }
                }
                if f.updated_at > lasts[j] {
                    assert(0 <= i < i + 1 && pred(self.facts@[i]) && self.facts@[i].user_id@ == users[a]@ && self.facts@[i].updated_at == new_lasts[a]);
                } else {
                    let m = choose|m: int| 0 <= m < i && pred(#[trigger] self.facts@[m]) && self.facts@[m].user_id@ == users[a]@ && self.facts@[m].updated_at == lasts[a];
                    assert(0 <= m < i + 1 && pred(self.facts@[m]) && self.facts@[m].user_id@ == users[a]@ && self.facts@[m].updated_at == new_lasts[a]);
                }
                assert(new_counts[a] == counts[a] + 1);
                assert(new_ids[a].len() == ids[a].len() + 1);
            } else {
                assert(new_ids[a] == ids[a]);
                assert(new_counts[a] == counts[a]);
                assert(new_lasts[a] == lasts[a]);
                assert forall|id: u128| #[trigger] new_ids[a].contains(id) <==> exists|m: int| 0 <= m < i + 1 && (#[trigger] self.facts@[m]).id == id && pred(self.facts@[m]) && self.facts@[m].user_id@ == users[a]@ by {
                    if exists|m: int| 0 <= m < i + 1 && (#[trigger] self.facts@[m]).id == id && pred(self.facts@[m]) && self.facts@[m].user_id@ == users[a]@ {
                        let m = choose|m: int| 0 <= m < i + 1 && (#[trigger] self.facts@[m]).id == id && pred(self.facts@[m]) && self.facts@[m].user_id@ == users[a]@;
                        if m == i {
                            assert(users[a]@ == users[j]@);
                            if a < j {
                                assert(users[a]@ != users[j]@);
                            } else {
                                assert(users[j]@ != users[a]@);
                            }
                        }
                    }
                }
                let m0 = choose|m: int| 0 <= m < i && pred(#[trigger] self.facts@[m]) && self.facts@[m].user_id@ == users[a]@ && self.facts@[m].updated_at == lasts[a];
                assert(0 <= m0 < i + 1 && pred(self.facts@[m0]) && self.facts@[m0].user_id@ == users[a]@ && self.facts@[m0].updated_at == new_lasts[a]);
                assert forall|m: int| 0 <= m < i + 1 && pred(#[trigger] self.facts@[m]) && self.facts@[m].user_id@ == users[a]@ implies self.facts@[m].updated_at <= new_lasts[a] by {
                    if m == i {
                        if a < j {
                            assert(users[a]@ != users[j]@);
                        } else {
                            assert(users[j]@ != users[a]@);
                        }
                    }
                }
            }
        }
    }

    proof fn lemma_tally_new(&self, org_id: Seq<char>, users: Seq<String>, counts: Seq<usize>, lasts: Seq<i128>, ids: Seq<Seq<u128>>, i: int, u: String)
        requires
            self.wf(),
            self.tallies_cover(org_id, users, counts, lasts, ids, i),
            i < self.facts@.len(),
            live_in_org(self@, org_id, self.facts@[i]),
            u@ == self.facts@[i].user_id@,
            forall|a: int| 0 <= a < users.len() ==> (#[trigger] users[a])@ != u@,
        ensures
            self.tallies_cover(org_id, users.push(u), counts.push(1), lasts.push(self.facts@[i].updated_at), ids.push(seq![self.facts@[i].id]), i + 1),
    {
        let pred = |f: Fact| live_in_org(self@, org_id, f);
        let f = self.facts@[i];
        let nu = users.push(u);
        let nc = counts.push(1);
        let nl = lasts.push(f.updated_at);
        let ni = ids.push(seq![f.id]);
        assert forall|a: int, b: int| 0 <= a < b < nu.len() implies (#[trigger] nu[a])@ != (#[trigger] nu[b])@ by {
            if b == users.len() {
                assert(nu[a] == users[a]);
            } else {
                assert(nu[a] == users[a] && nu[b] == users[b]);
            }
        }
        assert forall|m: int| 0 <= m < i + 1 && pred(#[trigger] self.facts@[m]) implies exists|a: int| 0 <= a < nu.len() && (#[trigger] nu[a])@ == self.facts@[m].user_id@ by {
            if m == i {
                assert(nu[users.len() as int] == u);
            } else {
                let a = choose|a: int| 0 <= a < users.len() && (#[trigger] users[a])@ == self.facts@[m].user_id@;
                assert(nu[a] == users[a]);
            }
        }
        assert forall|a: int| 0 <= a < nu.len() implies {
            &&& (#[trigger] ni[a]).no_duplicates()
            &&& nc[a] == ni[a].len()
            &&& nc[a] <= i + 1
            &&& forall|id: u128| #[trigger] ni[a].contains(id) <==> exists|m: int| 0 <= m < i + 1 && (#[trigger] self.facts@[m]).id == id && pred(self.facts@[m]) && self.facts@[m].user_id@ == nu[a]@
            &&& exists|m: int| 0 <= m < i + 1 && pred(#[trigger] self.facts@[m]) && self.facts@[m].user_id@ == nu[a]@ && self.facts@[m].updated_at == nl[a]
            &&& forall|m: int| 0 <= m < i + 1 && pred(#[trigger] self.facts@[m]) && self.facts@[m].user_id@ == nu[a]@ ==> self.facts@[m].updated_at <= nl[a]
        } by {
            if a == users.len() {
                assert(ni[a] == seq![f.id]);
                assert forall|id: u128| #[trigger] ni[a].contains(id) <==> exists|m: int| 0 <= m < i + 1 && (#[trigger] self.facts@[m]).id == id && pred(self.facts@[m]) && self.facts@[m].user_id@ == nu[a]@ by {
                    if ni[a].contains(id) {
                        assert(ni[a][0] == id);
                        assert(self.facts@[i].id == id);
                    }
                    if exists|m: int| 0 <= m < i + 1 && (#[trigger] self.facts@[m]).id == id && pred(self.facts@[m]) && self.facts@[m].user_id@ == nu[a]@ {
                        let m = choose|m: int| 0 <= m < i + 1 && (#[trigger] self.facts@[m]).id == id && pred(self.facts@[m]) && self.facts@[m].user_id@ == nu[a]@;
                        if m < i {
                            let b = choose|b: int| 0 <= b < users.len() && (#[trigger] users[b])@ == self.facts@[m].user_id@;
                            assert(users[b]@ == u@);
                        }
                        assert(ni[a][0] == id);
                    }
                }
                assert(0 <= i < i + 1 && pred(self.facts@[i]) && self.facts@[i].user_id@ == nu[a]@ && self.facts@[i].updated_at == nl[a]);
                assert forall|m: int| 0 <= m < i + 1 && pred(#[trigger] self.facts@[m]) && self.facts@[m].user_id@ == nu[a]@ implies self.facts@[m].updated_at <= nl[a] by {
                    if m < i {
                        let b = choose|b: int| 0 <= b < users.len() && (#[trigger] users[b])@ == self.facts@[m].user_id@;
                        assert(users[b]@ == u@);
                    }
                }
            } else {
                assert(ids[a].no_duplicates());
                assert(nu[a] == users[a] && nc[a] == counts[a] && nl[a] == lasts[a] && ni[a] == ids[a]);
                assert forall|id: u128| #[trigger] ni[a].contains(id) <==> exists|m: int| 0 <= m < i + 1 && (#[trigger] self.facts@[m]).id == id && pred(self.facts@[m]) && self.facts@[m].user_id@ == nu[a]@ by {
                    if exists|m: int| 0 <= m < i + 1 && (#[trigger] self.facts@[m]).id == id && pred(self.facts@[m]) && self.facts@[m].user_id@ == nu[a]@ {
                        let m = choose|m: int| 0 <= m < i + 1 && (#[trigger] self.facts@[m]).id == id && pred(self.facts@[m]) && self.facts@[m].user_id@ == nu[a]@;
                        if m == i {
                            assert(users[a]@ != u@);
                        }
                    }
                }
                let m0 = choose|m: int| 0 <= m < i && pred(#[trigger] self.facts@[m]) && self.facts@[m].user_id@ == users[a]@ && self.facts@[m].updated_at == lasts[a];
                assert(0 <= m0 < i + 1 && pred(self.facts@[m0]) && self.facts@[m0].user_id@ == nu[a]@ && self.facts@[m0].updated_at == nl[a]);
                assert forall|m: int| 0 <= m < i + 1 && pred(#[trigger] self.facts@[m]) && self.facts@[m].user_id@ == nu[a]@ implies self.facts@[m].updated_at <= nl[a] by {
                    if m == i {
                        assert(users[a]@ != u@);
                    }
                }
            }
        }
    }

    proof fn lemma_tally_done(&self, org_id: Seq<char>, users: Seq<String>, counts: Seq<usize>, lasts: Seq<i128>, ids: Seq<Seq<u128>>)
        requires
            self.wf(),
            self.tallies_cover(org_id, users, counts, lasts, ids, self.facts@.len() as int),
        ensures
            forall|u: Seq<char>| #[trigger] org_users(self@, org_id).contains(u) <==> exists|a: int| 0 <= a < users.len() && (#[trigger] users[a])@ == u,
            forall|a: int| 0 <= a < users.len() ==> {
                &&& counts[a] == user_fact_ids(self@, org_id, (#[trigger] users[a])@).len()
                &&& is_latest_update(self@, org_id, users[a]@, lasts[a])
            },
    {
        let pred = |f: Fact| live_in_org(self@, org_id, f);
        let n = self.facts@.len() as int;
        assert forall|u: Seq<char>| #[trigger] org_users(self@, org_id).contains(u) <==> exists|a: int| 0 <= a < users.len() && (#[trigger] users[a])@ == u by {
            if org_users(self@, org_id).contains(u) {
                let id = choose|id: u128| #[trigger] self@.facts.contains_key(id) && live_in_org(self@, org_id, self@.facts[id]) && self@.facts[id].user_id@ == u;
                let m = choose|m: int| 0 <= m < n && (#[trigger] self.facts@[m]).id == id;
                lemma_fact_map_at(self.facts@, m);
                assert(pred(self.facts@[m]));
            }
            if exists|a: int| 0 <= a < users.len() && (#[trigger] users[a])@ == u {
                let a = choose|a: int| 0 <= a < users.len() && (#[trigger] users[a])@ == u;
                assert(ids[a].no_duplicates());
                let m = choose|m: int| 0 <= m < n && pred(#[trigger] self.facts@[m]) && self.facts@[m].user_id@ == users[a]@ && self.facts@[m].updated_at == lasts[a];
                lemma_fact_map_at(self.facts@, m);
                let id = self.facts@[m].id;
                assert(self@.facts.contains_key(id) && live_in_org(self@, org_id, self@.facts[id]) && self@.facts[id].user_id@ == u);
            }
        }
        assert forall|a: int| 0 <= a < users.len() implies {
            &&& counts[a] == user_fact_ids(self@, org_id, (#[trigger] users[a])@).len()
            &&& is_latest_update(self@, org_id, users[a]@, lasts[a])
        } by {
            let u = users[a]@;
            assert(ids[a].no_duplicates());
            let target = user_fact_ids(self@, org_id, u);
            assert forall|id: u128| ids[a].to_set().contains(id) <==> target.contains(id) by {
                if ids[a].contains(id) {
                    let m = choose|m: int| 0 <= m < n && (#[trigger] self.facts@[m]).id == id && pred(self.facts@[m]) && self.facts@[m].user_id@ == users[a]@;
                    lemma_fact_map_at(self.facts@, m);
                }
                if target.contains(id) {
                    let m = choose|m: int| 0 <= m < n && (#[trigger] self.facts@[m]).id == id;
                    lemma_fact_map_at(self.facts@, m);
                    assert(ids[a].contains(id));
                }
            }
            assert(ids[a].to_set() =~= target);
            ids[a].unique_seq_to_set();
            let m0 = choose|m: int| 0 <= m < n && pred(#[trigger] self.facts@[m]) && self.facts@[m].user_id@ == users[a]@ && self.facts@[m].updated_at == lasts[a];
            lemma_fact_map_at(self.facts@, m0);
            assert(target.contains(self.facts@[m0].id));
            assert forall|id: u128| #[trigger] target.contains(id) implies self@.facts[id].updated_at <= lasts[a] by {
                let m = choose|m: int| 0 <= m < n && (#[trigger] self.facts@[m]).id == id;
                lemma_fact_map_at(self.facts@, m);
            }
        }
    }

    /// Users of organization `org_id` with their live fact counts and latest update.
    pub fn tally_users(&self, org_id: &str) -> (r: UserTallies)
        requires
            self.wf(),
        ensures
            r.counts@.len() == r.users@.len(),
            r.lasts@.len() == r.users@.len(),
            forall|a: int, b: int| 0 <= a < b < r.users@.len() ==> (#[trigger] r.users@[a])@ != (#[trigger] r.users@[b])@,
            forall|u: Seq<char>| #[trigger] org_users(self@, org_id@).contains(u) <==> exists|a: int| 0 <= a < r.users@.len() && (#[trigger] r.users@[a])@ == u,
            forall|a: int| 0 <= a < r.users@.len() ==> {
                &&& r.counts@[a] == user_fact_ids(self@, org_id@, (#[trigger] r.users@[a])@).len()
                &&& is_latest_update(self@, org_id@, r.users@[a]@, r.lasts@[a])
            },
    {
        let ghost pred = |f: Fact| live_in_org(self@, org_id@, f);
        let mut t = UserTallies { users: Vec::new(), counts: Vec::new(), lasts: Vec::new() };
        let ghost mut ids: Seq<Seq<u128>> = Seq::empty();
        let mut i: usize = 0;
        while i < self.facts.len()
            invariant
                self.wf(),
                i <= self.facts@.len(),
                pred == (|f: Fact| live_in_org(self@, org_id@, f)),
                self.tallies_cover(org_id@, t.users@, t.counts@, t.lasts@, ids, i as int),
            decreases self.facts.len() - i,
        {
            let f = &self.facts[i];
            let ghost old_t_users = t.users@;
            let ghost old_counts = t.counts@;
            let ghost old_lasts = t.lasts@;
            let ghost old_ids = ids;
            if str_eq(f.org_id.as_str(), org_id) && !self.is_deleted(f.id) {
                match find_user(&t.users, f.user_id.as_str()) {
                    Some(j) => {
                        proof {
                            assert(old_ids[j as int].no_duplicates());
                        }
                        let c = t.counts[j];
                        t.counts.set(j, c + 1);
                        let l = t.lasts[j];
                        if f.updated_at > l {
                            t.lasts.set(j, f.updated_at);
                        }
                        proof {
                            assert(!old_ids[j as int].contains(f.id)) by {
                                if old_ids[j as int].contains(f.id) {
                                    let m = choose|m: int| 0 <= m < i && (#[trigger] self.facts@[m]).id == f.id && pred(self.facts@[m]) && self.facts@[m].user_id@ == t.users@[j as int]@;
                                    assert(self.facts@[m].id != self.facts@[i as int].id);
                                }
                            }
                            ids = old_ids.update(j as int, old_ids[j as int].push(f.id));
                            assert(t.lasts@ =~= old_lasts.update(j as int, if f.updated_at > old_lasts[j as int] { f.updated_at } else { old_lasts[j as int] }));
                            self.lemma_tally_found(org_id@, old_t_users, old_counts, old_lasts, old_ids, i as int, j as int, t.counts@, t.lasts@, ids);
                        }
                    },
                    None => {
                        t.users.push(f.user_id.clone());
                        t.counts.push(1);
                        t.lasts.push(f.updated_at);
                        proof {
                            ids = old_ids.push(seq![f.id]);
                            self.lemma_tally_new(org_id@, old_t_users, old_counts, old_lasts, old_ids, i as int, t.users@[old_t_users.len() as int]);
                            assert(t.users@ == old_t_users.push(t.users@[old_t_users.len() as int]));
                        }
                    },
                }
            } else {
                proof {
                    self.lemma_tally_skip(org_id@, t.users@, t.counts@, t.lasts@, ids, i as int);
                }
            }
            i = i + 1;
        }
        proof {
            self.lemma_tally_done(org_id@, t.users@, t.counts@, t.lasts@, ids);
        }
        t
    }
}

impl OrgUserSummary {
    pub fn duplicate(&self) -> (r: OrgUserSummary)
        ensures
            r@ == self@,
    {
        OrgUserSummary {
            user_id: self.user_id.clone(),
            memory_count: self.memory_count,
            last_memory_at: self.last_memory_at,
        }
    }
}

impl MockFactStore {
    /// Number of users with live facts in organization `org_id`.
    pub fn count_users_by_org(&self, org_id: &str) -> (r: Result<usize, MemcoreError>)
        requires
            self.wf(),
        ensures
            r matches Ok(n) && n == org_users(self@, org_id@).len(),
    {
        let t = self.tally_users(org_id);
        proof {
            let views = t.users@.map_values(|u: String| u@);
            assert(views.no_duplicates()) by {
                assert forall|a: int, b: int| 0 <= a < views.len() && 0 <= b < views.len() && a != b implies views[a] != views[b] by {
                    if a < b {
                        assert(t.users@[a]@ != t.users@[b]@);
                    } else {
                        assert(t.users@[b]@ != t.users@[a]@);
                    }
                }
            }
            assert forall|u: Seq<char>| views.to_set().contains(u) <==> org_users(self@, org_id@).contains(u) by {
                if views.contains(u) {
                    let a = choose|a: int| 0 <= a < views.len() && views[a] == u;
                    assert(t.users@[a]@ == u);
                }
                if org_users(self@, org_id@).contains(u) {
                    let a = choose|a: int| 0 <= a < t.users@.len() && (#[trigger] t.users@[a])@ == u;
                    assert(views[a] == u);
                }
            }
            assert(views.to_set() =~= org_users(self@, org_id@));
            views.unique_seq_to_set();
        }
        Ok(t.users.len())
    }

    /// The query's page of the organization's users with live facts, most
    /// recently active first, holding one row more than `limit` when that
    /// many remain.
    pub fn list_users_by_org(&self, query: OrgUserListQuery) -> (r: Result<Vec<OrgUserSummary>, MemcoreError>)
        requires
            self.wf(),
        ensures
            r matches Ok(page) && is_desc_page(
                user_pool(self@, query),
                user_key(),
                fetch_limit_spec(query.limit) as int,
                page@.map_values(|s: OrgUserSummary| s@),
            ),
    {
        let t = self.tally_users(query.org_id.as_str());
        let cursor_user: Option<Vec<char>> = match &query.cursor {
            Some(c) => Some(chars_of(c.last_id.as_str())),
            None => None,
        };
        let mut cands: Vec<OrgUserSummary> = Vec::new();
        let mut keys: Vec<UserRank> = Vec::new();
        let ghost mut src: Seq<int> = Seq::empty();
        let ghost passes = |a: int|
            (query.cursor matches Some(c) ==> (c.last_sort_value, c.last_id@).before((t.lasts@[a], t.users@[a]@)));
        let mut a: usize = 0;
        while a < t.users.len()
            invariant
                t.counts@.len() == t.users@.len(),
                t.lasts@.len() == t.users@.len(),
                a <= t.users@.len(),
                match query.cursor {
                    Some(c) => cursor_user matches Some(cu) && cu@ == c.last_id@,
                    None => cursor_user is None,
                },
                passes == (|a: int| (query.cursor matches Some(c) ==> (c.last_sort_value, c.last_id@).before((t.lasts@[a], t.users@[a]@)))),
                cands@.len() == src.len(),
                keys@.len() == src.len(),
                forall|k: int| 0 <= k < src.len() ==> 0 <= #[trigger] src[k] < a,
                forall|k: int, l: int| 0 <= k < l < src.len() ==> #[trigger] src[k] < #[trigger] src[l],
                forall|k: int| 0 <= k < src.len() ==> passes(#[trigger] src[k]),
                forall|k: int| 0 <= k < src.len() ==> (#[trigger] cands@[k])@ == (OrgUserSummaryView {
                    user_id: t.users@[src[k]]@,
                    memory_count: t.counts@[src[k]],
                    last_memory_at: Some(t.lasts@[src[k]]),
                }),
                forall|k: int| 0 <= k < src.len() ==> (#[trigger] keys@[k]).at == t.lasts@[src[k]] && keys@[k].user@ == t.users@[src[k]]@,
                forall|b: int| 0 <= b < a && passes(b) ==> #[trigger] src.contains(b),
            decreases t.users.len() - a,
        {
            let last = t.lasts[a];
            let user_chars = chars_of(t.users[a].as_str());
            let pass = match &query.cursor {
                None => true,
                Some(c) => {
                    let cu = match &cursor_user {
                        Some(cu) => cu,
                        None => {
                            proof {
                                assert(false);
                            }
                            &user_chars
                        },
                    };
                    c.last_sort_value > last || (c.last_sort_value == last && chars_lt(&user_chars, cu))
                },
            };
            let ghost old_src = src;
            if pass {
                cands.push(OrgUserSummary {
                    user_id: t.users[a].clone(),
                    memory_count: t.counts[a],
                    last_memory_at: Some(last),
                });
                keys.push(UserRank { at: last, user: user_chars });
                proof {
                    src = src.push(a as int);
                }
            }
            proof {
                assert forall|b: int| 0 <= b < a + 1 && passes(b) implies #[trigger] src.contains(b) by {
                    if b == a {
                        assert(src[src.len() - 1] == b);
                    } else {
                        assert(old_src.contains(b));
                        let w = choose|w: int| 0 <= w < old_src.len() && old_src[w] == b;
                        assert(src[w] == b);
                    }
                }
            }
            a = a + 1;
        }
        let n = page_fetch_limit(query.limit);
        let out = top_desc_positions(&keys, n);
        let mut page: Vec<OrgUserSummary> = Vec::new();
        for k in 0..out.len()
            invariant
                out@.len() <= cands@.len(),
                crate::pagination::is_top_positions(keys@, n as int, out@),
                keys@.len() == cands@.len(),
                page@.len() == k,
                forall|m: int| 0 <= m < k ==> (#[trigger] page@[m])@ == cands@[out@[m] as int]@,
        {
            page.push(cands[out[k]].duplicate());
        }
        proof {
            let f = |k: UserRank| (k.at, k.user@);
            assert forall|x: UserRank, y: UserRank| #[trigger] x.before(y) == f(x).before(f(y)) by {}
            lemma_top_positions_map(keys@, f, n as int, out@);
            let cv = cands@.map_values(|s: OrgUserSummary| s@);
            let kv = keys@.map_values(f);
            let pv = page@.map_values(|s: OrgUserSummary| s@);
            let key = user_key();
            assert forall|i: int| 0 <= i < cv.len() implies kv[i] == key(#[trigger] cv[i]) by {
                assert(cv[i] == cands@[i]@);
            }
            assert(keys_distinct(cv, key)) by {
                assert forall|i: int, j: int| 0 <= i < j < cv.len() implies key(#[trigger] cv[i]).before(key(#[trigger] cv[j])) || key(cv[j]).before(key(cv[i])) by {
                    assert(src[i] < src[j]);
                    assert(t.users@[src[i]]@ != t.users@[src[j]]@);
                    assert(cv[i] == cands@[i]@);
                    assert(cv[j] == cands@[j]@);
                    crate::text::lemma_str_lt_total(t.users@[src[i]]@, t.users@[src[j]]@);
                }
            }
            assert forall|m: int| 0 <= m < pv.len() implies pv[m] == cv[#[trigger] out@[m] as int] by {}
            assert(cv.len() == cands.len());
            lemma_page_from_positions(cv, key, kv, n as int, out@, pv);
            let pool = user_pool(self@, query);
            assert forall|x: OrgUserSummaryView| pool.contains(x) <==> cv.to_set().contains(x) by {
                if pool.contains(x) {
                    let b = choose|b: int| 0 <= b < t.users@.len() && (#[trigger] t.users@[b])@ == x.user_id;
                    let tx = x.last_memory_at->0;
                    assert(is_latest_update(self@, query.org_id@, x.user_id, t.lasts@[b]));
                    let w1 = choose|id: u128| #[trigger] user_fact_ids(self@, query.org_id@, x.user_id).contains(id) && self@.facts[id].updated_at == tx;
                    let w2 = choose|id: u128| #[trigger] user_fact_ids(self@, query.org_id@, x.user_id).contains(id) && self@.facts[id].updated_at == t.lasts@[b];
                    assert(tx == t.lasts@[b]);
                    assert(passes(b));
                    assert(src.contains(b));
                    let k = choose|k: int| 0 <= k < src.len() && src[k] == b;
                    assert(cv[k] == cands@[k]@);
                    assert(cv[k] == x);
                    assert(cv.contains(x));
                }
                if cv.to_set().contains(x) {
                    let k = choose|k: int| 0 <= k < cv.len() && cv[k] == x;
                    assert(cv[k] == cands@[k]@);
                    let b = src[k];
                    assert(org_users(self@, query.org_id@).contains(t.users@[b]@));
                }
            }
            assert(pool =~= cv.to_set());
        }
        Ok(page)
    }
}

/// A fact is only ever visible to the tenant that owns it.
pub proof fn law_fact_tenant_isolation(v: FactStoreView, tenant: TenantContext, id: u128)
    ensures
        visible_fact(v, tenant, id) matches Some(f) ==> same_tenant(f.org_id@, f.user_id@, tenant),
{
}

/// Reading a fact right after inserting it for its own tenant gives it back.
pub proof fn law_fact_read_after_insert(v1: FactStoreView, v2: FactStoreView, tenant: TenantContext, f: Fact)
    requires
        v1.valid(),
        !v1.facts.contains_key(f.id),
        same_tenant(f.org_id@, f.user_id@, tenant),
        v2.facts == v1.facts.insert(f.id, f),
        v2.deleted == v1.deleted,
    ensures
        visible_fact(v2, tenant, f.id) == Some(f),
{
}

/// A soft-deleted fact is no longer visible, though it stays stored.
pub proof fn law_fact_soft_delete_hides(v1: FactStoreView, v2: FactStoreView, tenant: TenantContext, id: u128)
    requires
        v2.facts == v1.facts,
        v2.deleted == v1.deleted.insert(id),
    ensures
        visible_fact(v2, tenant, id) is None,
        v2.facts.contains_key(id) == v1.facts.contains_key(id),
{
}

/// Deleting one tenant's data leaves every fact of every other tenant as it
/// was, and leaves the deleted tenant nothing.
pub proof fn law_fact_delete_user_data_scope(
    v1: FactStoreView,
    v2: FactStoreView,
    deleted_tenant: TenantContext,
    other: TenantContext,
    id: u128,
)
    requires
        v2.facts == v1.facts.restrict(
            ids_where(v1, |f: Fact| !same_tenant(f.org_id@, f.user_id@, deleted_tenant)),
        ),
        v2.deleted == v1.deleted.intersect(v2.facts.dom()),
        !(other.org_id@ == deleted_tenant.org_id@ && other.user_id@ == deleted_tenant.user_id@),
    ensures
        visible_fact(v2, other, id) == visible_fact(v1, other, id),
        visible_fact(v2, deleted_tenant, id) is None,
{
}

/// Every fact a search lists belongs to the query's tenant.
pub proof fn law_fact_search_isolation(v: FactStoreView, q: FactSearchQuery, f: Fact)
    requires
        facts_where(v, |g: Fact| search_match(v, q, g)).contains(f),
    ensures
        same_tenant(f.org_id@, f.user_id@, q.tenant),
{
}

/// Only the tenant a fact belongs to may write it.
pub fn ensure_fact_tenant(fact: &Fact, tenant: &TenantContext) -> (r: Result<(), MemcoreError>)
    ensures
        if same_tenant(fact.org_id@, fact.user_id@, *tenant) {
            r is Ok
        } else {
            r matches Err(MemcoreError::Forbidden)
        },
{
    if tenant.owns(&fact.org_id, &fact.user_id) {
        Ok(())
    } else {
        Err(MemcoreError::Forbidden)
    }
}

/// An insert is refused when the tenant already has a row with the id.
pub fn require_new_fact(existing_rows: i64, fact_id: u128) -> (r: Result<(), MemcoreError>)
    ensures
        if existing_rows > 0 {
            r matches Err(MemcoreError::Conflict(m)) && m@ == "fact already exists: "@ + uuid_text(fact_id)
        } else {
            r is Ok
        },
{
    if existing_rows > 0 {
        return Err(MemcoreError::Conflict(id_message("fact already exists: ", fact_id)));
    }
    Ok(())
}

/// What a row-backed retention run does once it has read the ids of the
/// tenant's live facts last updated before the cutoff.
#[derive(Debug)]
pub enum RetentionStep {
    /// Nothing is written; this is the run's result.
    Report(RetentionPruneResult),
    /// The matching facts are soft-deleted.
    SoftDelete,
}

/// A dry run reports how many facts match and names none; a run with
/// nothing to delete reports nothing; otherwise the facts are soft-deleted.
pub fn retention_step(ids: &Vec<u128>, dry_run: bool) -> (r: RetentionStep)
    ensures
        dry_run ==> (r matches RetentionStep::Report(res) && res.count == ids@.len() && res.fact_ids@.len() == 0),
        !dry_run && ids@.len() == 0 ==> (r matches RetentionStep::Report(res) && res.count == 0 && res.fact_ids@.len() == 0),
        !dry_run && ids@.len() > 0 ==> r is SoftDelete,
{
    if dry_run {
        return RetentionStep::Report(RetentionPruneResult { count: ids.len(), fact_ids: Vec::new() });
    }
    if ids.len() == 0 {
        return RetentionStep::Report(RetentionPruneResult { count: 0, fact_ids: Vec::new() });
    }
    RetentionStep::SoftDelete
}

/// The result of an applied run: the rows the soft deletion changed, and
/// the ids it was run for.
pub fn retention_deleted(fact_ids: Vec<u128>, rows_affected: u64) -> (r: RetentionPruneResult)
    ensures
        r.fact_ids@ == fact_ids@,
        r.count == if rows_affected > usize::MAX { usize::MAX } else { rows_affected as usize },
{
    let count: usize = if rows_affected > usize::MAX as u64 { usize::MAX } else { rows_affected as usize };
    RetentionPruneResult { count, fact_ids }
}

/// An update or soft deletion that changed no row found no live fact.
pub fn require_fact_changed(rows_affected: u64, fact_id: u128) -> (r: Result<(), MemcoreError>)
    ensures
        if rows_affected > 0 {
            r is Ok
        } else {
            r matches Err(MemcoreError::NotFound(m)) && m@ == "fact not found: "@ + uuid_text(fact_id)
        },
{
    if rows_affected == 0 {
        return Err(MemcoreError::NotFound(id_message("fact not found: ", fact_id)));
    }
    Ok(())
}

/// `prefix` followed by the canonical text of `id`.
pub fn id_message(prefix: &str, id: u128) -> (s: String)
    ensures
        s@ == prefix@ + uuid_text(id),
{
    let mut s = String::from_str(prefix);
    push_uuid_text(&mut s, id);
    s
}

/// A fact search lists only stored facts of the query's tenant that are live
/// (or deleted ones when asked), of an asked memory type, holding the asked
/// text and lying past the cursor; it lists them most recently updated first
/// (by `updated_at`, then id, both strictly descending); and it leaves out a
/// qualifying fact only when the page is full and the fact was updated no
/// later than everything on the page.
pub proof fn law_fact_search_listing(v: FactStoreView, q: FactSearchQuery, n: int, page: Seq<Fact>)
    requires
        is_desc_page(facts_where(v, |f: Fact| search_match(v, q, f)), fact_key(), n, page),
    ensures
        page.len() <= n,
        forall|k: int| 0 <= k < page.len() ==> {
            let f = #[trigger] page[k];
            &&& v.facts.values().contains(f)
            &&& f.org_id@ == q.tenant.org_id@
            &&& f.user_id@ == q.tenant.user_id@
            &&& (q.include_deleted || !v.deleted.contains(f.id))
            &&& (q.memory_types matches Some(ts) ==> ts@.contains(f.memory_type))
            &&& (q.query_text matches Some(t) ==> contains_ci(f.content@, t@))
            &&& (q.cursor matches Some(c) ==> f.updated_at < c.last_sort_value || (f.updated_at == c.last_sort_value && f.id < c.last_id))
        },
        forall|k: int, l: int| 0 <= k < l < page.len() ==>
            (#[trigger] page[k]).updated_at > (#[trigger] page[l]).updated_at
                || (page[k].updated_at == page[l].updated_at && page[k].id > page[l].id),
        forall|f: Fact| {
            &&& v.facts.values().contains(f)
            &&& f.org_id@ == q.tenant.org_id@
            &&& f.user_id@ == q.tenant.user_id@
            &&& (q.include_deleted || !v.deleted.contains(f.id))
            &&& (q.memory_types matches Some(ts) ==> ts@.contains(f.memory_type))
            &&& (q.query_text matches Some(t) ==> contains_ci(f.content@, t@))
            &&& (q.cursor matches Some(c) ==> f.updated_at < c.last_sort_value || (f.updated_at == c.last_sort_value && f.id < c.last_id))
            &&& !page.contains(f)
        } ==> {
            &&& page.len() == n
            &&& forall|k: int| 0 <= k < page.len() ==> (#[trigger] page[k]).updated_at > f.updated_at
                || (page[k].updated_at == f.updated_at && page[k].id > f.id)
        },
{
}

} // verus!
