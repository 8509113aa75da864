//! In-memory API key store: keys are found by hash while active, revoked by
//! organization and id, and listed per organization newest first.

use vstd::prelude::*;
use crate::errors::MemcoreError;
use crate::facts::id_message;
use crate::ids::uuid_text;
use crate::pagination::{
    PageCursor, after_cursor, fetch_limit_spec, is_after_cursor_in_desc_order, is_top_page,
    is_top_positions, lemma_top_page_order, page_fetch_limit, top_desc_positions,
};
use crate::seqs::{lemma_filter_members, lemma_filter_take_step, lemma_take_full};
use crate::text::str_eq;
use crate::types::{ApiKeyRecord, ApiKeyView};

verus! {

/// Listing of one organization's keys.
pub struct ApiKeyListQuery {
    pub org_id: String,
    pub include_revoked: bool,
    pub limit: usize,
    pub cursor: Option<PageCursor>,
}

pub open spec fn api_key_key() -> spec_fn(ApiKeyView) -> (i128, u128) {
    |k: ApiKeyView| k.sort_key()
}

/// A key a lookup by `hash` may return: that hash, and still active.
pub open spec fn hash_match(k: ApiKeyView, hash: Seq<char>) -> bool {
    k.key_hash == hash && k.active()
}

/// A key a revocation of `id` in `org_id` applies to.
pub open spec fn revoke_match(k: ApiKeyView, org_id: Seq<char>, id: u128) -> bool {
    k.id == id && k.org_id == org_id && k.active()
}

pub open spec fn list_match(q: ApiKeyListQuery, k: ApiKeyView) -> bool {
    &&& k.org_id == q.org_id@
    &&& (q.include_revoked || k.active())
    &&& (q.cursor matches Some(c) ==> after_cursor(k.created_at, k.id, c))
}

/// `i` is the first key of `s` that `pred` accepts.
pub open spec fn first_index(s: Seq<ApiKeyView>, pred: spec_fn(ApiKeyView) -> bool, i: int) -> bool {
    0 <= i < s.len() && pred(s[i]) && forall|j: int| 0 <= j < i ==> !pred(#[trigger] s[j])
}

/// `i` is the first key of `s` a lookup by `hash` returns.
pub open spec fn first_hash_index(s: Seq<ApiKeyView>, hash: Seq<char>, i: int) -> bool {
    first_index(s, |x: ApiKeyView| hash_match(x, hash), i)
}

/// `i` is the first key of `s` a revocation of `id` in `org_id` applies to.
pub open spec fn first_revoke_index(s: Seq<ApiKeyView>, org_id: Seq<char>, id: u128, i: int) -> bool {
    first_index(s, |x: ApiKeyView| revoke_match(x, org_id, id), i)
}

pub open spec fn not_found_text(id: u128) -> Seq<char> {
    "api key not found: "@ + uuid_text(id)
}

/// Keys kept in memory, in insertion order.
pub struct MockApiKeyStore {
    keys: Vec<ApiKeyRecord>,
}

impl View for MockApiKeyStore {
    type V = Seq<ApiKeyView>;

    closed spec fn view(&self) -> Seq<ApiKeyView> {
        self.keys@.map_values(|k: ApiKeyRecord| k@)
    }
}

impl MockApiKeyStore {
    pub fn new() -> (s: MockApiKeyStore)
        ensures
            s@ == Seq::<ApiKeyView>::empty(),
    {
        let s = MockApiKeyStore { keys: Vec::new() };
        assert(s@ =~= Seq::<ApiKeyView>::empty());
        s
    }

    /// The first active key with this hash.
    pub fn find_by_hash(&self, key_hash: &str) -> (r: Result<Option<ApiKeyRecord>, MemcoreError>)
        ensures
            r matches Ok(found) && match found {
                Some(k) => exists|i: int| #[trigger] first_hash_index(self@, key_hash@, i) && self@[i] == k@,
                None => forall|i: int| 0 <= i < self@.len() ==> !hash_match(#[trigger] self@[i], key_hash@),
            },
    {
        let ghost pred = |x: ApiKeyView| hash_match(x, key_hash@);
        let mut i: usize = 0;
        while i < self.keys.len()
            invariant
                i <= self.keys@.len(),
                pred == (|x: ApiKeyView| hash_match(x, key_hash@)),
                forall|j: int| 0 <= j < i ==> !pred(#[trigger] self@[j]),
            decreases self.keys.len() - i,
        {
            let k = &self.keys[i];
            assert(self@[i as int] == k@);
            if str_eq(k.key_hash.as_str(), key_hash) && k.is_active() {
                let found = k.duplicate();
                assert(first_hash_index(self@, key_hash@, i as int));
                return Ok(Some(found));
            }
            i = i + 1;
        }
        Ok(None)
    }

    /// Stores `record` after the others and hands it back.
    pub fn insert_api_key(&mut self, record: ApiKeyRecord) -> (r: Result<ApiKeyRecord, MemcoreError>)
        ensures
            final(self)@ == old(self)@.push(record@),
            r matches Ok(k) && k@ == record@,
    {
        let ghost before = self@;
        self.keys.push(record.duplicate());
        assert(self@ =~= before.push(record@));
        Ok(record)
    }

    /// Marks revoked at `now` the first active key of `org_id` with id
    /// `key_id`; an unknown, foreign or already revoked key is not found.
    pub fn revoke_api_key(&mut self, org_id: &str, key_id: u128, now: i128) -> (r: Result<(), MemcoreError>)
        ensures
            match r {
                Ok(()) => exists|i: int| #[trigger] first_revoke_index(old(self)@, org_id@, key_id, i)
                    && final(self)@ == old(self)@.update(i, ApiKeyView { revoked_at: Some(now), ..old(self)@[i] }),
                Err(MemcoreError::NotFound(msg)) => msg@ == not_found_text(key_id) && final(self)@ == old(self)@
                    && forall|i: int| 0 <= i < old(self)@.len() ==> !revoke_match(#[trigger] old(self)@[i], org_id@, key_id),
                Err(_) => false,
            },
    {
        let ghost pred = |x: ApiKeyView| revoke_match(x, org_id@, key_id);
        let mut i: usize = 0;
        while i < self.keys.len()
            invariant
                i <= self.keys@.len(),
                pred == (|x: ApiKeyView| revoke_match(x, org_id@, key_id)),
                self.keys@ == old(self).keys@,
                forall|j: int| 0 <= j < i ==> !revoke_match(#[trigger] self@[j], org_id@, key_id),
            decreases self.keys.len() - i,
        {
            assert(self@[i as int] == self.keys@[i as int]@);
            if self.keys[i].id == key_id && str_eq(self.keys[i].org_id.as_str(), org_id) && self.keys[i].is_active() {
                let ghost before = self@;
                assert(first_revoke_index(before, org_id@, key_id, i as int));
                let mut updated = self.keys[i].duplicate();
                updated.revoked_at = Some(now);
                self.keys.set(i, updated);
                assert(self@ =~= before.update(i as int, ApiKeyView { revoked_at: Some(now), ..before[i as int] }));
                assert(before == old(self)@);
                return Ok(());
            }
            i = i + 1;
        }
        Err(MemcoreError::NotFound(id_message("api key not found: ", key_id)))
    }

    /// First `n` of `cands` newest first.
    fn top_keys(cands: &Vec<ApiKeyRecord>, n: usize) -> (r: Vec<ApiKeyRecord>)
        ensures
            is_top_page(
                cands@.map_values(|k: ApiKeyRecord| k@),
                api_key_key(),
                n as int,
                r@.map_values(|k: ApiKeyRecord| k@),
            ),
    {
        let ghost views = cands@.map_values(|k: ApiKeyRecord| k@);
        let mut keys: Vec<(i128, u128)> = Vec::new();
        for k in 0..cands.len()
            invariant
                views == cands@.map_values(|k: ApiKeyRecord| k@),
                keys@.len() == k,
                forall|m: int| 0 <= m < k ==> keys@[m] == (#[trigger] views[m]).sort_key(),
        {
            keys.push((cands[k].created_at, cands[k].id));
        }
        let out = top_desc_positions(&keys, n);
        let mut page: Vec<ApiKeyRecord> = Vec::new();
        for k in 0..out.len()
            invariant
                is_top_positions(keys@, n as int, out@),
                keys@.len() == cands@.len(),
                page@.len() == k,
                forall|m: int| 0 <= m < k ==> (#[trigger] page@[m])@ == cands@[out@[m] as int]@,
        {
            page.push(cands[out[k]].duplicate());
        }
        proof {
            assert(keys@ =~= views.map_values(api_key_key()));
            assert(page@.map_values(|k: ApiKeyRecord| k@) =~= out@.map_values(|p: usize| views[p as int]));
        }
        page
    }

    /// The organization's keys matching the query, newest first, holding one
    /// more than `limit` when that many match.
    pub fn list_api_keys(&self, query: ApiKeyListQuery) -> (r: Result<Vec<ApiKeyRecord>, MemcoreError>)
        ensures
            r matches Ok(page) && is_top_page(
                self@.filter(|k: ApiKeyView| list_match(query, k)),
                api_key_key(),
                fetch_limit_spec(query.limit) as int,
                page@.map_values(|k: ApiKeyRecord| k@),
            ),
    {
        let ghost pred = |k: ApiKeyView| list_match(query, k);
        let mut cands: Vec<ApiKeyRecord> = Vec::new();
        for i in 0..self.keys.len()
            invariant
                pred == (|k: ApiKeyView| list_match(query, k)),
                cands@.map_values(|k: ApiKeyRecord| k@) == self@.take(i as int).filter(pred),
        {
            let k = &self.keys[i];
            let ghost before = cands@.map_values(|k: ApiKeyRecord| k@);
            proof {
                lemma_filter_take_step(self@, pred, i as int);
                assert(self@[i as int] == k@);
            }
            let cursor_ok = match &query.cursor {
                Some(c) => is_after_cursor_in_desc_order(k.created_at, k.id, c),
                None => true,
            };
            if str_eq(k.org_id.as_str(), query.org_id.as_str()) && (query.include_revoked || k.is_active()) && cursor_ok {
                cands.push(k.duplicate());
                assert(cands@.map_values(|k: ApiKeyRecord| k@) =~= before.push(k@));
            }
        }
        proof {
            lemma_take_full(self@);
        }
        Ok(Self::top_keys(&cands, page_fetch_limit(query.limit)))
    }
}

/// A revoked key is no longer found by its hash: after a successful
/// revocation of the key at `i`, that key no longer matches any hash lookup.
pub proof fn law_revoked_key_not_found(before: Seq<ApiKeyView>, after: Seq<ApiKeyView>, org_id: Seq<char>, id: u128, now: i128, i: int, hash: Seq<char>)
    requires
        first_revoke_index(before, org_id, id, i),
        after == before.update(i, ApiKeyView { revoked_at: Some(now), ..before[i] }),
    ensures
        !hash_match(after[i], hash),
        after[i].id == id,
        forall|j: int| 0 <= j < before.len() && j != i ==> after[j] == before[j],
{
}

/// Listing never shows another organization's keys, nor revoked keys unless
/// asked for.
pub proof fn law_api_key_listing_scope(keys: Seq<ApiKeyView>, q: ApiKeyListQuery, k: ApiKeyView)
    requires
        keys.filter(|x: ApiKeyView| list_match(q, x)).contains(k),
    ensures
        k.org_id == q.org_id@,
        !q.include_revoked ==> k.active(),
{
    let s = keys.filter(|x: ApiKeyView| list_match(q, x));
    let j = choose|j: int| 0 <= j < s.len() && s[j] == k;
    keys.lemma_filter_pred(|x: ApiKeyView| list_match(q, x), j);
}

/// A revocation that changed no row found no live key of the organization.
pub fn require_key_revoked(rows_affected: u64, key_id: u128) -> (r: Result<(), MemcoreError>)
    ensures
        if rows_affected > 0 {
            r is Ok
        } else {
            r matches Err(MemcoreError::NotFound(m)) && m@ == not_found_text(key_id)
        },
{
    if rows_affected == 0 {
        return Err(MemcoreError::NotFound(id_message("api key not found: ", key_id)));
    }
    Ok(())
}

/// A key listing holds only the organization's keys, revoked ones only when
/// asked, lying past the cursor; it lists them newest first (by
/// `created_at`, then id); and it leaves out a qualifying key only when the
/// page is full and the key is listed no earlier than all of the page.
pub proof fn law_api_key_listing(keys: Seq<ApiKeyView>, q: ApiKeyListQuery, n: int, page: Seq<ApiKeyView>)
    requires
        keys.len() <= usize::MAX,
        is_top_page(keys.filter(|k: ApiKeyView| list_match(q, k)), api_key_key(), n, page),
    ensures
        forall|i: int| 0 <= i < page.len() ==> {
            let k = #[trigger] page[i];
            &&& keys.contains(k)
            &&& k.org_id == q.org_id@
            &&& (q.include_revoked || k.revoked_at is None)
            &&& (q.cursor matches Some(c) ==> k.created_at < c.last_sort_value || (k.created_at == c.last_sort_value && k.id < c.last_id))
        },
        forall|i: int, j: int| 0 <= i < j < page.len() ==>
            (#[trigger] page[i]).created_at > (#[trigger] page[j]).created_at
                || (page[i].created_at == page[j].created_at && page[i].id >= page[j].id),
        forall|k: ApiKeyView| {
            &&& keys.contains(k)
            &&& k.org_id == q.org_id@
            &&& (q.include_revoked || k.revoked_at is None)
            &&& (q.cursor matches Some(c) ==> k.created_at < c.last_sort_value || (k.created_at == c.last_sort_value && k.id < c.last_id))
            &&& !page.contains(k)
        } ==> {
            &&& page.len() == n
            &&& forall|i: int| 0 <= i < page.len() ==> (#[trigger] page[i]).created_at > k.created_at
                || (page[i].created_at == k.created_at && page[i].id >= k.id)
        },
{
    let pred = |k: ApiKeyView| list_match(q, k);
    lemma_filter_members(keys, pred);
    lemma_top_page_order(keys.filter(pred), api_key_key(), n, page);
}

} // verus!
