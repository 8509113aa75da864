//! Embeddings kept in memory, one per record id, scoped to a tenant. The
//! components of an embedding are the IEEE-754 bit patterns of its `f32`
//! values; scoring them is left to the caller.

use vstd::prelude::*;
use crate::errors::MemcoreError;
use crate::facts::{id_message, memory_type_in};
use crate::ids::uuid_text;
use crate::seqs::{lemma_filter_take_step, lemma_take_full};
use crate::types::{MemoryType, TenantContext, same_tenant};

verus! {

/// An embedding of one fact.
#[derive(Debug)]
pub struct VectorRecord {
    pub id: u128,
    pub fact_id: u128,
    pub org_id: String,
    pub user_id: String,
    pub embedding_bits: Vec<u32>,
    pub content: String,
    pub memory_type: MemoryType,
    pub metadata_json: String,
}

pub struct VectorRecordView {
    pub id: u128,
    pub fact_id: u128,
    pub org_id: Seq<char>,
    pub user_id: Seq<char>,
    pub embedding_bits: Seq<u32>,
    pub content: Seq<char>,
    pub memory_type: MemoryType,
    pub metadata_json: Seq<char>,
}

impl View for VectorRecord {
    type V = VectorRecordView;

    open spec fn view(&self) -> VectorRecordView {
        VectorRecordView {
            id: self.id,
            fact_id: self.fact_id,
            org_id: self.org_id@,
            user_id: self.user_id@,
            embedding_bits: self.embedding_bits@,
            content: self.content@,
            memory_type: self.memory_type,
            metadata_json: self.metadata_json@,
        }
    }
}

impl VectorRecord {
    pub fn duplicate(&self) -> (r: VectorRecord)
        ensures
            r@ == self@,
    {
        let mut bits: Vec<u32> = Vec::new();
        for i in 0..self.embedding_bits.len()
            invariant
                bits@ == self.embedding_bits@.take(i as int),
        {
            bits.push(self.embedding_bits[i]);
        }
        assert(bits@ == self.embedding_bits@);
        VectorRecord {
            id: self.id,
            fact_id: self.fact_id,
            org_id: self.org_id.clone(),
            user_id: self.user_id.clone(),
            embedding_bits: bits,
            content: self.content.clone(),
            memory_type: self.memory_type,
            metadata_json: self.metadata_json.clone(),
        }
    }
}

/// A similarity search: the tenant's records of the given memory types.
pub struct VectorSearchQuery {
    pub tenant: TenantContext,
    pub embedding_bits: Vec<u32>,
    pub limit: usize,
    pub memory_types: Option<Vec<MemoryType>>,
    pub metadata_filter_json: Option<String>,
}

/// A record a search may score: the query's tenant, and one of its memory
/// types when it names some.
pub open spec fn search_candidate(q: VectorSearchQuery, r: VectorRecordView) -> bool {
    &&& same_tenant(r.org_id, r.user_id, q.tenant)
    &&& (q.memory_types matches Some(types) ==> types@.contains(r.memory_type))
}

/// A record a deletion by fact id removes.
pub open spec fn fact_vector(tenant: TenantContext, fact_id: u128, r: VectorRecordView) -> bool {
    same_tenant(r.org_id, r.user_id, tenant) && r.fact_id == fact_id
}

/// What a search hit carries besides its score: the fact, its memory type,
/// its metadata as JSON text, and its content.
#[derive(Debug)]
pub struct SearchHit {
    pub fact_id: u128,
    pub content: String,
    pub memory_type: MemoryType,
    pub metadata_json: String,
}

impl View for SearchHit {
    type V = (u128, MemoryType, Seq<char>, Seq<char>);

    open spec fn view(&self) -> (u128, MemoryType, Seq<char>, Seq<char>) {
        (self.fact_id, self.memory_type, self.metadata_json@, self.content@)
    }
}

pub open spec fn vector_not_found_text(fact_id: u128) -> Seq<char> {
    "vector record not found for fact: "@ + uuid_text(fact_id)
}

/// The records, by id.
pub open spec fn records_map(s: Seq<VectorRecordView>) -> Map<u128, VectorRecordView> {
    Map::new(
        |id: u128| exists|i: int| 0 <= i < s.len() && (#[trigger] s[i]).id == id,
        |id: u128| s[choose|i: int| 0 <= i < s.len() && (#[trigger] s[i]).id == id],
    )
}

pub open spec fn ids_distinct(s: Seq<VectorRecordView>) -> bool {
    forall|a: int, b: int| 0 <= a < b < s.len() ==> (#[trigger] s[a]).id != (#[trigger] s[b]).id
}

proof fn lemma_records_map_at(s: Seq<VectorRecordView>, i: int)
    requires
        0 <= i < s.len(),
        ids_distinct(s),
    ensures
        records_map(s).contains_key(s[i].id),
        records_map(s)[s[i].id] == s[i],
{
    let id = s[i].id;
    assert(records_map(s).dom().contains(id));
    let j = choose|j: int| 0 <= j < s.len() && (#[trigger] s[j]).id == id;
    if j != i {
        if j < i {
            assert(s[j].id != s[i].id);
        } else {
            assert(s[i].id != s[j].id);
        }
    }
}

/// A filter of distinct-id records gives the map restricted to what it keeps.
proof fn lemma_records_map_filter(s: Seq<VectorRecordView>, keep: spec_fn(VectorRecordView) -> bool)
    requires
        ids_distinct(s),
    ensures
        ids_distinct(s.filter(keep)),
        records_map(s.filter(keep)) == records_map(s).restrict(records_map(s).dom().filter(|id: u128| keep(records_map(s)[id]))),
    decreases s.len(),
{
    let f = s.filter(keep);
    reveal(Seq::filter);
    if s.len() == 0 {
        assert(records_map(f) =~= records_map(s).restrict(records_map(s).dom().filter(|id: u128| keep(records_map(s)[id]))));
    } else {
        let p = s.drop_last();
        assert forall|a: int, b: int| 0 <= a < b < p.len() implies (#[trigger] p[a]).id != (#[trigger] p[b]).id by {
            assert(p[a] == s[a] && p[b] == s[b]);
        }
        lemma_records_map_filter(p, keep);
        let fp = p.filter(keep);
        assert forall|x: VectorRecordView| fp.contains(x) implies p.contains(x) by {
            let k = choose|k: int| 0 <= k < fp.len() && fp[k] == x;
            p.lemma_filter_contains_rev(keep, x);
        }
        let last = s.last();
        assert forall|i: int| 0 <= i < p.len() implies (#[trigger] p[i]).id != last.id by {
            assert(s[i].id != s[s.len() - 1].id);
        }
        assert forall|a: int, b: int| 0 <= a < b < f.len() implies (#[trigger] f[a]).id != (#[trigger] f[b]).id by {
            if keep(last) {
                assert(f =~= fp.push(last));
                if b == f.len() - 1 {
                    assert(fp.contains(f[a]));
                    let k = choose|k: int| 0 <= k < p.len() && p[k] == f[a];
                    assert(p[k].id != last.id);
                } else {
                    assert(f[a] == fp[a] && f[b] == fp[b]);
                }
            } else {
                assert(f =~= fp);
            }
        }
        let m = records_map(s);
        let target = m.restrict(m.dom().filter(|id: u128| keep(m[id])));
        assert forall|id: u128| #![auto] records_map(f).contains_key(id) == target.contains_key(id) by {
            if records_map(f).contains_key(id) {
                let i = choose|i: int| 0 <= i < f.len() && (#[trigger] f[i]).id == id;
                assert(f.contains(f[i]));
                s.lemma_filter_contains_rev(keep, f[i]);
                let j = choose|j: int| 0 <= j < s.len() && s[j] == f[i];
                lemma_records_map_at(s, j);
                s.lemma_filter_pred(keep, i);
            }
            if target.contains_key(id) {
                let j = choose|j: int| 0 <= j < s.len() && (#[trigger] s[j]).id == id;
                lemma_records_map_at(s, j);
                s.lemma_filter_contains(keep, j);
                let i = choose|i: int| 0 <= i < f.len() && f[i] == s[j];
                assert(f[i].id == id);
            }
        }
        assert forall|id: u128| #![auto] records_map(f).contains_key(id) implies records_map(f)[id] == target[id] by {
            let i = choose|i: int| 0 <= i < f.len() && (#[trigger] f[i]).id == id;
            lemma_records_map_at(f, i);
            s.lemma_filter_contains_rev(keep, f[i]);
            let j = choose|j: int| 0 <= j < s.len() && s[j] == f[i];
            lemma_records_map_at(s, j);
        }
        assert(records_map(f) =~= target);
    }
}

/// What a removal by tenant, and by fact when `fact_id` is given, keeps.
pub open spec fn retain_keep(tenant: TenantContext, fact_id: Option<u128>) -> spec_fn(VectorRecordView) -> bool {
    |v: VectorRecordView| !(same_tenant(v.org_id, v.user_id, tenant) && (fact_id matches Some(f) ==> v.fact_id == f))
}

/// Embeddings kept in memory, at most one per record id.
pub struct MockVectorStore {
    records: Vec<VectorRecord>,
}

impl View for MockVectorStore {
    type V = Map<u128, VectorRecordView>;

    closed spec fn view(&self) -> Map<u128, VectorRecordView> {
        records_map(self.records@.map_values(|r: VectorRecord| r@))
    }
}

impl MockVectorStore {
    pub closed spec fn wf(&self) -> bool {
        ids_distinct(self.records@.map_values(|r: VectorRecord| r@))
    }

    pub fn new() -> (s: MockVectorStore)
        ensures
            s.wf(),
            s@ == Map::<u128, VectorRecordView>::empty(),
    {
        let s = MockVectorStore { records: Vec::new() };
        assert(s@ =~= Map::<u128, VectorRecordView>::empty());
        s
    }

    /// Stores `record` under its id, replacing any record with that id,
    /// when it belongs to `tenant`.
    pub fn upsert_vector(&mut self, tenant: &TenantContext, record: VectorRecord) -> (r: Result<(), MemcoreError>)
        requires
            old(self).wf(),
        ensures
            final(self).wf(),
            if same_tenant(record.org_id@, record.user_id@, *tenant) {
                r is Ok && final(self)@ == old(self)@.insert(record.id, record@)
            } else {
                r matches Err(MemcoreError::Forbidden) && final(self)@ == old(self)@
            },
    {
        if !tenant.owns(&record.org_id, &record.user_id) {
            return Err(MemcoreError::Forbidden);
        }
        let ghost before = self.records@.map_values(|r: VectorRecord| r@);
        let ghost rv = record@;
        let mut i: usize = 0;
        while i < self.records.len()
            invariant
                i <= self.records@.len(),
                rv == record@,
                same_tenant(record.org_id@, record.user_id@, *tenant),
                ids_distinct(before),
                before == old(self).records@.map_values(|r: VectorRecord| r@),
                self.records@.map_values(|r: VectorRecord| r@) == before,
                forall|j: int| 0 <= j < i ==> (#[trigger] self.records@[j]).id != rv.id,
            decreases self.records.len() - i,
        {
            if self.records[i].id == record.id {
                self.records.set(i, record);
                let ghost after = self.records@.map_values(|r: VectorRecord| r@);
                proof {
                    assert(after =~= before.update(i as int, rv));
                    assert forall|a: int, b: int| 0 <= a < b < after.len() implies (#[trigger] after[a]).id != (#[trigger] after[b]).id by {
                        if a != i && b != i {
                            assert(after[a] == before[a] && after[b] == before[b]);
                        } else if a == i {
                            assert(before[a].id == rv.id);
                            assert(after[b] == before[b]);
                        } else {
                            assert(before[b].id == rv.id);
                            assert(after[a] == before[a]);
                        }
                    }
                    let m0 = records_map(before);
                    assert forall|id: u128| #![auto] records_map(after).contains_key(id) == m0.insert(rv.id, rv).contains_key(id) by {
                        if m0.contains_key(id) {
                            let j = choose|j: int| 0 <= j < before.len() && (#[trigger] before[j]).id == id;
                            if j != i {
                                assert(after[j].id == id);
                            } else {
                                assert(after[j].id == rv.id);
                            }
                        }
                        if id == rv.id {
                            assert(after[i as int].id == id);
                        }
                        if records_map(after).contains_key(id) {
                            let j = choose|j: int| 0 <= j < after.len() && (#[trigger] after[j]).id == id;
                            if j != i {
                                assert(before[j].id == id);
                            }
                        }
                    }
                    assert forall|id: u128| #![auto] records_map(after).contains_key(id) implies records_map(after)[id] == m0.insert(rv.id, rv)[id] by {
                        let j = choose|j: int| 0 <= j < after.len() && (#[trigger] after[j]).id == id;
                        lemma_records_map_at(after, j);
                        if j != i {
                            assert(before[j] == after[j]);
                            lemma_records_map_at(before, j);
                        }
                    }
                    assert(records_map(after) =~= m0.insert(rv.id, rv));
                }
                return Ok(());
            }
            i = i + 1;
        }
        self.records.push(record);
        let ghost after = self.records@.map_values(|r: VectorRecord| r@);
        proof {
            let n = before.len() as int;
            assert(after =~= before.push(rv));
            assert forall|a: int, b: int| 0 <= a < b < after.len() implies (#[trigger] after[a]).id != (#[trigger] after[b]).id by {
                if b == n {
                    assert(after[a] == before[a]);
                    assert(self.records@[a]@ == before[a]);
                } else {
                    assert(after[a] == before[a] && after[b] == before[b]);
                }
            }
            let m0 = records_map(before);
            assert forall|id: u128| #![auto] records_map(after).contains_key(id) == m0.insert(rv.id, rv).contains_key(id) by {
                if m0.contains_key(id) {
                    let j = choose|j: int| 0 <= j < before.len() && (#[trigger] before[j]).id == id;
                    assert(after[j].id == id);
                }
                if id == rv.id {
                    assert(after[n].id == id);
                }
                if records_map(after).contains_key(id) {
                    let j = choose|j: int| 0 <= j < after.len() && (#[trigger] after[j]).id == id;
                    if j != n {
                        assert(before[j].id == id);
                    }
                }
            }
            assert forall|id: u128| #![auto] records_map(after).contains_key(id) implies records_map(after)[id] == m0.insert(rv.id, rv)[id] by {
                let j = choose|j: int| 0 <= j < after.len() && (#[trigger] after[j]).id == id;
                lemma_records_map_at(after, j);
                if j != n {
                    assert(before[j] == after[j]);
                    lemma_records_map_at(before, j);
                }
            }
            assert(records_map(after) =~= m0.insert(rv.id, rv));
        }
        Ok(())
    }

    /// Keeps the records `keep` accepts, in order.
    fn retain_records(&mut self, tenant: &TenantContext, fact_id: Option<u128>) -> (removed: usize)
        requires
            old(self).wf(),
        ensures
            final(self).wf(),
            final(self).records@.map_values(|r: VectorRecord| r@) == old(self).records@.map_values(|r: VectorRecord| r@).filter(
                retain_keep(*tenant, fact_id),
            ),
            removed == old(self).records@.len() - final(self).records@.len(),
    {
        let ghost keep = retain_keep(*tenant, fact_id);
        let ghost views = self.records@.map_values(|r: VectorRecord| r@);
        let mut kept: Vec<VectorRecord> = Vec::new();
        for i in 0..self.records.len()
            invariant
                keep == retain_keep(*tenant, fact_id),
                views == self.records@.map_values(|r: VectorRecord| r@),
                kept@.map_values(|r: VectorRecord| r@) == views.take(i as int).filter(keep),
                kept@.len() <= i,
        {
            let rec = &self.records[i];
            proof {
                lemma_filter_take_step(views, keep, i as int);
                assert(views[i as int] == rec@);
            }
            let ghost before = kept@.map_values(|r: VectorRecord| r@);
            let matches_fact = match fact_id {
                Some(f) => rec.fact_id == f,
                None => true,
            };
            if !(tenant.owns(&rec.org_id, &rec.user_id) && matches_fact) {
                kept.push(rec.duplicate());
                assert(kept@.map_values(|r: VectorRecord| r@) =~= before.push(rec@));
            }
            proof {
                views.take(i + 1).lemma_filter_len(keep);
            }
        }
        proof {
            lemma_take_full(views);
            lemma_records_map_filter(views, keep);
        }
        let n = self.records.len();
        let removed = n - kept.len();
        self.records = kept;
        removed
    }

    /// Removes the tenant's records of fact `fact_id`; finding none is an
    /// error.
    pub fn delete_by_fact_id(&mut self, tenant: &TenantContext, fact_id: u128) -> (r: Result<(), MemcoreError>)
        requires
            old(self).wf(),
        ensures
            final(self).wf(),
            final(self)@ == old(self)@.restrict(old(self)@.dom().filter(|id: u128| !fact_vector(*tenant, fact_id, old(self)@[id]))),
            match r {
                Ok(()) => exists|id: u128| old(self)@.contains_key(id) && #[trigger] fact_vector(*tenant, fact_id, old(self)@[id]),
                Err(MemcoreError::NotFound(msg)) => msg@ == vector_not_found_text(fact_id)
                    && forall|id: u128| old(self)@.contains_key(id) ==> !(#[trigger] fact_vector(*tenant, fact_id, old(self)@[id])),
                Err(_) => false,
            },
    {
        let ghost views = self.records@.map_values(|r: VectorRecord| r@);
        let ghost keep = retain_keep(*tenant, Some(fact_id));
        let removed = self.retain_records(tenant, Some(fact_id));
        proof {
            lemma_records_map_filter(views, keep);
            assert((|id: u128| keep(records_map(views)[id])) =~= (|id: u128| !fact_vector(*tenant, fact_id, records_map(views)[id])));
        }
        if removed == 0 {
            proof {
                assert forall|id: u128| records_map(views).contains_key(id) implies !(#[trigger] fact_vector(*tenant, fact_id, records_map(views)[id])) by {
                    let j = choose|j: int| 0 <= j < views.len() && (#[trigger] views[j]).id == id;
                    lemma_records_map_at(views, j);
                    if fact_vector(*tenant, fact_id, views[j]) {
                        lemma_filter_short_when_excluded(views, keep, j);
                    }
                }
            }
            return Err(MemcoreError::NotFound(id_message("vector record not found for fact: ", fact_id)));
        }
        proof {
            lemma_filter_short_has_excluded(views, keep);
            let j = choose|j: int| 0 <= j < views.len() && !keep(#[trigger] views[j]);
            lemma_records_map_at(views, j);
            assert(fact_vector(*tenant, fact_id, records_map(views)[views[j].id]));
            assert(views == old(self).records@.map_values(|r: VectorRecord| r@));
            assert(old(self)@.contains_key(views[j].id) && fact_vector(*tenant, fact_id, old(self)@[views[j].id]));
        }
        Ok(())
    }

    /// Removes every record of `tenant`.
    pub fn delete_by_user(&mut self, tenant: &TenantContext) -> (r: Result<(), MemcoreError>)
        requires
            old(self).wf(),
        ensures
            final(self).wf(),
            r is Ok,
            final(self)@ == old(self)@.restrict(old(self)@.dom().filter(|id: u128| !same_tenant(old(self)@[id].org_id, old(self)@[id].user_id, *tenant))),
    {
        let ghost views = self.records@.map_values(|r: VectorRecord| r@);
        let ghost keep = retain_keep(*tenant, None);
        let _ = self.retain_records(tenant, None);
        proof {
            lemma_records_map_filter(views, keep);
            assert((|id: u128| keep(records_map(views)[id])) =~= (|id: u128| !same_tenant(records_map(views)[id].org_id, records_map(views)[id].user_id, *tenant)));
        }
        Ok(())
    }

    /// The records a search scores, each once: the query's tenant and memory
    /// types; scoring, metadata filtering, ordering and the limit are the
    /// caller's.
    pub fn search_candidates(&self, query: &VectorSearchQuery) -> (r: Vec<VectorRecord>)
        requires
            self.wf(),
        ensures
            forall|i: int| 0 <= i < r@.len() ==> {
                &&& self@.contains_key((#[trigger] r@[i]).id)
                &&& self@[r@[i].id] == r@[i]@
                &&& search_candidate(*query, r@[i]@)
            },
            forall|id: u128| self@.contains_key(id) && #[trigger] search_candidate(*query, self@[id]) ==> exists|i: int| 0 <= i < r@.len() && (#[trigger] r@[i]).id == id,
            ids_distinct(r@.map_values(|x: VectorRecord| x@)),
    {
        let ghost views = self.records@.map_values(|r: VectorRecord| r@);
        let ghost pred = |v: VectorRecordView| search_candidate(*query, v);
        let mut out: Vec<VectorRecord> = Vec::new();
        for i in 0..self.records.len()
            invariant
                self.wf(),
                views == self.records@.map_values(|r: VectorRecord| r@),
                pred == (|v: VectorRecordView| search_candidate(*query, v)),
                out@.map_values(|x: VectorRecord| x@) == views.take(i as int).filter(pred),
        {
            let rec = &self.records[i];
            proof {
                lemma_filter_take_step(views, pred, i as int);
                assert(views[i as int] == rec@);
            }
            let ghost before = out@.map_values(|x: VectorRecord| x@);
            let type_ok = match &query.memory_types {
                Some(types) => memory_type_in(types, rec.memory_type),
                None => true,
            };
            if query.tenant.owns(&rec.org_id, &rec.user_id) && type_ok {
                out.push(rec.duplicate());
                assert(out@.map_values(|x: VectorRecord| x@) =~= before.push(rec@));
            }
        }
        proof {
            lemma_take_full(views);
            lemma_records_map_filter(views, pred);
            let f = views.filter(pred);
            assert(out@.map_values(|x: VectorRecord| x@) == f);
            assert forall|i: int| 0 <= i < out@.len() implies {
                &&& self@.contains_key((#[trigger] out@[i]).id)
                &&& self@[out@[i].id] == out@[i]@
                &&& search_candidate(*query, out@[i]@)
            } by {
                assert(f[i] == out@[i]@);
                lemma_records_map_at(f, i);
                views.lemma_filter_pred(pred, i);
            }
            assert forall|id: u128| self@.contains_key(id) && #[trigger] search_candidate(*query, self@[id]) implies exists|i: int| 0 <= i < out@.len() && (#[trigger] out@[i]).id == id by {
                let j = choose|j: int| 0 <= j < views.len() && (#[trigger] views[j]).id == id;
                lemma_records_map_at(views, j);
                views.lemma_filter_contains(pred, j);
                let i = choose|i: int| 0 <= i < f.len() && f[i] == views[j];
                assert(out@[i]@ == f[i]);
            }
        }
        out
    }
}

/// A filter that refuses an element is shorter than its input.
proof fn lemma_filter_short_when_excluded(s: Seq<VectorRecordView>, keep: spec_fn(VectorRecordView) -> bool, j: int)
    requires
        0 <= j < s.len(),
        !keep(s[j]),
    ensures
        s.filter(keep).len() < s.len(),
    decreases s.len(),
{
    reveal(Seq::filter);
    let p = s.drop_last();
    p.lemma_filter_len(keep);
    if j < s.len() - 1 {
        assert(p[j] == s[j]);
        lemma_filter_short_when_excluded(p, keep, j);
    }
}

/// A filter shorter than its input refused something.
proof fn lemma_filter_short_has_excluded(s: Seq<VectorRecordView>, keep: spec_fn(VectorRecordView) -> bool)
    requires
        s.filter(keep).len() < s.len(),
    ensures
        exists|j: int| 0 <= j < s.len() && !keep(#[trigger] s[j]),
    decreases s.len(),
{
    reveal(Seq::filter);
    let p = s.drop_last();
    if keep(s.last()) {
        lemma_filter_short_has_excluded(p, keep);
        let j = choose|j: int| 0 <= j < p.len() && !keep(#[trigger] p[j]);
        assert(s[j] == p[j]);
    } else {
        assert(!keep(s[s.len() - 1]));
    }
}

/// A search never offers another tenant's records.
pub proof fn law_vector_search_isolation(q: VectorSearchQuery, r: VectorRecordView)
    requires
        search_candidate(q, r),
    ensures
        r.org_id == q.tenant.org_id@,
        r.user_id == q.tenant.user_id@,
{
}

} // verus!
