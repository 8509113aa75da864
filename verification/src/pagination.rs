//! Descending (sort value, id) order used by every listing, and a verified
//! top-`n` selection in that order.

use vstd::prelude::*;
use crate::errors::MemcoreError;

verus! {

/// Position in a listing: the sort timestamp, then the record id.
pub open spec fn key_gt(a: (i128, u128), b: (i128, u128)) -> bool {
    a.0 > b.0 || (a.0 == b.0 && a.1 > b.1)
}

/// The point a page ends at: listing continues with records strictly after it
/// in descending (sort value, id) order.
#[derive(Clone, Copy, Debug, PartialEq, Eq)]
pub struct PageCursor {
    pub last_sort_value: i128,
    pub last_id: u128,
}

/// A record is on a later page than `cursor` when its (sort value, id) is
/// strictly below the cursor's.
pub open spec fn after_cursor(sort_value: i128, id: u128, cursor: PageCursor) -> bool {
    key_gt((cursor.last_sort_value, cursor.last_id), (sort_value, id))
}

/// Exact test of `after_cursor`.
pub fn is_after_cursor_in_desc_order(sort_value: i128, id: u128, cursor: &PageCursor) -> (r: bool)
    ensures
        r == after_cursor(sort_value, id, *cursor),
{
    sort_value < cursor.last_sort_value || (sort_value == cursor.last_sort_value && id
        < cursor.last_id)
}

/// A listing order on keys: `before` is irreflexive and transitive, and
/// "neither before the other" is transitive too (a strict weak order).
pub trait ListingOrder: Sized {
    /// `self` is listed ahead of `other`.
    spec fn before(self, other: Self) -> bool;

    proof fn lemma_order(a: Self, b: Self, c: Self)
        ensures
            !a.before(a),
            a.before(b) && b.before(c) ==> a.before(c),
            !a.before(b) && !b.before(c) ==> !a.before(c),
    ;
}

/// A listing order that running code can decide.
pub trait ListingKey: ListingOrder {
    fn is_before(&self, other: &Self) -> (r: bool)
        ensures
            r == self.before(*other),
    ;
}

impl ListingOrder for (i128, u128) {
    open spec fn before(self, other: Self) -> bool {
        key_gt(self, other)
    }

    proof fn lemma_order(a: Self, b: Self, c: Self) {
    }
}

impl ListingKey for (i128, u128) {
    fn is_before(&self, other: &Self) -> (r: bool) {
        self.0 > other.0 || (self.0 == other.0 && self.1 > other.1)
    }
}

/// Listing by a timestamp, newest first, then by text id, greatest first.
impl ListingOrder for (i128, Seq<char>) {
    open spec fn before(self, other: Self) -> bool {
        self.0 > other.0 || (self.0 == other.0 && crate::text::str_lt(other.1, self.1))
    }

    proof fn lemma_order(a: Self, b: Self, c: Self) {
        crate::text::lemma_str_lt_order(a.1, b.1, c.1);
        crate::text::lemma_str_lt_order(c.1, b.1, a.1);
        crate::text::lemma_str_lt_order(b.1, a.1, c.1);
        crate::text::lemma_str_lt_order(c.1, a.1, b.1);
        crate::text::lemma_str_lt_order(b.1, c.1, a.1);
        crate::text::lemma_str_lt_order(a.1, c.1, b.1);
    }
}

/// Entry `i` of `keys` is listed before entry `j`: a key listed ahead first,
/// and among equivalent keys the earlier entry first (the order a stable sort
/// keeps).
pub open spec fn ranks_before<K: ListingOrder>(keys: Seq<K>, i: int, j: int) -> bool {
    keys[i].before(keys[j]) || (!keys[j].before(keys[i]) && i < j)
}

pub open spec fn min_nat(a: int, b: int) -> int {
    if a <= b {
        a
    } else {
        b
    }
}

/// `out` lists the first `n` positions of `keys` in `ranks_before` order.
pub open spec fn is_top_positions<K: ListingOrder>(keys: Seq<K>, n: int, out: Seq<usize>) -> bool {
    &&& out.len() == min_nat(n, keys.len() as int)
    &&& out.len() == keys.len() ==> forall|i: int|
        0 <= i < keys.len() ==> #[trigger] out.contains(i as usize)
    &&& forall|k: int| 0 <= k < out.len() ==> (#[trigger] out[k]) < keys.len()
    &&& forall|k: int, l: int|
        0 <= k < l < out.len() ==> ranks_before(keys, #[trigger] out[k] as int, #[trigger] out[l] as int)
    &&& forall|i: int, k: int|
        #![trigger out[k], keys[i]]
        0 <= i < keys.len() && !out.contains(i as usize) && 0 <= k < out.len() ==> ranks_before(
            keys,
            out[k] as int,
            i,
        )
}

proof fn lemma_ranks_before_trans<K: ListingOrder>(keys: Seq<K>, i: int, j: int, k: int)
    requires
        0 <= i < keys.len(),
        0 <= j < keys.len(),
        0 <= k < keys.len(),
        ranks_before(keys, i, j),
        ranks_before(keys, j, k),
    ensures
        ranks_before(keys, i, k),
{
    K::lemma_order(keys[i], keys[j], keys[k]);
    K::lemma_order(keys[i], keys[k], keys[j]);
    K::lemma_order(keys[j], keys[i], keys[k]);
    K::lemma_order(keys[k], keys[j], keys[i]);
}

proof fn lemma_ranks_before_asym<K: ListingOrder>(keys: Seq<K>, i: int, j: int)
    requires
        0 <= i < keys.len(),
        0 <= j < keys.len(),
        ranks_before(keys, i, j),
    ensures
        !ranks_before(keys, j, i),
        i != j,
{
    K::lemma_order(keys[i], keys[j], keys[i]);
    K::lemma_order(keys[j], keys[i], keys[j]);
}

/// Positions of the first `n` entries of `keys` in descending key order,
/// equal keys keeping their original order.
pub fn top_desc_positions<K: ListingKey>(keys: &Vec<K>, n: usize) -> (out: Vec<usize>)
    ensures
        is_top_positions(keys@, n as int, out@),
{
    let len = keys.len();
    let target: usize = if n < len {
        n
    } else {
        len
    };
    let mut out: Vec<usize> = Vec::new();
    while out.len() < target
        invariant
            len == keys@.len(),
            target as int == min_nat(n as int, len as int),
            out.len() <= target,
            forall|k: int| 0 <= k < out.len() ==> (#[trigger] out@[k]) < len,
            forall|k: int, l: int|
                0 <= k < l < out.len() ==> ranks_before(keys@, #[trigger] out@[k] as int, #[trigger] out@[l] as int),
            // everything not yet chosen is listed after everything chosen
            forall|i: int, k: int|
                #![trigger out@[k], keys@[i]]
                0 <= i < len && !out@.contains(i as usize) && 0 <= k < out.len() ==> ranks_before(
                    keys@,
                    out@[k] as int,
                    i,
                ),
        decreases target - out.len(),
    {
        // find the best position not chosen yet
        let mut best: usize = len;
        let mut i: usize = 0;
        while i < len
            invariant
                len == keys@.len(),
                out.len() < target,
                target <= len,
                forall|k: int| 0 <= k < out.len() ==> (#[trigger] out@[k]) < len,
                forall|k: int, l: int|
                    0 <= k < l < out.len() ==> ranks_before(keys@, #[trigger] out@[k] as int, #[trigger] out@[l] as int),
                forall|j: int, k: int|
                    #![trigger out@[k], keys@[j]]
                    0 <= j < len && !out@.contains(j as usize) && 0 <= k < out.len()
                        ==> ranks_before(keys@, out@[k] as int, j),
                i <= len,
                best == len || (best < i && !out@.contains(best)),
                forall|j: int|
                    0 <= j < i && !(#[trigger] out@.contains(j as usize)) ==> best < len && (j == best
                        || ranks_before(keys@, best as int, j)),
            decreases len - i,
        {
            if !vec_contains(&out, i) {
                if best == len {
                    best = i;
                } else {
                    if keys[i].is_before(&keys[best]) {
                        proof {
                            assert forall|j: int|
                                0 <= j < i && !out@.contains(j as usize) implies (j == i as int
                                || ranks_before(keys@, i as int, j)) by {
                                if j != best as int {
                                    lemma_ranks_before_trans(keys@, i as int, best as int, j);
                                }
                            }
                        }
                        best = i;
                    }
                }
            }
            i = i + 1;
        }
        proof {
            // some position is still free, so best was set
            if best == len {
                lemma_free_position_exists(out@, len as int);
            }
        }
        let ghost old_out = out@;
        out.push(best);
        proof {
            assert forall|j: int, k: int|
                #![trigger out@[k], keys@[j]]
                0 <= j < len && !out@.contains(j as usize) && 0 <= k < out.len() implies ranks_before(
                    keys@,
                    out@[k] as int,
                    j,
                ) by {
                assert(!old_out.contains(j as usize)) by {
                    if old_out.contains(j as usize) {
                        let w = choose|w: int| 0 <= w < old_out.len() && old_out[w] == j as usize;
                        assert(out@[w] == j as usize);
                    }
                }
                assert(j != best as int) by {
                    assert(out@[out.len() - 1] == best);
                }
                if k < old_out.len() {
                    assert(out@[k] == old_out[k]);
                    assert(keys@[j] == keys@[j]);
                } else {
                    assert(out@[k] == best);
                }
            }
            assert forall|k: int, l: int|
                0 <= k < l < out.len() implies ranks_before(keys@, #[trigger] out@[k] as int, #[trigger] out@[l] as int) by {
                if l == out.len() - 1 {
                    assert(out@[k] == old_out[k]);
                } else {
                    assert(out@[k] == old_out[k]);
                    assert(out@[l] == old_out[l]);
                }
            }
        }
    }
    proof {
        if out.len() == len {
            assert forall|i: int| 0 <= i < len implies #[trigger] out@.contains(i as usize) by {
                if !out@.contains(i as usize) {
                    lemma_positions_cover(keys@, out@, i);
                }
            }
        }
    }
    out
}

/// Positions strictly ordered by `ranks_before` and as many as there are
/// entries leave no entry out.
proof fn lemma_positions_cover<K: ListingOrder>(keys: Seq<K>, out: Seq<usize>, j: int)
    requires
        out.len() == keys.len(),
        keys.len() <= usize::MAX,
        forall|k: int| 0 <= k < out.len() ==> (#[trigger] out[k]) < keys.len(),
        forall|k: int, l: int|
            0 <= k < l < out.len() ==> ranks_before(keys, #[trigger] out[k] as int, #[trigger] out[l] as int),
        0 <= j < keys.len(),
    ensures
        out.contains(j as usize),
{
    if !out.contains(j as usize) {
        let len = keys.len() as int;
        let as_int = out.map_values(|x: usize| x as int);
        assert(as_int.no_duplicates()) by {
            assert forall|k: int, l: int| 0 <= k < as_int.len() && 0 <= l < as_int.len() && k != l implies as_int[k] != as_int[l] by {
                if k < l {
                    assert(ranks_before(keys, out[k] as int, out[l] as int));
                    lemma_ranks_before_asym(keys, out[k] as int, out[l] as int);
                } else {
                    assert(ranks_before(keys, out[l] as int, out[k] as int));
                    lemma_ranks_before_asym(keys, out[l] as int, out[k] as int);
                }
            }
        }
        as_int.unique_seq_to_set();
        let rest = vstd::set_lib::set_int_range(0, len).remove(j);
        vstd::set_lib::lemma_int_range(0, len);
        assert(as_int.to_set().subset_of(rest)) by {
            assert forall|x: int| as_int.to_set().contains(x) implies rest.contains(x) by {
                let w = choose|w: int| 0 <= w < as_int.len() && as_int[w] == x;
                assert(out[w] < len);
                if x == j {
                    assert(out[w] == j as usize);
                    assert(out.contains(j as usize));
                }
            }
        }
        vstd::set_lib::lemma_len_subset(as_int.to_set(), rest);
        assert(false);
    }
}

/// One more row than the page holds, so the caller can tell whether a next
/// page exists; saturates at `usize::MAX`.
pub open spec fn fetch_limit_spec(limit: usize) -> usize {
    if limit == usize::MAX {
        limit
    } else {
        (limit + 1) as usize
    }
}

pub fn page_fetch_limit(limit: usize) -> (r: usize)
    ensures
        r == fetch_limit_spec(limit),
{
    limit.saturating_add(1)
}

/// `r` is the first `n` members of `pool` in listing order: it is drawn from
/// `pool`, strictly ordered, and whatever of `pool` it leaves out is listed
/// after all of it, which happens only when `r` is full.
pub open spec fn is_desc_page<T, K: ListingOrder>(pool: Set<T>, key: spec_fn(T) -> K, n: int, r: Seq<T>) -> bool {
    &&& r.len() <= n
    &&& forall|k: int| 0 <= k < r.len() ==> pool.contains(#[trigger] r[k])
    &&& forall|k: int, l: int| 0 <= k < l < r.len() ==> key(#[trigger] r[k]).before(key(#[trigger] r[l]))
    &&& forall|x: T| pool.contains(x) && !r.contains(x) ==> {
        &&& r.len() == n
        &&& forall|k: int| 0 <= k < r.len() ==> key(#[trigger] r[k]).before(key(x))
    }
}

/// No two of `items` have equivalent keys.
pub open spec fn keys_distinct<T, K: ListingOrder>(items: Seq<T>, key: spec_fn(T) -> K) -> bool {
    forall|i: int, j: int|
        0 <= i < j < items.len() ==> key(#[trigger] items[i]).before(key(#[trigger] items[j]))
            || key(items[j]).before(key(items[i]))
}

/// Picking the top positions of distinct-keyed candidates yields their page.
pub proof fn lemma_page_from_positions<T, K: ListingOrder>(
    cands: Seq<T>,
    key: spec_fn(T) -> K,
    keys: Seq<K>,
    n: int,
    out: Seq<usize>,
    r: Seq<T>,
)
    requires
        keys.len() == cands.len(),
        cands.len() <= usize::MAX,
        forall|i: int| 0 <= i < cands.len() ==> keys[i] == key(#[trigger] cands[i]),
        keys_distinct(cands, key),
        is_top_positions(keys, n, out),
        r.len() == out.len(),
        forall|k: int| 0 <= k < r.len() ==> r[k] == cands[#[trigger] out[k] as int],
    ensures
        is_desc_page(cands.to_set(), key, n, r),
{
    assert forall|k: int| 0 <= k < r.len() implies cands.to_set().contains(#[trigger] r[k]) by {
        assert(out[k] < cands.len());
        assert(cands.contains(cands[out[k] as int]));
    }
    assert forall|k: int, l: int| 0 <= k < l < r.len() implies key(#[trigger] r[k]).before(key(#[trigger] r[l])) by {
        let a = out[k] as int;
        let b = out[l] as int;
        assert(ranks_before(keys, a, b));
        assert(keys[a] == key(cands[a]));
        assert(keys[b] == key(cands[b]));
        lemma_ranks_before_asym(keys, a, b);
        if !keys[a].before(keys[b]) {
            if a < b {
                assert(key(cands[a]).before(key(cands[b])) || key(cands[b]).before(key(cands[a])));
            } else {
                assert(key(cands[b]).before(key(cands[a])) || key(cands[a]).before(key(cands[b])));
            }
        }
    }
    assert forall|x: T| cands.to_set().contains(x) && !r.contains(x) implies {
        &&& r.len() == n
        &&& forall|k: int| 0 <= k < r.len() ==> key(#[trigger] r[k]).before(key(x))
    } by {
        let i = choose|i: int| 0 <= i < cands.len() && cands[i] == x;
        assert(!out.contains(i as usize)) by {
            if out.contains(i as usize) {
                let k = choose|k: int| 0 <= k < out.len() && out[k] == i as usize;
                assert(r[k] == x);
                assert(r.contains(x));
            }
        }
        if out.len() == keys.len() {
            assert(out.contains(i as usize));
        }
        assert forall|k: int| 0 <= k < r.len() implies key(#[trigger] r[k]).before(key(x)) by {
            assert(keys[i] == key(cands[i]));
            assert(ranks_before(keys, out[k] as int, i));
            let a = out[k] as int;
            assert(keys[a] == key(cands[a]));
            lemma_ranks_before_asym(keys, a, i);
            if !keys[a].before(keys[i]) {
                if a < i {
                    assert(key(cands[a]).before(key(cands[i])) || key(cands[i]).before(key(cands[a])));
                } else {
                    assert(key(cands[i]).before(key(cands[a])) || key(cands[a]).before(key(cands[i])));
                }
            }
        }
    }
}

/// Top positions carry over to keys mapped by an order-preserving map.
pub proof fn lemma_top_positions_map<K1: ListingOrder, K2: ListingOrder>(
    keys: Seq<K1>,
    f: spec_fn(K1) -> K2,
    n: int,
    out: Seq<usize>,
)
    requires
        is_top_positions(keys, n, out),
        forall|a: K1, b: K1| #[trigger] a.before(b) == f(a).before(f(b)),
    ensures
        is_top_positions(keys.map_values(f), n, out),
{
    let mapped = keys.map_values(f);
    assert forall|i: int, j: int| 0 <= i < keys.len() && 0 <= j < keys.len() implies ranks_before(keys, i, j) == ranks_before(mapped, i, j) by {
        assert(keys[i].before(keys[j]) == f(keys[i]).before(f(keys[j])));
        assert(keys[j].before(keys[i]) == f(keys[j]).before(f(keys[i])));
    }
    assert forall|k: int, l: int| 0 <= k < l < out.len() implies ranks_before(mapped, #[trigger] out[k] as int, #[trigger] out[l] as int) by {
        assert(ranks_before(keys, out[k] as int, out[l] as int));
    }
    assert forall|i: int, k: int|
        #![trigger out[k], mapped[i]]
        0 <= i < mapped.len() && !out.contains(i as usize) && 0 <= k < out.len() implies ranks_before(mapped, out[k] as int, i) by {
        assert(keys[i] == keys[i]);
        assert(ranks_before(keys, out[k] as int, i));
    }
}

/// `r` is the first `n` of `items` in listing order, equivalent keys keeping
/// their order in `items`.
pub open spec fn is_top_page<T, K: ListingOrder>(items: Seq<T>, key: spec_fn(T) -> K, n: int, r: Seq<T>) -> bool {
    exists|out: Seq<usize>|
        is_top_positions(items.map_values(key), n, out) && r == out.map_values(|p: usize| items[p as int])
}

/// Membership test on a vector of positions.
fn vec_contains(v: &Vec<usize>, x: usize) -> (r: bool)
    ensures
        r == v@.contains(x),
{
    let mut i: usize = 0;
    while i < v.len()
        invariant
            i <= v.len(),
            forall|k: int| 0 <= k < i ==> v@[k] != x,
        decreases v.len() - i,
    {
        if v[i] == x {
            return true;
        }
        i = i + 1;
    }
    false
}

/// Fewer than `len` positions, all below `len`: one position below `len` is free.
proof fn lemma_free_position_exists(out: Seq<usize>, len: int)
    requires
        out.len() < len,
        len <= usize::MAX,
        forall|k: int| 0 <= k < out.len() ==> (#[trigger] out[k]) < len,
    ensures
        exists|j: int| 0 <= j < len && !(#[trigger] out.contains(j as usize)),
{
    let as_int = out.map_values(|x: usize| x as int);
    if forall|j: int| 0 <= j < len ==> #[trigger] out.contains(j as usize) {
        let range = vstd::set_lib::set_int_range(0, len);
        vstd::set_lib::lemma_int_range(0, len);
        assert(range.subset_of(as_int.to_set())) by {
            assert forall|j: int| range.contains(j) implies as_int.to_set().contains(j) by {
                assert(out.contains(j as usize));
                let w = choose|w: int| 0 <= w < out.len() && out[w] == j as usize;
                assert(as_int[w] == j);
                assert(as_int.contains(j));
            }
        }
        as_int.lemma_cardinality_of_set();
        vstd::set_lib::lemma_len_subset(range, as_int.to_set());
        assert(false);
    }
}

/// A paged listing's limit is valid from 1 to `max_limit`.
pub open spec fn page_limit_valid(max_limit: usize, limit: usize) -> bool {
    1 <= limit <= max_limit
}

pub open spec fn page_limit_error_text(max_limit: usize) -> Seq<char> {
    "limit must be between 1 and "@ + crate::text::decimal_text(max_limit as nat)
}

/// Accepts a listing limit from 1 to `max_limit`.
pub fn validate_page_limit(max_limit: usize, limit: usize) -> (r: Result<usize, MemcoreError>)
    ensures
        if page_limit_valid(max_limit, limit) {
            r == Ok::<usize, MemcoreError>(limit)
        } else {
            r matches Err(MemcoreError::ValidationError(msg)) && msg@ == page_limit_error_text(max_limit)
        },
{
    if limit == 0 || limit > max_limit {
        let mut msg = String::from_str("limit must be between 1 and ");
        crate::text::push_decimal(&mut msg, max_limit);
        return Err(MemcoreError::ValidationError(msg));
    }
    Ok(limit)
}


/// Cuts the rows a listing fetched (at most one more than `limit`) to its
/// page: the first `limit` rows, and whether more came.
pub fn cut_page<T>(rows: Vec<T>, limit: usize) -> (r: (Vec<T>, bool))
    ensures
        r.1 == (rows@.len() > limit),
        r.0@ == (if rows@.len() > limit { rows@.take(limit as int) } else { rows@ }),
{
    let more = rows.len() > limit;
    let mut page = rows;
    if more {
        page.truncate(limit);
    }
    (page, more)
}

/// A page continues after its last record when more rows came and the page
/// holds any.
pub open spec fn page_continues(fetched: int, limit: usize) -> bool {
    fetched > limit && limit > 0
}

/// The cursor of a page's last record.
pub open spec fn cursor_of_last(keys: Seq<(i128, u128)>) -> PageCursor {
    PageCursor { last_sort_value: keys.last().0, last_id: keys.last().1 }
}

/// Following a page's cursor never returns a record of that page: the
/// records of a descending page are at or before its last one, so none of
/// them is after the cursor taken from it; and whatever is after the cursor
/// ranks below every record of the page.
pub proof fn law_cursor_follows_page(keys: Seq<(i128, u128)>, other: (i128, u128))
    requires
        keys.len() > 0,
        forall|i: int, j: int| 0 <= i < j < keys.len() ==> key_gt(#[trigger] keys[i], #[trigger] keys[j]),
    ensures
        forall|i: int| 0 <= i < keys.len() ==> !after_cursor((#[trigger] keys[i]).0, keys[i].1, cursor_of_last(keys)),
        after_cursor(other.0, other.1, cursor_of_last(keys)) ==> forall|i: int| 0 <= i < keys.len() ==> key_gt(#[trigger] keys[i], other),
{
    let n = keys.len() - 1;
    assert forall|i: int| 0 <= i < keys.len() implies !after_cursor((#[trigger] keys[i]).0, keys[i].1, cursor_of_last(keys)) by {
        if i < n {
            assert(key_gt(keys[i], keys[n]));
        }
    }
    if after_cursor(other.0, other.1, cursor_of_last(keys)) {
        assert forall|i: int| 0 <= i < keys.len() implies key_gt(#[trigger] keys[i], other) by {
            if i < n {
                assert(key_gt(keys[i], keys[n]));
            }
        }
    }
}

/// Listing keys, each its own sort key.
pub open spec fn key_id() -> spec_fn((i128, u128)) -> (i128, u128) {
    |k: (i128, u128)| k
}

/// The keys of `pool` after the cursor taken from the last of `page`.
pub open spec fn keys_after_page(pool: Set<(i128, u128)>, page: Seq<(i128, u128)>) -> Set<(i128, u128)> {
    pool.filter(|k: (i128, u128)| after_cursor(k.0, k.1, cursor_of_last(page)))
}

/// Paging on: a page, followed by the page of what lies after its cursor,
/// is the longer page of the same keys.
pub proof fn law_next_page_continues(
    pool: Set<(i128, u128)>,
    n1: int,
    r1: Seq<(i128, u128)>,
    n2: int,
    r2: Seq<(i128, u128)>,
)
    requires
        r1.len() > 0,
        is_desc_page(pool, key_id(), n1, r1),
        is_desc_page(keys_after_page(pool, r1), key_id(), n2, r2),
    ensures
        is_desc_page(pool, key_id(), n1 + n2, r1 + r2),
{
    let last = r1.last();
    let r = r1 + r2;
    let after = keys_after_page(pool, r1);
    assert forall|k: int| 0 <= k < r.len() implies pool.contains(#[trigger] r[k]) by {
        if k >= r1.len() {
            assert(after.contains(r2[k - r1.len()]));
        }
    }
    assert forall|k: int, l: int| 0 <= k < l < r.len() implies key_id()(#[trigger] r[k]).before(key_id()(#[trigger] r[l])) by {
        if l >= r1.len() && k < r1.len() {
            let y = r2[l - r1.len()];
            assert(after.contains(y));
            assert(key_gt(last, y));
            if k < r1.len() - 1 {
                assert(key_id()(r1[k]).before(key_id()(r1[r1.len() - 1])));
            }
        } else if k >= r1.len() {
            assert(key_id()(r2[k - r1.len()]).before(key_id()(r2[l - r1.len()])));
        }
    }
    assert forall|x: (i128, u128)| pool.contains(x) && !r.contains(x) implies {
        &&& r.len() == n1 + n2
        &&& forall|k: int| 0 <= k < r.len() ==> key_id()(#[trigger] r[k]).before(key_id()(x))
    } by {
        assert(!r1.contains(x)) by {
            if r1.contains(x) {
                let k = choose|k: int| 0 <= k < r1.len() && r1[k] == x;
                assert(r[k] == x);
            }
        }
        assert(key_id()(r1[r1.len() - 1]).before(key_id()(x)));
        assert(after.contains(x));
        assert(!r2.contains(x)) by {
            if r2.contains(x) {
                let k = choose|k: int| 0 <= k < r2.len() && r2[k] == x;
                assert(r[k + r1.len()] == x);
            }
        }
        assert forall|k: int| 0 <= k < r.len() implies key_id()(#[trigger] r[k]).before(key_id()(x)) by {
            if k < r1.len() {
                assert(key_id()(r1[k]).before(key_id()(x)));
            } else {
                assert(key_id()(r2[k - r1.len()]).before(key_id()(x)));
            }
        }
    }
}

/// What a top page is, spelled out on the (sort value, id) pairs: its items
/// are drawn from `items`, no item is listed ahead of an earlier one, and an
/// item left out comes only when the page is full and is listed no earlier
/// than anything on it.
pub proof fn lemma_top_page_order<T>(items: Seq<T>, key: spec_fn(T) -> (i128, u128), n: int, r: Seq<T>)
    requires
        items.len() <= usize::MAX,
        is_top_page(items, key, n, r),
    ensures
        r.len() <= n,
        forall|k: int| 0 <= k < r.len() ==> items.contains(#[trigger] r[k]),
        forall|k: int, l: int| 0 <= k < l < r.len() ==> !key_gt(key(#[trigger] r[l]), key(#[trigger] r[k])),
        forall|x: T| items.contains(x) && !r.contains(x) ==> {
            &&& r.len() == n
            &&& forall|k: int| 0 <= k < r.len() ==> !key_gt(key(x), key(#[trigger] r[k]))
        },
{
    let keys = items.map_values(key);
    let out = choose|out: Seq<usize>| is_top_positions(keys, n, out) && r == out.map_values(|p: usize| items[p as int]);
    assert forall|k: int| 0 <= k < r.len() implies items.contains(#[trigger] r[k]) by {
        assert(r[k] == items[out[k] as int]);
    }
    assert forall|k: int, l: int| 0 <= k < l < r.len() implies !key_gt(key(#[trigger] r[l]), key(#[trigger] r[k])) by {
        let a = out[k] as int;
        let b = out[l] as int;
        assert(ranks_before(keys, a, b));
        assert(r[k] == items[a] && r[l] == items[b]);
        assert(keys[a] == key(items[a]) && keys[b] == key(items[b]));
    }
    assert forall|x: T| items.contains(x) && !r.contains(x) implies {
        &&& r.len() == n
        &&& forall|k: int| 0 <= k < r.len() ==> !key_gt(key(x), key(#[trigger] r[k]))
    } by {
        let i = choose|i: int| 0 <= i < items.len() && items[i] == x;
        assert(!out.contains(i as usize)) by {
            if out.contains(i as usize) {
                let k = choose|k: int| 0 <= k < out.len() && out[k] == i as usize;
                assert(r[k] == items[out[k] as int]);
                assert(r[k] == x);
            }
        }
        if out.len() == keys.len() {
            assert(out.contains(i as usize));
        }
        assert forall|k: int| 0 <= k < r.len() implies !key_gt(key(x), key(#[trigger] r[k])) by {
            let a = out[k] as int;
            assert(ranks_before(keys, a, i));
            assert(r[k] == items[a]);
            assert(keys[a] == key(items[a]) && keys[i] == key(items[i]));
        }
    }
}

/// No two of `items` share a listing key.
pub open spec fn keys_unique<T>(items: Seq<T>, key: spec_fn(T) -> (i128, u128)) -> bool {
    forall|i: int, j: int| 0 <= i < items.len() && 0 <= j < items.len() && i != j ==> key(#[trigger] items[i]) != key(#[trigger] items[j])
}

/// With unique keys, the first `n` items in listing order have as keys the
/// first `n` keys.
pub proof fn lemma_top_page_keys<T>(items: Seq<T>, key: spec_fn(T) -> (i128, u128), n: int, r: Seq<T>)
    requires
        items.len() <= usize::MAX,
        keys_unique(items, key),
        is_top_page(items, key, n, r),
    ensures
        is_desc_page(items.map_values(key).to_set(), key_id(), n, r.map_values(key)),
{
    let keys = items.map_values(key);
    let out = choose|out: Seq<usize>| is_top_positions(keys, n, out) && r == out.map_values(|p: usize| items[p as int]);
    let rk = r.map_values(key);
    assert forall|k: int| 0 <= k < rk.len() implies keys.to_set().contains(#[trigger] rk[k]) by {
        assert(r[k] == items[out[k] as int]);
        assert(rk[k] == keys[out[k] as int]);
        assert(keys.contains(keys[out[k] as int]));
    }
    assert forall|k: int, l: int| 0 <= k < l < rk.len() implies key_id()(#[trigger] rk[k]).before(key_id()(#[trigger] rk[l])) by {
        let a = out[k] as int;
        let b = out[l] as int;
        assert(ranks_before(keys, a, b));
        lemma_ranks_before_asym(keys, a, b);
        assert(keys[a] != keys[b]);
        assert(r[k] == items[a] && r[l] == items[b]);
        assert(rk[k] == keys[a] && rk[l] == keys[b]);
    }
    assert forall|x: (i128, u128)| keys.to_set().contains(x) && !rk.contains(x) implies {
        &&& rk.len() == n
        &&& forall|k: int| 0 <= k < rk.len() ==> key_id()(#[trigger] rk[k]).before(key_id()(x))
    } by {
        let i = choose|i: int| 0 <= i < keys.len() && keys[i] == x;
        assert(!out.contains(i as usize)) by {
            if out.contains(i as usize) {
                let k = choose|k: int| 0 <= k < out.len() && out[k] == i as usize;
                assert(r[k] == items[out[k] as int]);
                assert(out[k] as int == i);
                assert(r[k] == items[i]);
                assert(keys[i] == key(items[i]));
                assert(rk[k] == x);
            }
        }
        if out.len() == keys.len() {
            assert(out.contains(i as usize));
        }
        assert forall|k: int| 0 <= k < rk.len() implies key_id()(#[trigger] rk[k]).before(key_id()(x)) by {
            let a = out[k] as int;
            assert(ranks_before(keys, a, i));
            lemma_ranks_before_asym(keys, a, i);
            assert(keys[a] != keys[i]);
            assert(r[k] == items[a]);
            assert(rk[k] == keys[a]);
        }
    }
}

/// Filtering keeps keys unique.
pub proof fn lemma_filter_keys_unique<T>(items: Seq<T>, key: spec_fn(T) -> (i128, u128), pred: spec_fn(T) -> bool)
    requires
        keys_unique(items, key),
    ensures
        keys_unique(items.filter(pred), key),
    decreases items.len(),
{
    reveal(Seq::filter);
    if items.len() > 0 {
        let rest = items.drop_last();
        assert(keys_unique(rest, key)) by {
            assert forall|i: int, j: int| 0 <= i < rest.len() && 0 <= j < rest.len() && i != j implies key(#[trigger] rest[i]) != key(#[trigger] rest[j]) by {
                assert(rest[i] == items[i] && rest[j] == items[j]);
            }
        }
        lemma_filter_keys_unique(rest, key, pred);
        let sub = rest.filter(pred);
        if pred(items.last()) {
            let f = sub.push(items.last());
            assert forall|i: int, j: int| 0 <= i < f.len() && 0 <= j < f.len() && i != j implies key(#[trigger] f[i]) != key(#[trigger] f[j]) by {
                if i == sub.len() || j == sub.len() {
                    let o = if i == sub.len() { j } else { i };
                    assert(sub.contains(f[o]));
                    rest.lemma_filter_contains_rev(pred, f[o]);
                    let m = choose|m: int| 0 <= m < rest.len() && rest[m] == f[o];
                    assert(items[m] == f[o]);
                    assert(key(items[m]) != key(items[items.len() - 1]));
                } else {
                    assert(f[i] == sub[i] && f[j] == sub[j]);
                }
            }
        }
    }
}

/// The listing keys of the items a predicate keeps.
pub open spec fn kept_keys<T>(items: Seq<T>, key: spec_fn(T) -> (i128, u128), pred: spec_fn(T) -> bool) -> Set<(i128, u128)> {
    items.filter(pred).map_values(key).to_set()
}

proof fn lemma_kept_keys_contains<T>(items: Seq<T>, key: spec_fn(T) -> (i128, u128), pred: spec_fn(T) -> bool, k: (i128, u128))
    ensures
        kept_keys(items, key, pred).contains(k) <==> exists|i: int| 0 <= i < items.len() && pred(items[i]) && key(items[i]) == k,
{
    let f = items.filter(pred);
    if kept_keys(items, key, pred).contains(k) {
        let j = choose|j: int| 0 <= j < f.len() && f.map_values(key)[j] == k;
        items.lemma_filter_pred(pred, j);
        assert(f.contains(f[j]));
        items.lemma_filter_contains_rev(pred, f[j]);
        let i = choose|i: int| 0 <= i < items.len() && items[i] == f[j];
        assert(pred(items[i]) && key(items[i]) == k);
    }
    if exists|i: int| 0 <= i < items.len() && pred(items[i]) && key(items[i]) == k {
        let i = choose|i: int| 0 <= i < items.len() && pred(items[i]) && key(items[i]) == k;
        items.lemma_filter_contains(pred, i);
        let j = choose|j: int| 0 <= j < f.len() && f[j] == items[i];
        assert(f.map_values(key)[j] == k);
        assert(f.map_values(key).contains(k));
    }
}

/// Two pages of one listing: the first, then the one after its cursor,
/// together are the first `n1 + n2` keys of the listing.
pub proof fn lemma_cursor_pages<T>(
    items: Seq<T>,
    key: spec_fn(T) -> (i128, u128),
    base: spec_fn(T) -> bool,
    n1: int,
    r1: Seq<T>,
    next: spec_fn(T) -> bool,
    n2: int,
    r2: Seq<T>,
)
    requires
        items.len() <= usize::MAX,
        keys_unique(items, key),
        r1.len() > 0,
        is_top_page(items.filter(base), key, n1, r1),
        forall|x: T| #[trigger] next(x) == (base(x) && after_cursor(key(x).0, key(x).1, cursor_of_last(r1.map_values(key)))),
        is_top_page(items.filter(next), key, n2, r2),
    ensures
        is_desc_page(kept_keys(items, key, base), key_id(), n1 + n2, (r1 + r2).map_values(key)),
{
    let p1 = items.filter(base);
    let p2 = items.filter(next);
    items.lemma_filter_len(base);
    items.lemma_filter_len(next);
    lemma_filter_keys_unique(items, key, base);
    lemma_filter_keys_unique(items, key, next);
    lemma_top_page_keys(p1, key, n1, r1);
    lemma_top_page_keys(p2, key, n2, r2);
    let k1 = kept_keys(items, key, base);
    let rk1 = r1.map_values(key);
    assert(kept_keys(items, key, next) =~= keys_after_page(k1, rk1)) by {
        assert forall|k: (i128, u128)| kept_keys(items, key, next).contains(k) <==> keys_after_page(k1, rk1).contains(k) by {
            lemma_kept_keys_contains(items, key, next, k);
            lemma_kept_keys_contains(items, key, base, k);
        }
    }
    law_next_page_continues(k1, n1, rk1, n2, r2.map_values(key));
    assert((r1 + r2).map_values(key) =~= rk1 + r2.map_values(key));
}

} // verus!
