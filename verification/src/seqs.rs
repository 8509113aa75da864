//! Facts about sequences used by the stores' proofs.

use vstd::prelude::*;

verus! {

pub proof fn lemma_push_to_set<A>(s: Seq<A>, x: A)
    ensures
        s.push(x).to_set() == s.to_set().insert(x),
{
    assert forall|y: A| #[trigger] s.push(x).to_set().contains(y) <==> s.to_set().insert(x).contains(y) by {
        if s.push(x).contains(y) && y != x {
            let i = choose|i: int| 0 <= i < s.push(x).len() && s.push(x)[i] == y;
            assert(i < s.len());
            assert(s[i] == y);
        }
        if s.contains(y) {
            let i = choose|i: int| 0 <= i < s.len() && s[i] == y;
            assert(s.push(x)[i] == y);
        }
        if y == x {
            assert(s.push(x)[s.len() as int] == x);
        }
    }
    assert(s.push(x).to_set() =~= s.to_set().insert(x));
}

/// Pushing an absent value keeps a sequence duplicate-free.
pub proof fn lemma_push_no_duplicates<A>(s: Seq<A>, x: A)
    requires
        s.no_duplicates(),
        !s.contains(x),
    ensures
        s.push(x).no_duplicates(),
{
    let t = s.push(x);
    assert forall|a: int, b: int| 0 <= a < t.len() && 0 <= b < t.len() && a != b implies t[a] != t[b] by {
        if a == s.len() {
            assert(t[b] == s[b]);
        } else if b == s.len() {
            assert(t[a] == s[a]);
        } else {
            assert(t[a] == s[a] && t[b] == s[b]);
        }
    }
}

/// Filtering one more element of `s` appends it when `pred` accepts it.
pub proof fn lemma_filter_take_step<A>(s: Seq<A>, pred: spec_fn(A) -> bool, i: int)
    requires
        0 <= i < s.len(),
    ensures
        s.take(i + 1).filter(pred) == if pred(s[i]) {
            s.take(i).filter(pred).push(s[i])
        } else {
            s.take(i).filter(pred)
        },
{
    reveal(Seq::filter);
    assert(s.take(i + 1).drop_last() =~= s.take(i));
    assert(s.take(i + 1).last() == s[i]);
}

/// A filtered sequence holds exactly the members of the sequence that pass.
pub proof fn lemma_filter_members<A>(s: Seq<A>, pred: spec_fn(A) -> bool)
    ensures
        forall|x: A| #[trigger] s.filter(pred).contains(x) <==> s.contains(x) && pred(x),
        s.filter(pred).len() <= s.len(),
{
    broadcast use vstd::seq_lib::group_filter_ensures;
    assert forall|x: A| #[trigger] s.filter(pred).contains(x) <==> s.contains(x) && pred(x) by {
        if s.filter(pred).contains(x) {
            s.lemma_filter_contains_rev(pred, x);
            let i = choose|i: int| 0 <= i < s.filter(pred).len() && s.filter(pred)[i] == x;
            assert(pred(s.filter(pred)[i]));
        }
        if s.contains(x) && pred(x) {
            let j = choose|j: int| 0 <= j < s.len() && s[j] == x;
            assert(s.filter(pred).contains(s[j]));
        }
    }
}

/// A prefix followed by eight pieces, with the prefix dropped, is the pieces
/// grouped to the right.
pub proof fn lemma_skip_regroup<A>(p: Seq<A>, s1: Seq<A>, s2: Seq<A>, s3: Seq<A>, s4: Seq<A>, s5: Seq<A>, s6: Seq<A>, s7: Seq<A>, s8: Seq<A>)
    ensures
        (p + s1 + s2 + s3 + s4 + s5 + s6 + s7 + s8).skip(p.len() as int)
            == s1 + (s2 + (s3 + (s4 + (s5 + (s6 + (s7 + s8)))))),
{
    assert((p + s1 + s2 + s3 + s4 + s5 + s6 + s7 + s8).skip(p.len() as int)
        =~= s1 + (s2 + (s3 + (s4 + (s5 + (s6 + (s7 + s8)))))));
}

/// A two-piece head followed by six pieces, with the head dropped, is the
/// pieces grouped to the right.
pub proof fn lemma_skip_regroup5<A>(h: Seq<A>, s1: Seq<A>, s2: Seq<A>, s3: Seq<A>, s4: Seq<A>, s5: Seq<A>, s6: Seq<A>)
    ensures
        (h + s1 + (s2 + s3 + s4 + s5) + s6).skip(h.len() as int) == s1 + (s2 + (s3 + (s4 + (s5 + s6)))),
        (h + s1 + (s2 + s3 + s4 + s5) + s6).take(h.len() as int) == h,
{
    assert((h + s1 + (s2 + s3 + s4 + s5) + s6).skip(h.len() as int) =~= s1 + (s2 + (s3 + (s4 + (s5 + s6)))));
    assert((h + s1 + (s2 + s3 + s4 + s5) + s6).take(h.len() as int) =~= h);
}

pub proof fn lemma_take_full<A>(s: Seq<A>)
    ensures
        s.take(s.len() as int) == s,
{
    assert(s.take(s.len() as int) =~= s);
}

} // verus!
