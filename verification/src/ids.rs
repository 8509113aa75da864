//! Canonical text of a record id (hyphenated lowercase UUID).

use vstd::prelude::*;
use crate::text::push_char;

verus! {

/// Lowercase hex digit of `d` (0..16).
pub open spec fn hex_digit(d: nat) -> char {
    if d < 10 {
        ((d + 48) as u32) as char
    } else {
        ((d + 87) as u32) as char
    }
}

/// The `k`-th hex digit of `id`, most significant first (0 <= k < 32).
pub open spec fn nibble(id: u128, k: int) -> nat {
    ((id >> (((31 - k) * 4) as u128)) & 15u128) as nat
}

/// The 32 hex digits of `id`.
pub open spec fn hex32(id: u128) -> Seq<char> {
    Seq::new(32, |k: int| hex_digit(nibble(id, k)))
}

/// `8-4-4-4-12` grouping of the hex digits.
pub open spec fn uuid_text(id: u128) -> Seq<char> {
    let h = hex32(id);
    h.subrange(0, 8) + seq!['-'] + h.subrange(8, 12) + seq!['-'] + h.subrange(12, 16) + seq!['-']
        + h.subrange(16, 20) + seq!['-'] + h.subrange(20, 32)
}

fn hex_digit_exec(d: u128) -> (c: char)
    requires
        d < 16,
    ensures
        c == hex_digit(d as nat),
{
    let b: u8 = d as u8;
    if b < 10 {
        (b + 48) as char
    } else {
        (b + 87) as char
    }
}

/// Appends the canonical text of `id` to `out`.
pub fn push_uuid_text(out: &mut String, id: u128)
    ensures
        final(out)@ == old(out)@ + uuid_text(id),
{
    let ghost start = out@;
    let ghost h = hex32(id);
    let mut k: usize = 0;
    let ghost mut written: Seq<char> = Seq::empty();
    while k < 32
        invariant
            k <= 32,
            h == hex32(id),
            out@ == start + written,
            written == uuid_prefix(h, k as int),
        decreases 32 - k,
    {
        if k == 8 || k == 12 || k == 16 || k == 20 {
            push_char(out, '-');
            proof {
                written = written.push('-');
            }
        }
        let shift: u128 = ((31 - k) * 4) as u128;
        let d: u128 = (id >> shift) & 15u128;
        assert(d < 16) by (bit_vector)
            requires
                d == (id >> shift) & 15u128,
        ;
        let c = hex_digit_exec(d);
        push_char(out, c);
        proof {
            written = written.push(c);
            assert(c == h[k as int]);
        }
        k = k + 1;
    }
    proof {
        lemma_uuid_prefix_full(h);
    }
}

/// Text written for the first `k` hex digits: the digits, with a hyphen
/// before digits 8, 12, 16 and 20.
pub open spec fn uuid_prefix(h: Seq<char>, k: int) -> Seq<char>
    decreases k,
{
    if k <= 0 {
        Seq::empty()
    } else {
        let before = uuid_prefix(h, k - 1);
        let sep = if k - 1 == 8 || k - 1 == 12 || k - 1 == 16 || k - 1 == 20 {
            seq!['-']
        } else {
            Seq::empty()
        };
        before + sep + seq![h[k - 1]]
    }
}

/// Without a hyphen among digits `a..b`, the prefix grows by the digits.
proof fn lemma_uuid_prefix_run(h: Seq<char>, a: int, b: int)
    requires
        0 <= a <= b <= h.len(),
        !(a <= 8 < b),
        !(a <= 12 < b),
        !(a <= 16 < b),
        !(a <= 20 < b),
    ensures
        uuid_prefix(h, b) == uuid_prefix(h, a) + h.subrange(a, b),
    decreases b - a,
{
    if b > a {
        lemma_uuid_prefix_run(h, a, b - 1);
        assert(uuid_prefix(h, a) + h.subrange(a, b - 1) + seq![h[b - 1]] =~= uuid_prefix(h, a)
            + h.subrange(a, b));
    } else {
        assert(h.subrange(a, b) =~= Seq::<char>::empty());
        assert(uuid_prefix(h, a) + Seq::<char>::empty() =~= uuid_prefix(h, a));
    }
}

proof fn lemma_uuid_prefix_full(h: Seq<char>)
    requires
        h.len() == 32,
    ensures
        uuid_prefix(h, 32) == h.subrange(0, 8) + seq!['-'] + h.subrange(8, 12) + seq!['-']
            + h.subrange(12, 16) + seq!['-'] + h.subrange(16, 20) + seq!['-'] + h.subrange(20, 32),
{
    lemma_uuid_prefix_run(h, 0, 8);
    assert(uuid_prefix(h, 0) =~= Seq::<char>::empty());
    lemma_uuid_prefix_run(h, 9, 12);
    lemma_uuid_prefix_run(h, 13, 16);
    lemma_uuid_prefix_run(h, 17, 20);
    lemma_uuid_prefix_run(h, 21, 32);
    assert(uuid_prefix(h, 9) == uuid_prefix(h, 8) + seq!['-'] + seq![h[8]]);
    assert(uuid_prefix(h, 13) == uuid_prefix(h, 12) + seq!['-'] + seq![h[12]]);
    assert(uuid_prefix(h, 17) == uuid_prefix(h, 16) + seq!['-'] + seq![h[16]]);
    assert(uuid_prefix(h, 21) == uuid_prefix(h, 20) + seq!['-'] + seq![h[20]]);
    assert(seq![h[8]] + h.subrange(9, 12) =~= h.subrange(8, 12));
    assert(seq![h[12]] + h.subrange(13, 16) =~= h.subrange(12, 16));
    assert(seq![h[16]] + h.subrange(17, 20) =~= h.subrange(16, 20));
    assert(seq![h[20]] + h.subrange(21, 32) =~= h.subrange(20, 32));
    assert(h.subrange(0, 8) =~= Seq::<char>::empty() + h.subrange(0, 8));
    assert(uuid_prefix(h, 32) =~= h.subrange(0, 8) + seq!['-'] + h.subrange(8, 12) + seq!['-']
        + h.subrange(12, 16) + seq!['-'] + h.subrange(16, 20) + seq!['-'] + h.subrange(20, 32));
}

/// Canonical text of `id`.
pub fn uuid_string(id: u128) -> (s: String)
    ensures
        s@ == uuid_text(id),
{
    let mut s = String::new();
    push_uuid_text(&mut s, id);
    s
}

} // verus!
