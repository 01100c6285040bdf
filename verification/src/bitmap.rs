//! Little bitmaps: a set of small numbers as a sequence of 32-bit words, bit
//! `p` of the set being bit `p % 32` (0 = least significant) of word `p / 32`.

use vstd::prelude::*;

verus! {

/// Whether bit `b` of the word `w` is set.
pub open spec fn bit_of(w: u32, b: u32) -> bool {
    (w >> b) & 1 == 1
}

/// Whether position `p` is set in the bitmap `ws`.
pub open spec fn has_bit(ws: Seq<u32>, p: nat) -> bool {
    p / 32 < ws.len() && bit_of(ws[(p / 32) as int], (p % 32) as u32)
}

/// `n` words of zero.
pub open spec fn zero_words(n: nat) -> Seq<u32> {
    Seq::new(n, |j: int| 0u32)
}

/// The bitmap `ws` with position `p` set, grown by zero words where `ws` is
/// too short to hold it.
pub open spec fn with_bit(ws: Seq<u32>, p: nat) -> Seq<u32> {
    let i = (p / 32) as int;
    let grown = if i < ws.len() {
        ws
    } else {
        ws + zero_words((i + 1 - ws.len()) as nat)
    };
    grown.update(i, grown[i] | (1u32 << ((p % 32) as u32)))
}

/// The bitmap in which the positions `ps` are set, with as many words as the
/// positions need.
pub open spec fn bitmap_of(ps: Seq<nat>) -> Seq<u32>
    decreases ps.len(),
{
    if ps.len() == 0 {
        Seq::empty()
    } else {
        with_bit(bitmap_of(ps.drop_last()), ps.last())
    }
}

/// Whether each position is greater than the one before it.
pub open spec fn ascending(ps: Seq<nat>) -> bool {
    forall|i: int, j: int| 0 <= i < j < ps.len() ==> ps[i] < ps[j]
}

proof fn lemma_or_bit(w: u32, b: u32, j: u32)
    by (bit_vector)
    requires
        b < 32,
        j < 32,
    ensures
        bit_of(w | (1u32 << b), j) == (bit_of(w, j) || j == b),
        w | (1u32 << b) != 0,
{
}

proof fn lemma_zero_has_no_bit(j: u32)
    by (bit_vector)
    requires
        j < 32,
    ensures
        !bit_of(0u32, j),
{
}

proof fn lemma_and_bit(w: u32, b: u32)
    by (bit_vector)
    requires
        b < 32,
    ensures
        (w & (1u32 << b) != 0) == bit_of(w, b),
{
}

/// Setting a position sets that position and no other.
pub proof fn lemma_with_bit(ws: Seq<u32>, p: nat, q: nat)
    ensures
        has_bit(with_bit(ws, p), q) == (has_bit(ws, q) || q == p),
        with_bit(ws, p).len() == if p / 32 < ws.len() {
            ws.len()
        } else {
            p / 32 + 1
        },
        with_bit(ws, p)[(p / 32) as int] != 0,
{
    let i = (p / 32) as int;
    let b = (p % 32) as u32;
    let grown = if i < ws.len() {
        ws
    } else {
        ws + zero_words((i + 1 - ws.len()) as nat)
    };
    let j = (q / 32) as int;
    let c = (q % 32) as u32;
    lemma_or_bit(grown[i], b, c);
    if j < grown.len() && j >= ws.len() {
        lemma_zero_has_no_bit(c);
    }
}

/// The positions set in `bitmap_of(ps)` are exactly those of `ps`.
pub proof fn lemma_bitmap_of(ps: Seq<nat>, q: nat)
    ensures
        has_bit(bitmap_of(ps), q) <==> ps.contains(q),
    decreases ps.len(),
{
    if ps.len() == 0 {
    } else {
        let init = ps.drop_last();
        lemma_bitmap_of(init, q);
        lemma_with_bit(bitmap_of(init), ps.last(), q);
        if ps.contains(q) {
            let i = choose|i: int| 0 <= i < ps.len() && ps[i] == q;
            if i < ps.len() - 1 {
                assert(init[i] == q);
            }
        }
        if init.contains(q) {
            let i = choose|i: int| 0 <= i < init.len() && init[i] == q;
            assert(ps[i] == q);
        }
        if q == ps.last() {
            assert(ps[ps.len() - 1] == q);
        }
    }
}

/// `bitmap_of` keeps no word beyond the one that holds the greatest position.
pub proof fn lemma_bitmap_len(ps: Seq<nat>)
    requires
        ascending(ps),
    ensures
        bitmap_of(ps).len() == if ps.len() == 0 {
            0
        } else {
            ps.last() / 32 + 1
        },
        ps.len() > 0 ==> bitmap_of(ps).last() != 0,
    decreases ps.len(),
{
    if ps.len() > 0 {
        let init = ps.drop_last();
        assert(ascending(init));
        lemma_bitmap_len(init);
        lemma_with_bit(bitmap_of(init), ps.last(), 0);
        if init.len() > 0 {
            assert(init.last() == ps[ps.len() - 2]);
            assert(init.last() < ps.last());
        }
    }
}

/// Sets position `p` in the bitmap `ws`.
pub fn set_bit(ws: &mut Vec<u32>, p: u32)
    ensures
        final(ws)@ == with_bit(old(ws)@, p as nat),
{
    let i: usize = (p / 32) as usize;
    let ghost start = ws@;
    assert(ws@ =~= start + zero_words(0));
    while ws.len() <= i
        invariant
            start == old(ws)@,
            ws@ == start + zero_words((ws@.len() - start.len()) as nat),
            ws@.len() >= start.len(),
            start.len() > i ==> ws@.len() == start.len(),
            start.len() <= i ==> ws@.len() <= i + 1,
        decreases i + 1 - ws.len(),
    {
        ws.push(0u32);
        assert(ws@ =~= start + zero_words((ws@.len() - start.len()) as nat));
    }
    let w: u32 = ws[i];
    let b: u32 = p % 32;
    ws[i] = w | (1u32 << b);
    proof {
        if i < start.len() {
            assert(start + zero_words(0) =~= start);
        }
        assert(ws@ =~= with_bit(start, p as nat));
    }
}

/// Whether position `32 * i + b` is set in the bitmap `ws`.
pub fn test_bit(ws: &Vec<u32>, i: usize, b: u32) -> (r: bool)
    requires
        i < ws@.len(),
        b < 32,
    ensures
        r == has_bit(ws@, (32 * i + b) as nat),
{
    proof {
        lemma_and_bit(ws@[i as int], b);
    }
    ws[i] & (1u32 << b) != 0
}

} // verus!
