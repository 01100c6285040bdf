//! Texts: stretches of a text, the pieces that a separator divides it into,
//! and the numbers that decimal digits spell.

use vstd::prelude::*;
use vstd::string::*;

verus! {

/// A stretch of a text, from the character `start` up to the character `end`.
pub struct Span {
    pub start: usize,
    pub end: usize,
}

/// The texts of the stretches `spans` of the text `s`.
pub open spec fn span_texts(s: Seq<char>, spans: Seq<Span>) -> Seq<Seq<char>> {
    Seq::new(spans.len(), |i: int| s.subrange(spans[i].start as int, spans[i].end as int))
}

/// Whether each of the stretches `spans` lies in a text of `len` characters.
pub open spec fn spans_within(spans: Seq<Span>, lo: int, len: int) -> bool {
    forall|i: int| 0 <= i < spans.len() ==> lo <= (#[trigger] spans[i]).start <= spans[i].end <= len
}

/// The pieces that the separators `sep` of a text divide it into, when the
/// characters `cur` have been read since the last separator.
pub open spec fn pieces(s: Seq<char>, sep: char, cur: Seq<char>) -> Seq<Seq<char>>
    decreases s.len(),
{
    if s.len() == 0 {
        seq![cur]
    } else if s[0] == sep {
        seq![cur] + pieces(s.drop_first(), sep, Seq::empty())
    } else {
        pieces(s.drop_first(), sep, cur.push(s[0]))
    }
}

/// The pieces that the separators `sep` divide the stretch of `input` from
/// `start` to `end` into, as stretches of `input`. There is always one piece
/// more than there are separators.
pub fn piece_spans(input: &str, start: usize, end: usize, sep: char) -> (r: Vec<Span>)
    requires
        start <= end <= input@.len(),
    ensures
        span_texts(input@, r@) == pieces(
            input@.subrange(start as int, end as int),
            sep,
            Seq::empty(),
        ),
        spans_within(r@, start as int, end as int),
        r@.len() > 0,
{
    let ghost text = input@.subrange(start as int, end as int);
    let mut spans: Vec<Span> = Vec::new();
    let mut from: usize = start;
    let mut i: usize = start;
    proof {
        assert(text.skip(0) =~= text);
        assert(input@.subrange(start as int, start as int) =~= Seq::<char>::empty());
        assert(span_texts(input@, spans@) =~= Seq::<Seq<char>>::empty());
        assert(Seq::<Seq<char>>::empty() + pieces(text, sep, Seq::empty()) =~= pieces(
            text,
            sep,
            Seq::empty(),
        ));
    }
    while i < end
        invariant
            start <= from <= i <= end <= input@.len(),
            text == input@.subrange(start as int, end as int),
            spans_within(spans@, start as int, end as int),
            pieces(text, sep, Seq::empty()) == span_texts(input@, spans@) + pieces(
                text.skip(i - start),
                sep,
                input@.subrange(from as int, i as int),
            ),
        decreases end - i,
    {
        let c = input.get_char(i);
        let ghost rest = text.skip(i - start);
        let ghost cur = input@.subrange(from as int, i as int);
        proof {
            assert(rest[0] == c);
            assert(rest.drop_first() =~= text.skip(i + 1 - start));
        }
        if c == sep {
            let ghost before = span_texts(input@, spans@);
            spans.push(Span { start: from, end: i });
            proof {
                assert(span_texts(input@, spans@) =~= before + seq![cur]);
                assert(before + (seq![cur] + pieces(rest.drop_first(), sep, Seq::empty())) =~= (
                before + seq![cur]) + pieces(rest.drop_first(), sep, Seq::empty()));
                assert(input@.subrange(i + 1, i + 1) =~= Seq::<char>::empty());
            }
            from = i + 1;
        } else {
            proof {
                assert(cur.push(c) =~= input@.subrange(from as int, i + 1));
            }
        }
        i += 1;
    }
    let ghost before = span_texts(input@, spans@);
    let ghost cur = input@.subrange(from as int, end as int);
    spans.push(Span { start: from, end });
    proof {
        assert(text.skip(end - start) =~= Seq::<char>::empty());
        assert(span_texts(input@, spans@) =~= before + seq![cur]);
    }
    spans
}

/// Where the character `c` stands first in a text, if it stands in it.
pub open spec fn first_of(s: Seq<char>, c: char) -> Option<int>
    decreases s.len(),
{
    if s.len() == 0 {
        None
    } else if s[0] == c {
        Some(0int)
    } else {
        match first_of(s.drop_first(), c) {
            Some(i) => Some(i + 1),
            None => None,
        }
    }
}

/// Where the character `c` stands first in the stretch of `input` from
/// `start` to `end`, if it stands in it.
pub fn find_char(input: &str, start: usize, end: usize, c: char) -> (r: Option<usize>)
    requires
        start <= end <= input@.len(),
    ensures
        match r {
            Some(i) => start <= i < end && first_of(
                input@.subrange(start as int, end as int),
                c,
            ) == Some(i - start),
            None => first_of(input@.subrange(start as int, end as int), c) is None,
        },
{
    let ghost text = input@.subrange(start as int, end as int);
    let mut i: usize = start;
    proof {
        assert(text.skip(0) =~= text);
    }
    while i < end
        invariant
            start <= i <= end <= input@.len(),
            text == input@.subrange(start as int, end as int),
            first_of(text, c) == match first_of(text.skip(i - start), c) {
                Some(j) => Some(j + (i - start)),
                None => None,
            },
        decreases end - i,
    {
        proof {
            assert(text.skip(i - start)[0] == input@[i as int]);
            assert(text.skip(i - start).drop_first() =~= text.skip(i + 1 - start));
        }
        if input.get_char(i) == c {
            return Some(i);
        }
        i += 1;
    }
    proof {
        assert(text.skip(end - start) =~= Seq::<char>::empty());
    }
    None
}

/// Whether the stretch of `input` from `start` to `end` is the text `mark`.
pub fn span_is(input: &str, start: usize, end: usize, mark: &str) -> (r: bool)
    requires
        start <= end <= input@.len(),
    ensures
        r == (input@.subrange(start as int, end as int) == mark@),
{
    let ghost text = input@.subrange(start as int, end as int);
    let n = mark.unicode_len();
    if end - start != n {
        return false;
    }
    let mut i: usize = 0;
    while i < n
        invariant
            i <= n,
            n == mark@.len(),
            end - start == n,
            end <= input@.len(),
            text == input@.subrange(start as int, end as int),
            forall|j: int| 0 <= j < i ==> text[j] == mark@[j],
        decreases n - i,
    {
        if input.get_char(start + i) != mark.get_char(i) {
            assert(text[i as int] != mark@[i as int]);
            return false;
        }
        i += 1;
    }
    assert(text =~= mark@);
    true
}

/// The digit that a character is, if it is one.
pub open spec fn digit_of(c: char) -> Option<nat> {
    if '0' <= c <= '9' {
        Some((c as nat - '0' as nat) as nat)
    } else {
        None
    }
}

/// The number that a run of decimal digits spells; `None` if a character of
/// it is no digit.
pub open spec fn digits_value(t: Seq<char>) -> Option<nat>
    decreases t.len(),
{
    if t.len() == 0 {
        Some(0)
    } else {
        match (digits_value(t.drop_last()), digit_of(t.last())) {
            (Some(v), Some(d)) => Some(10 * v + d),
            _ => None,
        }
    }
}

/// The number that a text spells: decimal digits, at least one, after a `+`
/// or nothing, of a value of at most `max`.
pub open spec fn number_of(t: Seq<char>, max: nat) -> Option<nat> {
    let digits = if t.len() > 0 && t[0] == '+' {
        t.drop_first()
    } else {
        t
    };
    if digits.len() == 0 {
        None
    } else {
        match digits_value(digits) {
            Some(v) => if v <= max {
                Some(v)
            } else {
                None
            },
            None => None,
        }
    }
}

/// The number that the stretch of `input` from `start` to `end` spells.
pub fn number_in(input: &str, start: usize, end: usize, max: u64) -> (r: Option<u64>)
    requires
        start <= end <= input@.len(),
    ensures
        match r {
            Some(v) => number_of(input@.subrange(start as int, end as int), max as nat) == Some(
                v as nat,
            ),
            None => number_of(input@.subrange(start as int, end as int), max as nat) is None,
        },
{
    let ghost text = input@.subrange(start as int, end as int);
    let mut from = start;
    if start < end && input.get_char(start) == '+' {
        from = start + 1;
    }
    let ghost digits = input@.subrange(from as int, end as int);
    proof {
        if from == start + 1 {
            assert(text[0] == '+');
            assert(text.drop_first() =~= digits);
        } else if start < end {
            assert(text[0] == input@[start as int]);
        }
    }
    assert(digits == if text.len() > 0 && text[0] == '+' {
        text.drop_first()
    } else {
        text
    });
    if from == end {
        return None;
    }
    let mut value: u64 = 0;
    let mut i: usize = from;
    proof {
        assert(digits.take(0) =~= Seq::<char>::empty());
    }
    while i < end
        invariant
            from <= i <= end <= input@.len(),
            digits == input@.subrange(from as int, end as int),
            text == input@.subrange(start as int, end as int),
            digits == if text.len() > 0 && text[0] == '+' {
                text.drop_first()
            } else {
                text
            },
            from < end,
            value <= max,
            digits_value(digits.take(i - from)) == Some(value as nat),
        decreases end - i,
    {
        let c = input.get_char(i);
        proof {
            let seen = digits.take(i + 1 - from);
            assert(seen.drop_last() =~= digits.take(i - from));
            assert(seen.last() == c);
        }
        if !('0' <= c && c <= '9') {
            proof {
                lemma_digits_none(digits, i + 1 - from);
            }
            return None;
        }
        let d: u64 = ((c as u32) - ('0' as u32)) as u64;
        if max < d || value > (max - d) / 10 {
            proof {
                lemma_digits_grow(digits, i + 1 - from);
            }
            return None;
        }
        value = 10 * value + d;
        i += 1;
    }
    proof {
        assert(digits.take(end - from) =~= digits);
    }
    Some(value)
}

/// Once a character is no digit, the characters after it do not matter.
pub proof fn lemma_digits_none(t: Seq<char>, n: int)
    requires
        0 <= n <= t.len(),
        digits_value(t.take(n)) is None,
    ensures
        digits_value(t) is None,
    decreases t.len() - n,
{
    if n < t.len() {
        assert(t.take(n + 1).drop_last() =~= t.take(n));
        lemma_digits_none(t, n + 1);
    } else {
        assert(t.take(n) =~= t);
    }
}

/// More digits do not make a number smaller.
pub proof fn lemma_digits_grow(t: Seq<char>, n: int)
    requires
        0 <= n <= t.len(),
        digits_value(t.take(n)) is Some,
    ensures
        digits_value(t) is Some ==> digits_value(t)->0 >= digits_value(t.take(n))->0,
    decreases t.len() - n,
{
    if n < t.len() {
        assert(t.take(n + 1).drop_last() =~= t.take(n));
        if digits_value(t.take(n + 1)) is Some {
            lemma_digits_grow(t, n + 1);
        } else {
            lemma_digits_none(t, n + 1);
        }
    } else {
        assert(t.take(n) =~= t);
    }
}

} // verus!
