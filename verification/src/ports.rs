//! Port forwardings, as the monitor of a virtual machine reports them: a
//! table of text with a line for each connection.

use crate::text::{
    number_in, number_of, piece_spans, pieces, span_is, span_texts, spans_within, Span,
};
use vstd::prelude::*;
use vstd::string::*;

verus! {

/// A port of the host that is forwarded to a port of the guest.
#[derive(Debug, PartialEq, Copy, Clone)]
pub struct ForwardedPort {
    pub host: u16,
    pub guest: u16,
}

/// Whether a character is white space of ASCII.
pub open spec fn is_space(c: char) -> bool {
    c == ' ' || c == '\t' || c == '\n' || c == '\x0C' || c == '\r'
}

/// The lines of a text: the pieces between its line feeds, without the last
/// one if that is empty.
pub open spec fn rows(s: Seq<char>) -> Seq<Seq<char>> {
    let p = pieces(s, '\n', Seq::empty());
    if p.last().len() == 0 {
        p.drop_last()
    } else {
        p
    }
}

/// The word `c` alone, unless it is empty.
pub open spec fn kept_word(c: Seq<char>) -> Seq<Seq<char>> {
    if c.len() > 0 {
        seq![c]
    } else {
        Seq::empty()
    }
}

/// The words of what is left of a line, `s`, when the characters `cur` have
/// been read since the last white space.
pub open spec fn words(s: Seq<char>, cur: Seq<char>) -> Seq<Seq<char>>
    decreases s.len(),
{
    if s.len() == 0 {
        kept_word(cur)
    } else if is_space(s[0]) {
        kept_word(cur) + words(s.drop_first(), Seq::empty())
    } else {
        words(s.drop_first(), cur.push(s[0]))
    }
}

/// The columns of a line: its runs of characters that are not white space.
pub open spec fn columns(line: Seq<char>) -> Seq<Seq<char>> {
    words(line, Seq::empty())
}

/// The port that a text spells: decimal digits, at least one, after a `+` or
/// nothing, of a value that fits in 16 bits.
pub open spec fn port_of(t: Seq<char>) -> Option<u16> {
    match number_of(t, u16::MAX as nat) {
        Some(v) => Some(v as u16),
        None => None,
    }
}

/// The first column of a line that reports a forwarded port.
pub open spec fn forward_mark() -> Seq<char> {
    "TCP[HOST_FORWARD]"@
}

/// What a line of the table reports: `None` if the line cannot be read,
/// `Some(None)` if it reports something else than a forwarded port, and the
/// forwarded port otherwise, its host port in the fourth column and its
/// guest port in the sixth.
pub open spec fn parse_row(line: Seq<char>) -> Option<Option<ForwardedPort>> {
    let c = columns(line);
    if c.len() == 0 {
        None
    } else if c[0] != forward_mark() {
        Some(None)
    } else if c.len() < 6 {
        None
    } else {
        match (port_of(c[3]), port_of(c[5])) {
            (Some(host), Some(guest)) => Some(Some(ForwardedPort { host, guest })),
            _ => None,
        }
    }
}

/// The forwarded ports that the lines `lines` report, in order; `None` if one
/// of the lines cannot be read.
pub open spec fn parse_rows(lines: Seq<Seq<char>>) -> Option<Seq<ForwardedPort>>
    decreases lines.len(),
{
    if lines.len() == 0 {
        Some(Seq::empty())
    } else {
        match (parse_rows(lines.drop_last()), parse_row(lines.last())) {
            (Some(ports), Some(Some(port))) => Some(ports.push(port)),
            (Some(ports), Some(None)) => Some(ports),
            _ => None,
        }
    }
}

/// The forwarded ports that a table reports: those of its lines after the
/// two lines of headings; `None` if the headings are missing or a line
/// cannot be read.
pub open spec fn parse_table(input: Seq<char>) -> Option<Seq<ForwardedPort>> {
    let r = rows(input);
    if r.len() < 2 {
        None
    } else {
        parse_rows(r.skip(2))
    }
}

/// Once a line cannot be read, the lines after it do not matter.
pub proof fn lemma_parse_rows_none(lines: Seq<Seq<char>>, n: int)
    requires
        0 <= n <= lines.len(),
        parse_rows(lines.take(n)) is None,
    ensures
        parse_rows(lines) is None,
    decreases lines.len() - n,
{
    if n < lines.len() {
        assert(lines.take(n + 1).drop_last() =~= lines.take(n));
        lemma_parse_rows_none(lines, n + 1);
    } else {
        assert(lines.take(n) =~= lines);
    }
}

/// The lines of `input`, as stretches of it.
pub fn row_spans(input: &str) -> (r: Vec<Span>)
    ensures
        span_texts(input@, r@) == rows(input@),
        spans_within(r@, 0, input@.len() as int),
{
    let n = input.unicode_len();
    let mut spans = piece_spans(input, 0, n, '\n');
    proof {
        assert(input@.subrange(0, n as int) =~= input@);
        assert(span_texts(input@, spans@).len() == spans@.len());
    }
    let last = spans.len() - 1;
    if spans[last].start == spans[last].end {
        let ghost before = span_texts(input@, spans@);
        proof {
            assert(before[last as int] == input@.subrange(
                spans@[last as int].start as int,
                spans@[last as int].end as int,
            ));
        }
        let _ = spans.pop();
        proof {
            assert(span_texts(input@, spans@) =~= before.drop_last());
        }
    } else {
        proof {
            let all = span_texts(input@, spans@);
            assert(all[last as int] == input@.subrange(
                spans@[last as int].start as int,
                spans@[last as int].end as int,
            ));
        }
    }
    spans
}

/// The columns of the stretch of `input` from `start` to `end`, as stretches
/// of `input`.
pub fn column_spans(input: &str, start: usize, end: usize) -> (r: Vec<Span>)
    requires
        start <= end <= input@.len(),
    ensures
        span_texts(input@, r@) == columns(input@.subrange(start as int, end as int)),
        spans_within(r@, start as int, end as int),
{
    let ghost line = input@.subrange(start as int, end as int);
    let mut spans: Vec<Span> = Vec::new();
    let mut from: usize = start;
    let mut i: usize = start;
    proof {
        assert(line.skip(0) =~= line);
        assert(input@.subrange(start as int, start as int) =~= Seq::<char>::empty());
        assert(span_texts(input@, spans@) =~= Seq::<Seq<char>>::empty());
        assert(Seq::<Seq<char>>::empty() + columns(line) =~= columns(line));
    }
    while i < end
        invariant
            start <= from <= i <= end <= input@.len(),
            line == input@.subrange(start as int, end as int),
            spans_within(spans@, start as int, end as int),
            columns(line) == span_texts(input@, spans@) + words(
                line.skip(i - start),
                input@.subrange(from as int, i as int),
            ),
        decreases end - i,
    {
        let c = input.get_char(i);
        let ghost rest = line.skip(i - start);
        let ghost cur = input@.subrange(from as int, i as int);
        proof {
            assert(rest[0] == c);
            assert(rest.drop_first() =~= line.skip(i + 1 - start));
        }
        if c == ' ' || c == '\t' || c == '\n' || c == '\x0C' || c == '\r' {
            if from < i {
                let ghost before = span_texts(input@, spans@);
                spans.push(Span { start: from, end: i });
                proof {
                    assert(span_texts(input@, spans@) =~= before + seq![cur]);
                    assert(before + (seq![cur] + words(rest.drop_first(), Seq::empty())) =~= (before
                        + seq![cur]) + words(rest.drop_first(), Seq::empty()));
                }
            } else {
                proof {
                    assert(Seq::<Seq<char>>::empty() + words(rest.drop_first(), Seq::empty())
                        =~= words(rest.drop_first(), Seq::empty()));
                }
            }
            proof {
                assert(input@.subrange(i + 1, i + 1) =~= Seq::<char>::empty());
            }
            from = i + 1;
        } else {
            proof {
                assert(cur.push(c) =~= input@.subrange(from as int, i + 1));
            }
        }
        i += 1;
    }
    proof {
        assert(line.skip(end - start) =~= Seq::<char>::empty());
    }
    if from < end {
        let ghost before = span_texts(input@, spans@);
        let ghost cur = input@.subrange(from as int, end as int);
        spans.push(Span { start: from, end });
        proof {
            assert(span_texts(input@, spans@) =~= before + seq![cur]);
        }
    } else {
        proof {
            assert(span_texts(input@, spans@) + Seq::<Seq<char>>::empty() =~= span_texts(
                input@,
                spans@,
            ));
        }
    }
    spans
}

/// The port that the stretch of `input` from `start` to `end` spells.
pub fn port_in(input: &str, start: usize, end: usize) -> (r: Option<u16>)
    requires
        start <= end <= input@.len(),
    ensures
        r == port_of(input@.subrange(start as int, end as int)),
{
    match number_in(input, start, end, 0xffff) {
        Some(v) => Some(v as u16),
        None => None,
    }
}

/// What the line of `input` from `start` to `end` reports.
pub fn row_in(input: &str, start: usize, end: usize) -> (r: Option<Option<ForwardedPort>>)
    requires
        start <= end <= input@.len(),
    ensures
        r == parse_row(input@.subrange(start as int, end as int)),
{
    let spans = column_spans(input, start, end);
    let ghost c = columns(input@.subrange(start as int, end as int));
    proof {
        assert(span_texts(input@, spans@).len() == spans@.len());
    }
    if spans.len() == 0 {
        return None;
    }
    proof {
        assert(c[0] == span_texts(input@, spans@)[0]);
    }
    if !span_is(input, spans[0].start, spans[0].end, "TCP[HOST_FORWARD]") {
        return Some(None);
    }
    if spans.len() < 6 {
        return None;
    }
    proof {
        assert(c[3] == span_texts(input@, spans@)[3]);
        assert(c[5] == span_texts(input@, spans@)[5]);
    }
    let host = port_in(input, spans[3].start, spans[3].end);
    let guest = port_in(input, spans[5].start, spans[5].end);
    match (host, guest) {
        (Some(host), Some(guest)) => Some(Some(ForwardedPort { host, guest })),
        _ => None,
    }
}

impl ForwardedPort {
    /// The forwarded ports that the table `input` reports, or `None` if the
    /// table cannot be read.
    pub fn try_parse_many(input: &str) -> (r: Option<Vec<Self>>)
        ensures
            match r {
                Some(ports) => parse_table(input@) == Some(ports@),
                None => parse_table(input@) is None,
            },
    {
        let lines = row_spans(input);
        let ghost all = rows(input@);
        proof {
            assert(span_texts(input@, lines@).len() == lines@.len());
        }
        if lines.len() < 2 {
            return None;
        }
        let ghost body = all.skip(2);
        let mut output: Vec<Self> = Vec::new();
        let mut i: usize = 2;
        proof {
            assert(body.take(0) =~= Seq::<Seq<char>>::empty());
            assert(output@ =~= Seq::<ForwardedPort>::empty());
        }
        while i < lines.len()
            invariant
                2 <= i <= lines@.len(),
                all == rows(input@),
                body == all.skip(2),
                span_texts(input@, lines@) == all,
                spans_within(lines@, 0, input@.len() as int),
                parse_rows(body.take(i - 2)) == Some(output@),
            decreases lines@.len() - i,
        {
            proof {
                assert(body.take(i - 1).drop_last() =~= body.take(i - 2));
                assert(body.take(i - 1).last() == all[i as int]);
                assert(all[i as int] == span_texts(input@, lines@)[i as int]);
            }
            match row_in(input, lines[i].start, lines[i].end) {
                None => {
                    proof {
                        lemma_parse_rows_none(body, i - 1);
                    }
                    return None;
                },
                Some(None) => {},
                Some(Some(port)) => {
                    output.push(port);
                },
            }
            i += 1;
        }
        proof {
            assert(body.take(i - 2) =~= body);
        }
        Some(output)
    }

    /// The forwarded ports that the table `input` reports.
    pub fn parse_many(input: &str) -> (r: Vec<Self>)
        requires
            parse_table(input@) is Some,
        ensures
            parse_table(input@) == Some(r@),
    {
        match Self::try_parse_many(input) {
            Some(ports) => ports,
            None => Vec::new(),
        }
    }
}

} // verus!
