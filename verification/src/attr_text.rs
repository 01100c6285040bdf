//! Attributes as text: `key=value` pairs between commas, as they are written
//! on a command line.

use crate::attr::{FileAttribute, FileAttributeId, FileAttributes};
use crate::enum_map::{last_of, EnumMap};
use crate::text::{
    find_char, first_of, number_in, number_of, piece_spans, pieces, span_is, span_texts,
    spans_within,
};
use vstd::prelude::*;
use vstd::string::*;

verus! {

/// Why a text does not say which attributes to set.
#[derive(Clone, Debug, PartialEq, Eq)]
pub enum AttrTextError {
    /// A pair without `=`.
    MissingEquals,
    /// A size that is no number of 64 bits.
    BadSize,
    /// A key that names no attribute that can be set from text.
    Unsupported(String),
}

/// What an [`AttrTextError`] stands for.
pub enum AttrFault {
    MissingEquals,
    BadSize,
    Unsupported(Seq<char>),
}

impl AttrTextError {
    pub open spec fn model(&self) -> AttrFault {
        match self {
            AttrTextError::MissingEquals => AttrFault::MissingEquals,
            AttrTextError::BadSize => AttrFault::BadSize,
            AttrTextError::Unsupported(key) => AttrFault::Unsupported(key@),
        }
    }

    /// The error in words.
    pub fn message(&self) -> String {
        match self {
            AttrTextError::MissingEquals => "Missing `=`".to_owned(),
            AttrTextError::BadSize => "the size is no number of 64 bits".to_owned(),
            AttrTextError::Unsupported(key) => {
                "unsupported attribute `".to_owned().concat(key.as_str()).concat("`")
            },
        }
    }
}

/// An attribute that a pair of text sets.
pub enum AttrEntry {
    Size(u64),
    Owner(Seq<char>),
    OwnerGroup(Seq<char>),
}

/// The attribute that a pair sets: the key is what stands before the first
/// `=`, the value what stands after it. The keys are `size`, with a number
/// in decimal, `owner` and `owner_group`.
pub open spec fn parse_entry(pair: Seq<char>) -> Result<AttrEntry, AttrFault> {
    match first_of(pair, '=') {
        None => Err(AttrFault::MissingEquals),
        Some(i) => {
            let key = pair.take(i);
            let value = pair.skip(i + 1);
            if key == "size"@ {
                match number_of(value, u64::MAX as nat) {
                    Some(v) => Ok(AttrEntry::Size(v as u64)),
                    None => Err(AttrFault::BadSize),
                }
            } else if key == "owner"@ {
                Ok(AttrEntry::Owner(value))
            } else if key == "owner_group"@ {
                Ok(AttrEntry::OwnerGroup(value))
            } else {
                Err(AttrFault::Unsupported(key))
            }
        },
    }
}

/// The attributes that pairs set, in order; or the fault of the first pair
/// that has one.
pub open spec fn parse_entries(pairs: Seq<Seq<char>>) -> Result<Seq<AttrEntry>, AttrFault>
    decreases pairs.len(),
{
    if pairs.len() == 0 {
        Ok(Seq::empty())
    } else {
        match parse_entries(pairs.drop_last()) {
            Err(f) => Err(f),
            Ok(entries) => match parse_entry(pairs.last()) {
                Ok(e) => Ok(entries.push(e)),
                Err(f) => Err(f),
            },
        }
    }
}

/// The attributes that a text sets: those of its pairs, which commas divide.
pub open spec fn parse_attrs(text: Seq<char>) -> Result<Seq<AttrEntry>, AttrFault> {
    parse_entries(pieces(text, ',', Seq::empty()))
}

/// The attribute that an attribute value sets, if it is one that text can set.
pub open spec fn entry_of(v: FileAttribute) -> Option<AttrEntry> {
    match v {
        FileAttribute::Size(n) => Some(AttrEntry::Size(n)),
        FileAttribute::Owner(s) => Some(AttrEntry::Owner(s@)),
        FileAttribute::OwnerGroup(s) => Some(AttrEntry::OwnerGroup(s@)),
        _ => None,
    }
}

/// Whether the attribute values `values` set the attributes `entries`, one
/// for one.
pub open spec fn sets(values: Seq<FileAttribute>, entries: Seq<AttrEntry>) -> bool {
    values.len() == entries.len() && forall|i: int|
        0 <= i < values.len() ==> entry_of(#[trigger] values[i]) == Some(entries[i])
}

/// Whether `map` holds, for each identifier, the last of the values `values`
/// that belongs to it.
pub open spec fn holds_last(map: FileAttributes, values: Seq<FileAttribute>) -> bool {
    forall|k: FileAttributeId| #[trigger] map.value_of(k) == last_of(values, k)
}

/// Once a pair has a fault, the pairs after it do not matter.
pub proof fn lemma_parse_entries_fault(pairs: Seq<Seq<char>>, n: int)
    requires
        0 <= n <= pairs.len(),
        parse_entries(pairs.take(n)) is Err,
    ensures
        parse_entries(pairs) == parse_entries(pairs.take(n)),
    decreases pairs.len() - n,
{
    if n < pairs.len() {
        assert(pairs.take(n + 1).drop_last() =~= pairs.take(n));
        lemma_parse_entries_fault(pairs, n + 1);
    } else {
        assert(pairs.take(n) =~= pairs);
    }
}

/// The attribute value that the pair of `input` from `start` to `end` sets.
pub fn entry_in(input: &str, start: usize, end: usize) -> (r: Result<FileAttribute, AttrTextError>)
    requires
        start <= end <= input@.len(),
    ensures
        match r {
            Ok(v) => parse_entry(input@.subrange(start as int, end as int)) is Ok && entry_of(v)
                == Some(parse_entry(input@.subrange(start as int, end as int))->Ok_0),
            Err(e) => parse_entry(input@.subrange(start as int, end as int)) == Err::<
                AttrEntry,
                AttrFault,
            >(e.model()),
        },
{
    let ghost pair = input@.subrange(start as int, end as int);
    let i = match find_char(input, start, end, '=') {
        Some(i) => i,
        None => {
            return Err(AttrTextError::MissingEquals);
        },
    };
    proof {
        assert(pair.take(i - start) =~= input@.subrange(start as int, i as int));
        assert(pair.skip(i - start + 1) =~= input@.subrange(i + 1, end as int));
    }
    if span_is(input, start, i, "size") {
        match number_in(input, i + 1, end, u64::MAX) {
            Some(v) => Ok(FileAttribute::Size(v)),
            None => Err(AttrTextError::BadSize),
        }
    } else if span_is(input, start, i, "owner") {
        Ok(FileAttribute::Owner(input.substring_char(i + 1, end).to_owned()))
    } else if span_is(input, start, i, "owner_group") {
        Ok(FileAttribute::OwnerGroup(input.substring_char(i + 1, end).to_owned()))
    } else {
        Err(AttrTextError::Unsupported(input.substring_char(start, i).to_owned()))
    }
}

/// The attribute values that the text `s` sets, in the order of its pairs.
pub fn attr_list(s: &str) -> (r: Result<Vec<FileAttribute>, AttrTextError>)
    ensures
        match r {
            Ok(values) => parse_attrs(s@) is Ok && sets(values@, parse_attrs(s@)->Ok_0),
            Err(e) => parse_attrs(s@) == Err::<Seq<AttrEntry>, AttrFault>(e.model()),
        },
{
    let n = s.unicode_len();
    let spans = piece_spans(s, 0, n, ',');
    let ghost pairs = pieces(s@, ',', Seq::empty());
    proof {
        assert(s@.subrange(0, n as int) =~= s@);
        assert(span_texts(s@, spans@).len() == spans@.len());
    }
    let mut values: Vec<FileAttribute> = Vec::new();
    let mut i: usize = 0;
    proof {
        assert(pairs.take(0) =~= Seq::<Seq<char>>::empty());
    }
    while i < spans.len()
        invariant
            i <= spans@.len(),
            pairs == pieces(s@, ',', Seq::empty()),
            span_texts(s@, spans@) == pairs,
            spans_within(spans@, 0, s@.len() as int),
            values@.len() == i,
            parse_entries(pairs.take(i as int)) is Ok,
            sets(values@, parse_entries(pairs.take(i as int))->Ok_0),
        decreases spans@.len() - i,
    {
        proof {
            assert(pairs.take(i + 1).drop_last() =~= pairs.take(i as int));
            assert(pairs.take(i + 1).last() == pairs[i as int]);
            assert(pairs[i as int] == span_texts(s@, spans@)[i as int]);
        }
        match entry_in(s, spans[i].start, spans[i].end) {
            Ok(v) => {
                let ghost before = values@;
                values.push(v);
                proof {
                    let entries = parse_entries(pairs.take(i + 1))->Ok_0;
                    assert forall|j: int| 0 <= j < values@.len() implies entry_of(
                        #[trigger] values@[j],
                    ) == Some(entries[j]) by {
                        if j < i {
                            assert(values@[j] == before[j]);
                        }
                    }
                }
            },
            Err(e) => {
                proof {
                    lemma_parse_entries_fault(pairs, i + 1);
                }
                return Err(e);
            },
        }
        i += 1;
    }
    proof {
        assert(pairs.take(i as int) =~= pairs);
    }
    Ok(values)
}

/// The attributes that the text `s` sets: for each attribute the value of
/// the last pair that sets it.
pub fn file_attrs(s: &str) -> (r: Result<FileAttributes, AttrTextError>)
    ensures
        match r {
            Ok(map) => parse_attrs(s@) is Ok && exists|values: Seq<FileAttribute>|
                #[trigger] sets(values, parse_attrs(s@)->Ok_0) && holds_last(map, values),
            Err(e) => parse_attrs(s@) == Err::<Seq<AttrEntry>, AttrFault>(e.model()),
        },
{
    let values = attr_list(s)?;
    let ghost listed = values@;
    let map: FileAttributes = EnumMap::from_vec(values);
    assert(sets(listed, parse_attrs(s@)->Ok_0) && holds_last(map, listed));
    Ok(map)
}

} // verus!
