//! Paths: a path names a file by the components between its separators.

use vstd::prelude::*;
use vstd::string::*;

verus! {

/// Whether a run of characters between separators names an entry of a
/// directory: it is not empty, and it is neither `.` nor `..`.
pub open spec fn is_normal(c: Seq<char>) -> bool {
    c.len() > 0 && c != seq!['.'] && c != seq!['.', '.']
}

/// The component `c` alone if it names an entry, and nothing otherwise.
pub open spec fn kept(c: Seq<char>) -> Seq<Seq<char>> {
    if is_normal(c) {
        seq![c]
    } else {
        Seq::empty()
    }
}

/// The components of what is left of a path, `s`, when the characters `cur`
/// have been read since the last separator.
pub open spec fn split(s: Seq<char>, cur: Seq<char>) -> Seq<Seq<char>>
    decreases s.len(),
{
    if s.len() == 0 {
        kept(cur)
    } else if s[0] == '/' {
        kept(cur) + split(s.drop_first(), Seq::empty())
    } else {
        split(s.drop_first(), cur.push(s[0]))
    }
}

/// The components of a path that name an entry of a directory, in order: the
/// runs of characters between the separators `/`, without the empty ones and
/// without `.` and `..`.
pub open spec fn components(path: Seq<char>) -> Seq<Seq<char>> {
    split(path, Seq::empty())
}

/// The texts of a sequence of strings.
pub open spec fn texts(names: Seq<String>) -> Seq<Seq<char>> {
    Seq::new(names.len(), |i: int| names[i]@)
}

/// The components of `path` that name an entry of a directory, in order.
pub fn path_components(path: &str) -> (r: Vec<String>)
    ensures
        texts(r@) == components(path@),
{
    let n = path.unicode_len();
    let mut names: Vec<String> = Vec::new();
    let mut start: usize = 0;
    let mut i: usize = 0;
    proof {
        assert(path@.skip(0) =~= path@);
        assert(path@.subrange(0, 0) =~= Seq::<char>::empty());
        assert(texts(names@) =~= Seq::<Seq<char>>::empty());
        assert(Seq::<Seq<char>>::empty() + components(path@) =~= components(path@));
    }
    while i < n
        invariant
            n == path@.len(),
            start <= i <= n,
            components(path@) == texts(names@) + split(
                path@.skip(i as int),
                path@.subrange(start as int, i as int),
            ),
        decreases n - i,
    {
        let c = path.get_char(i);
        let ghost rest = path@.skip(i as int);
        let ghost cur = path@.subrange(start as int, i as int);
        proof {
            assert(rest[0] == c);
            assert(rest.drop_first() =~= path@.skip(i + 1));
        }
        if c == '/' {
            let keep = is_normal_range(path, start, i);
            if keep {
                let ghost before = texts(names@);
                names.push(path.substring_char(start, i).to_owned());
                proof {
                    assert(texts(names@) =~= before + seq![cur]);
                    assert(before + (seq![cur] + split(rest.drop_first(), Seq::empty())) =~= (before
                        + seq![cur]) + split(rest.drop_first(), Seq::empty()));
                }
            } else {
                proof {
                    assert(Seq::<Seq<char>>::empty() + split(rest.drop_first(), Seq::empty())
                        =~= split(rest.drop_first(), Seq::empty()));
                }
            }
            start = i + 1;
            proof {
                assert(path@.subrange(i + 1, i + 1) =~= Seq::<char>::empty());
            }
        } else {
            proof {
                assert(cur.push(c) =~= path@.subrange(start as int, i + 1));
            }
        }
        i += 1;
    }
    proof {
        assert(path@.skip(n as int) =~= Seq::<char>::empty());
    }
    let keep = is_normal_range(path, start, n);
    if keep {
        let ghost before = texts(names@);
        let ghost cur = path@.subrange(start as int, n as int);
        names.push(path.substring_char(start, n).to_owned());
        proof {
            assert(texts(names@) =~= before + seq![cur]);
        }
    } else {
        proof {
            assert(texts(names@) + Seq::<Seq<char>>::empty() =~= texts(names@));
        }
    }
    names
}

/// Whether the characters of `path` from `start` to `end` name an entry of a
/// directory.
fn is_normal_range(path: &str, start: usize, end: usize) -> (r: bool)
    requires
        start <= end <= path@.len(),
    ensures
        r == is_normal(path@.subrange(start as int, end as int)),
{
    let ghost c = path@.subrange(start as int, end as int);
    let len = end - start;
    if len == 0 {
        false
    } else if len == 1 {
        let dot = path.get_char(start) == '.';
        proof {
            assert(c[0] == path@[start as int]);
            if dot {
                assert(c =~= seq!['.']);
            } else {
                assert(seq!['.'][0] == '.');
            }
            assert(seq!['.', '.'].len() == 2);
        }
        !dot
    } else if len == 2 {
        let dots = path.get_char(start) == '.' && path.get_char(start + 1) == '.';
        proof {
            assert(c[0] == path@[start as int]);
            assert(c[1] == path@[start + 1]);
            if dots {
                assert(c =~= seq!['.', '.']);
            } else {
                assert(seq!['.', '.'][0] == '.');
                assert(seq!['.', '.'][1] == '.');
            }
            assert(seq!['.'].len() == 1);
        }
        !dots
    } else {
        proof {
            assert(seq!['.'].len() == 1);
            assert(seq!['.', '.'].len() == 2);
        }
        true
    }
}

} // verus!
