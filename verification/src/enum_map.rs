//! Sets of identifiers and maps from identifiers to attribute values.
//!
//! Both are kept in ascending order of identifier. A set travels as a little
//! bitmap; a map as the bitmap of its keys followed by one opaque body that
//! holds the payload of each value in the same order.

use crate::bitmap::{
    ascending, bitmap_of, has_bit, lemma_bitmap_len, lemma_bitmap_of, lemma_with_bit, set_bit,
    test_bit,
};
use crate::xdr::{
    decode_each, decode_opaque, encode_opaque, lemma_concat_assoc, lemma_opaque_round_trip, models,
    parse_opaque, wf_each, wf_opaque, wire_opaque, EncodeError, Xdr, XdrError,
};
use core::marker::PhantomData;
use vstd::prelude::*;

verus! {

/// An enumeration of identifiers, each with a number of its own.
pub trait EnumId: Copy + Sized {
    /// The number of an identifier.
    spec fn id(self) -> u32;

    /// The identifier with a given number, if there is one.
    spec fn from_id(id: u32) -> Option<Self>;

    proof fn lemma_from_id(id: u32)
        ensures
            Self::from_id(id) is Some ==> Self::from_id(id)->0.id() == id,
    ;

    proof fn lemma_id(k: Self)
        ensures
            Self::from_id(k.id()) == Some(k),
    ;

    fn to_u32(self) -> (r: u32)
        ensures
            r == self.id(),
    ;

    fn try_from_u32(id: u32) -> (r: Option<Self>)
        ensures
            r == Self::from_id(id),
    ;
}

/// A value that knows the identifier it belongs to.
pub trait ToId<Id> {
    spec fn id_of(&self) -> Id;

    fn to_id(&self) -> (id: Id)
        ensures
            id == self.id_of(),
    ;
}

/// The numbers of a sequence of identifiers.
pub open spec fn ids<K: EnumId>(ks: Seq<K>) -> Seq<nat> {
    Seq::new(ks.len(), |i: int| ks[i].id() as nat)
}

/// The identifier at position `p` of a bitmap, if the position names one.
pub open spec fn key_at<K: EnumId>(p: nat) -> Option<K> {
    if p <= u32::MAX {
        K::from_id(p as u32)
    } else {
        None
    }
}

/// The identifiers whose positions are set in `ws` below position `n`, in
/// ascending order; or the first set position that names no identifier.
pub open spec fn keys_below<K: EnumId>(ws: Seq<u32>, n: nat) -> Result<Seq<K>, XdrError>
    decreases n,
{
    if n == 0 {
        Ok(Seq::empty())
    } else {
        let p = (n - 1) as nat;
        match keys_below::<K>(ws, p) {
            Err(e) => Err(e),
            Ok(ks) => if has_bit(ws, p) {
                match key_at::<K>(p) {
                    Some(k) => Ok(ks.push(k)),
                    None => Err(XdrError::UnknownAttributeId(p as u64)),
                }
            } else {
                Ok(ks)
            },
        }
    }
}

/// The identifiers that a bitmap holds.
pub open spec fn keys_of<K: EnumId>(ws: Seq<u32>) -> Result<Seq<K>, XdrError> {
    keys_below::<K>(ws, 32 * ws.len())
}

/// How many positions below `n` are set in `ws`.
pub open spec fn count_below(ws: Seq<u32>, n: nat) -> nat
    decreases n,
{
    if n == 0 {
        0
    } else if has_bit(ws, (n - 1) as nat) {
        count_below(ws, (n - 1) as nat) + 1
    } else {
        count_below(ws, (n - 1) as nat)
    }
}

/// A bitmap holds as many identifiers as it has positions set.
pub proof fn lemma_keys_count<K: EnumId>(ws: Seq<u32>, n: nat)
    ensures
        keys_below::<K>(ws, n) is Ok ==> keys_below::<K>(ws, n)->Ok_0.len() == count_below(ws, n),
    decreases n,
{
    if n > 0 {
        lemma_keys_count::<K>(ws, (n - 1) as nat);
    }
}

/// Once a position names no identifier, the positions after it do not matter.
pub proof fn lemma_keys_error_stays<K: EnumId>(ws: Seq<u32>, n: nat, m: nat)
    requires
        n <= m,
        keys_below::<K>(ws, n) is Err,
    ensures
        keys_below::<K>(ws, m) == keys_below::<K>(ws, n),
    decreases m,
{
    if n < m {
        lemma_keys_error_stays::<K>(ws, n, (m - 1) as nat);
    }
}

/// Bitmaps that agree below `n` hold the same identifiers below `n`.
pub proof fn lemma_keys_agree<K: EnumId>(a: Seq<u32>, b: Seq<u32>, n: nat)
    requires
        forall|q: nat| q < n ==> has_bit(a, q) == has_bit(b, q),
    ensures
        keys_below::<K>(a, n) == keys_below::<K>(b, n),
    decreases n,
{
    if n > 0 {
        lemma_keys_agree::<K>(a, b, (n - 1) as nat);
    }
}

/// Positions that are not set add no identifier.
pub proof fn lemma_keys_skip<K: EnumId>(ws: Seq<u32>, n: nat, m: nat)
    requires
        n <= m,
        forall|q: nat| n <= q < m ==> !has_bit(ws, q),
    ensures
        keys_below::<K>(ws, m) == keys_below::<K>(ws, n),
    decreases m,
{
    if n < m {
        lemma_keys_skip::<K>(ws, n, (m - 1) as nat);
    }
}

/// The bitmap of identifiers in ascending order holds those identifiers.
pub proof fn lemma_keys_round_trip<K: EnumId>(ks: Seq<K>)
    requires
        ascending(ids(ks)),
    ensures
        keys_of::<K>(bitmap_of(ids(ks))) == Ok::<Seq<K>, XdrError>(ks),
    decreases ks.len(),
{
    let ps = ids(ks);
    let ws = bitmap_of(ps);
    if ks.len() == 0 {
        assert(ks =~= Seq::<K>::empty());
    } else {
        let init = ks.drop_last();
        let k = ks.last();
        let p = ps.last();
        assert(ids(init) =~= ps.drop_last());
        assert(ascending(ids(init)));
        let ws0 = bitmap_of(ids(init));
        let n0 = 32 * ws0.len();
        lemma_keys_round_trip::<K>(init);
        lemma_bitmap_len(ps);
        assert forall|q: nat| has_bit(ws0, q) implies q < p by {
            lemma_bitmap_of(ids(init), q);
            let i = choose|i: int| 0 <= i < ids(init).len() && ids(init)[i] == q;
            assert(ps[i] == q);
            assert(ps[i] < ps[ps.len() - 1]);
        }
        if p >= n0 {
            lemma_keys_skip::<K>(ws0, n0 as nat, p);
        } else {
            lemma_keys_skip::<K>(ws0, p, n0 as nat);
        }
        assert(keys_below::<K>(ws0, p) == Ok::<Seq<K>, XdrError>(init));
        assert forall|q: nat| q < p implies has_bit(ws, q) == has_bit(ws0, q) by {
            lemma_with_bit(ws0, p, q);
        }
        lemma_keys_agree::<K>(ws, ws0, p);
        lemma_with_bit(ws0, p, p);
        K::lemma_id(k);
        assert(key_at::<K>(p) == Some(k));
        assert(init.push(k) =~= ks);
        assert(keys_below::<K>(ws, p + 1) == Ok::<Seq<K>, XdrError>(ks));
        assert forall|q: nat| p + 1 <= q < 32 * ws.len() implies !has_bit(ws, q) by {
            lemma_with_bit(ws0, p, q);
        }
        lemma_keys_skip::<K>(ws, p + 1, (32 * ws.len()) as nat);
    }
}

/// Identifiers with different numbers are different, and the other way round.
pub proof fn lemma_id_injective<K: EnumId>(a: K, b: K)
    ensures
        a.id() == b.id() <==> a == b,
{
    K::lemma_id(a);
    K::lemma_id(b);
}

/// Where `key` stands in `ks`, if it does.
pub proof fn lemma_ascending_contains<K: EnumId>(ks: Seq<K>, i: int, key: K)
    requires
        ascending(ids(ks)),
        0 <= i <= ks.len(),
        forall|j: int| 0 <= j < i ==> (#[trigger] ks[j]).id() < key.id(),
        forall|j: int| i <= j < ks.len() ==> (#[trigger] ks[j]).id() >= key.id(),
    ensures
        ks.contains(key) <==> (i < ks.len() && ks[i].id() == key.id()),
{
    if i < ks.len() && ks[i].id() == key.id() {
        lemma_id_injective(ks[i], key);
    }
    if ks.contains(key) {
        let j = choose|j: int| 0 <= j < ks.len() && ks[j] == key;
        if j > i {
            assert(ids(ks)[i] < ids(ks)[j]);
        }
    }
}

pub proof fn lemma_insert_to_set<A>(s: Seq<A>, i: int, a: A)
    requires
        0 <= i <= s.len(),
    ensures
        s.insert(i, a).to_set() == s.to_set().insert(a),
{
    let t = s.insert(i, a);
    assert forall|x: A| t.to_set().contains(x) <==> s.to_set().insert(a).contains(x) by {
        if t.contains(x) {
            let j = choose|j: int| 0 <= j < t.len() && t[j] == x;
            if j < i {
                assert(s[j] == x);
            } else if j > i {
                assert(s[j - 1] == x);
            }
        }
        if s.contains(x) {
            let j = choose|j: int| 0 <= j < s.len() && s[j] == x;
            if j < i {
                assert(t[j] == x);
            } else {
                assert(t[j + 1] == x);
            }
        }
        if x == a {
            assert(t[i] == x);
        }
    }
    assert(t.to_set() =~= s.to_set().insert(a));
}

pub proof fn lemma_remove_to_set<A>(s: Seq<A>, i: int)
    requires
        0 <= i < s.len(),
        s.no_duplicates(),
    ensures
        s.remove(i).to_set() == s.to_set().remove(s[i]),
{
    let t = s.remove(i);
    assert forall|x: A| t.to_set().contains(x) <==> s.to_set().remove(s[i]).contains(x) by {
        if t.contains(x) {
            let j = choose|j: int| 0 <= j < t.len() && t[j] == x;
            if j < i {
                assert(s[j] == x);
            } else {
                assert(s[j + 1] == x);
            }
        }
        if s.contains(x) && x != s[i] {
            let j = choose|j: int| 0 <= j < s.len() && s[j] == x;
            if j < i {
                assert(t[j] == x);
            } else {
                assert(t[j - 1] == x);
            }
        }
    }
    assert(t.to_set() =~= s.to_set().remove(s[i]));
}

/// Identifiers in ascending order are all different.
pub proof fn lemma_ascending_distinct<K: EnumId>(ks: Seq<K>)
    requires
        ascending(ids(ks)),
    ensures
        ks.no_duplicates(),
{
    assert forall|i: int, j: int| 0 <= i < ks.len() && 0 <= j < ks.len() && i != j implies ks[i]
        != ks[j] by {
        if i < j {
            assert(ids(ks)[i] < ids(ks)[j]);
        } else {
            assert(ids(ks)[j] < ids(ks)[i]);
        }
    }
}

/// A set of identifiers.
///
/// The identifiers are kept in a vector, in ascending order of their
/// numbers and each once. The order in which they travel is thereby an
/// invariant of the type itself, which every method is proved to keep: the
/// order of a tree of `K` would be that of an implementation of `Ord` for
/// `K`, of which nothing is known here.
#[derive(Debug, PartialEq, Eq)]
pub struct EnumSet<K: EnumId> {
    keys: Vec<K>,
}

impl<K: EnumId> View for EnumSet<K> {
    type V = Seq<K>;

    /// The identifiers of the set, in ascending order.
    closed spec fn view(&self) -> Seq<K> {
        self.keys@
    }
}

impl<K: EnumId> EnumSet<K> {
    #[verifier::type_invariant]
    spec fn ordered(&self) -> bool {
        ascending(ids(self.keys@))
    }

    /// The empty set.
    pub fn new() -> (r: Self)
        ensures
            r@ == Seq::<K>::empty(),
            ascending(ids(r@)),
    {
        let keys: Vec<K> = Vec::new();
        assert(keys@ =~= Seq::<K>::empty());
        EnumSet { keys }
    }

    /// How many identifiers the set holds.
    pub fn len(&self) -> (n: usize)
        ensures
            n == self@.len(),
    {
        self.keys.len()
    }

    /// The place of the first identifier that is not below `id`.
    fn place_of(&self, id: u32) -> (i: usize)
        ensures
            i <= self@.len(),
            forall|j: int| 0 <= j < i ==> (#[trigger] self@[j]).id() < id,
            forall|j: int| i <= j < self@.len() ==> (#[trigger] self@[j]).id() >= id,
    {
        proof {
            use_type_invariant(self);
        }
        let mut i: usize = 0;
        while i < self.keys.len() && self.keys[i].to_u32() < id
            invariant
                i <= self.keys@.len(),
                forall|j: int| 0 <= j < i ==> (#[trigger] self.keys@[j]).id() < id,
            decreases self.keys@.len() - i,
        {
            i += 1;
        }
        proof {
            assert forall|j: int| i <= j < self@.len() implies (#[trigger] self@[j]).id() >= id by {
                if i < j {
                    assert(ids(self.keys@)[i as int] < ids(self.keys@)[j]);
                }
            }
        }
        i
    }

    /// Whether `key` is in the set.
    pub fn contains(&self, key: K) -> (r: bool)
        ensures
            r == self@.contains(key),
    {
        let id = key.to_u32();
        let i = self.place_of(id);
        proof {
            use_type_invariant(self);
            lemma_ascending_contains(self.keys@, i as int, key);
        }
        i < self.keys.len() && self.keys[i].to_u32() == id
    }

    /// Puts `key` into the set. Returns whether it was not there before.
    pub fn insert(&mut self, key: K) -> (r: bool)
        ensures
            r == !old(self)@.contains(key),
            final(self)@.to_set() == old(self)@.to_set().insert(key),
            ascending(ids(final(self)@)),
            !r ==> final(self)@ == old(self)@,
            r ==> final(self)@.len() == old(self)@.len() + 1,
    {
        let id = key.to_u32();
        let i = self.place_of(id);
        proof {
            use_type_invariant(&*self);
            lemma_ascending_contains(self.keys@, i as int, key);
        }
        if i < self.keys.len() && self.keys[i].to_u32() == id {
            assert(self@.to_set().insert(key) =~= self@.to_set());
            return false;
        }
        proof {
            let before = self.keys@;
            let after = before.insert(i as int, key);
            assert forall|a: int, b: int| 0 <= a < b < after.len() implies ids(after)[a] < ids(
                after,
            )[b] by {
                if b < i {
                    assert(ids(before)[a] < ids(before)[b]);
                } else if b == i {
                    assert(before[a].id() < key.id());
                } else if a < i {
                    assert(ids(before)[a] < ids(before)[b - 1]);
                } else if a == i {
                    assert(before[i as int].id() >= key.id());
                    if b - 1 > i {
                        assert(ids(before)[i as int] < ids(before)[b - 1]);
                    }
                } else {
                    assert(ids(before)[a - 1] < ids(before)[b - 1]);
                }
            }
            lemma_insert_to_set(before, i as int, key);
        }
        let mut taken = Self::new();
        core::mem::swap(self, &mut taken);
        let mut keys = taken.keys;
        keys.insert(i, key);
        *self = EnumSet { keys };
        true
    }

    /// Takes `key` out of the set. Returns whether it was there.
    pub fn remove(&mut self, key: K) -> (r: bool)
        ensures
            r == old(self)@.contains(key),
            final(self)@.to_set() == old(self)@.to_set().remove(key),
            ascending(ids(final(self)@)),
            !r ==> final(self)@ == old(self)@,
            r ==> final(self)@.len() == old(self)@.len() - 1,
    {
        let id = key.to_u32();
        let i = self.place_of(id);
        proof {
            use_type_invariant(&*self);
            lemma_ascending_contains(self.keys@, i as int, key);
        }
        if i < self.keys.len() && self.keys[i].to_u32() == id {
            proof {
                let before = self.keys@;
                let after = before.remove(i as int);
                assert forall|a: int, b: int| 0 <= a < b < after.len() implies ids(after)[a] < ids(
                    after,
                )[b] by {
                    let x = if a < i {
                        a
                    } else {
                        a + 1
                    };
                    let y = if b < i {
                        b
                    } else {
                        b + 1
                    };
                    assert(ids(before)[x] < ids(before)[y]);
                }
                lemma_ascending_distinct(before);
                lemma_remove_to_set(before, i as int);
                lemma_id_injective(before[i as int], key);
            }
            let mut taken = Self::new();
            core::mem::swap(self, &mut taken);
            let mut keys = taken.keys;
            let _ = keys.remove(i);
            *self = EnumSet { keys };
            true
        } else {
            assert(self@.to_set().remove(key) =~= self@.to_set());
            false
        }
    }

    /// The set of the identifiers in `keys`.
    pub fn from_slice(keys: &[K]) -> (r: Self)
        ensures
            r@.to_set() == keys@.to_set(),
            ascending(ids(r@)),
    {
        let mut set = Self::new();
        let mut n: usize = 0;
        assert(set@.to_set() =~= keys@.take(0).to_set());
        while n < keys.len()
            invariant
                n <= keys@.len(),
                set@.to_set() == keys@.take(n as int).to_set(),
                ascending(ids(set@)),
            decreases keys@.len() - n,
        {
            let _ = set.insert(keys[n]);
            proof {
                let seen = keys@.take(n as int);
                assert(keys@.take(n + 1) =~= seen.insert(n as int, keys@[n as int]));
                lemma_insert_to_set(keys@.take(n as int), n as int, keys@[n as int]);
            }
            n += 1;
        }
        assert(keys@.take(n as int) =~= keys@);
        set
    }

    /// The identifiers of the set, in ascending order.
    pub fn to_vec(&self) -> (r: Vec<K>)
        ensures
            r@ == self@,
            ascending(ids(r@)),
    {
        proof {
            use_type_invariant(self);
        }
        let mut r: Vec<K> = Vec::new();
        let mut i: usize = 0;
        while i < self.keys.len()
            invariant
                i <= self.keys@.len(),
                r@ == self.keys@.take(i as int),
            decreases self.keys@.len() - i,
        {
            r.push(self.keys[i]);
            assert(r@ =~= self.keys@.take(i + 1));
            i += 1;
        }
        assert(r@ =~= self.keys@);
        r
    }
}

impl<K: EnumId> Clone for EnumSet<K> {
    fn clone(&self) -> (r: Self)
        ensures
            r@ == self@,
            ascending(ids(r@)),
    {
        EnumSet { keys: self.to_vec() }
    }
}


/// In the bitmap of identifiers in ascending order as many positions are set
/// as there are identifiers.
pub proof fn lemma_bitmap_count<K: EnumId>(ks: Seq<K>)
    requires
        ascending(ids(ks)),
    ensures
        count_below(bitmap_of(ids(ks)), 32 * bitmap_of(ids(ks)).len()) == ks.len(),
{
    lemma_keys_round_trip::<K>(ks);
    lemma_keys_count::<K>(bitmap_of(ids(ks)), 32 * bitmap_of(ids(ks)).len());
}

/// The bitmap in which the numbers of `keys` are set.
pub fn bitmap_words<K: EnumId>(keys: &Vec<K>) -> (r: Vec<u32>)
    ensures
        r@ == bitmap_of(ids(keys@)),
{
    let mut words: Vec<u32> = Vec::new();
    let mut i: usize = 0;
    assert(ids(keys@.take(0)) =~= Seq::<nat>::empty());
    while i < keys.len()
        invariant
            i <= keys@.len(),
            words@ == bitmap_of(ids(keys@.take(i as int))),
        decreases keys@.len() - i,
    {
        set_bit(&mut words, keys[i].to_u32());
        proof {
            let next = ids(keys@.take(i + 1));
            assert(next.drop_last() =~= ids(keys@.take(i as int)));
            assert(next.last() == keys@[i as int].id() as nat);
        }
        i += 1;
    }
    assert(keys@.take(i as int) =~= keys@);
    words
}

/// The identifiers that the bitmap `words` holds, in ascending order.
pub fn keys_from_words<K: EnumId>(words: &Vec<u32>) -> (r: Result<Vec<K>, XdrError>)
    requires
        words@.len() <= u32::MAX,
    ensures
        match r {
            Ok(keys) => keys_of::<K>(words@) == Ok::<Seq<K>, XdrError>(keys@) && ascending(
                ids(keys@),
            ),
            Err(e) => keys_of::<K>(words@) == Err::<Seq<K>, XdrError>(e),
        },
{
    let mut keys: Vec<K> = Vec::new();
    let mut i: usize = 0;
    assert(keys@ =~= Seq::<K>::empty());
    while i < words.len()
        invariant
            i <= words@.len(),
            words@.len() <= u32::MAX,
            keys_below::<K>(words@, (32 * i) as nat) == Ok::<Seq<K>, XdrError>(keys@),
            ascending(ids(keys@)),
            forall|j: int| 0 <= j < keys@.len() ==> (#[trigger] keys@[j]).id() < 32 * i,
        decreases words@.len() - i,
    {
        let mut b: u32 = 0;
        while b < 32
            invariant
                i < words@.len(),
                words@.len() <= u32::MAX,
                b <= 32,
                keys_below::<K>(words@, (32 * i + b) as nat) == Ok::<Seq<K>, XdrError>(keys@),
                ascending(ids(keys@)),
                forall|j: int| 0 <= j < keys@.len() ==> (#[trigger] keys@[j]).id() < 32 * i + b,
            decreases 32 - b,
        {
            let ghost p = (32 * i + b) as nat;
            if test_bit(words, i, b) {
                let found: Option<K> = if i <= (u32::MAX as usize) / 32 {
                    K::try_from_u32(32 * (i as u32) + b)
                } else {
                    None
                };
                assert(found == key_at::<K>(p));
                match found {
                    Some(k) => {
                        proof {
                            K::lemma_from_id(p as u32);
                            let before = keys@;
                            let after = before.push(k);
                            assert forall|x: int, y: int|
                                0 <= x < y < after.len() implies ids(after)[x] < ids(after)[y] by {
                                if y < before.len() {
                                    assert(ids(before)[x] < ids(before)[y]);
                                } else {
                                    assert(before[x].id() < p);
                                }
                            }
                        }
                        keys.push(k);
                    },
                    None => {
                        proof {
                            lemma_keys_error_stays::<K>(words@, p + 1, (32 * words@.len()) as nat);
                        }
                        return Err(XdrError::UnknownAttributeId(32 * (i as u64) + (b as u64)));
                    },
                }
            }
            b += 1;
        }
        i += 1;
    }
    Ok(keys)
}

/// Decodes the words of a bitmap from the front of `input`.
pub fn decode_words<'a>(input: &'a [u8]) -> (r: Result<(Vec<u32>, &'a [u8]), XdrError>)
    ensures
        match r {
            Ok((words, rest)) => Vec::<u32>::parse(input@) == Ok::<(Seq<u32>, Seq<u8>), XdrError>(
                (words@, rest@),
            ) && words@.len() <= u32::MAX,
            Err(e) => Vec::<u32>::parse(input@) == Err::<(Seq<u32>, Seq<u8>), XdrError>(e),
        },
{
    let (n, r) = u32::decode(input)?;
    let (words, rest) = decode_each::<u32>(n as usize, r)?;
    assert(models(words@) =~= words@);
    Ok((words, rest))
}

/// A set travels as its bitmap: the count of words, then the words.
impl<K: EnumId> Xdr for EnumSet<K> {
    type Model = Seq<K>;

    open spec fn model(&self) -> Seq<K> {
        self@
    }

    open spec fn wf(m: Seq<K>) -> bool {
        ascending(ids(m))
    }

    #[verifier::opaque]
    open spec fn wire(m: Seq<K>) -> Seq<u8> {
        Vec::<u32>::wire(bitmap_of(ids(m)))
    }

    #[verifier::opaque]
    open spec fn parse(s: Seq<u8>) -> Result<(Seq<K>, Seq<u8>), XdrError> {
        match Vec::<u32>::parse(s) {
            Ok((ws, rest)) => match keys_of::<K>(ws) {
                Ok(ks) => Ok((ks, rest)),
                Err(e) => Err(e),
            },
            Err(e) => Err(e),
        }
    }

    proof fn lemma_round_trip(m: Seq<K>, rest: Seq<u8>) {
        reveal(<EnumSet<_> as Xdr>::wire);
        reveal(<EnumSet<_> as Xdr>::parse);
        let ws = bitmap_of(ids(m));
        lemma_bitmap_len(ids(m));
        assert(wf_each::<u32>(ws));
        Vec::<u32>::lemma_round_trip(ws, rest);
        lemma_keys_round_trip::<K>(m);
    }

    fn encode(&self, out: &mut Vec<u8>) -> (r: Result<(), EncodeError>) {
        proof {
            use_type_invariant(self);
            reveal(<EnumSet<_> as Xdr>::wire);
            lemma_bitmap_len(ids(self.keys@));
        }
        let words = bitmap_words(&self.keys);
        assert(models(words@) =~= words@);
        assert(wf_each::<u32>(words@));
        words.encode(out)
    }

    fn decode<'a>(input: &'a [u8]) -> (r: Result<(EnumSet<K>, &'a [u8]), XdrError>) {
        proof {
            reveal(<EnumSet<_> as Xdr>::parse);
        }
        let (words, rest) = decode_words(input)?;
        let keys = keys_from_words::<K>(&words)?;
        Ok((EnumSet { keys }, rest))
    }
}


/// A value of an attribute map: a tagged union whose tag is an identifier of
/// `K`, and whose payload can travel without its tag.
pub trait Attribute<K: EnumId>: Xdr + ToId<K> {
    /// The number of the identifier that a value belongs to.
    spec fn tag(m: Self::Model) -> u32;

    /// The encoding of a value without its tag.
    spec fn wire_payload(m: Self::Model) -> Seq<u8>;

    /// The value with the given tag whose payload is at the front of `s`.
    spec fn parse_payload(tag: u32, s: Seq<u8>) -> Result<(Self::Model, Seq<u8>), XdrError>;

    proof fn lemma_key(&self)
        ensures
            self.id_of().id() == Self::tag(self.model()),
    ;

    proof fn lemma_tag_is_key(m: Self::Model)
        ensures
            K::from_id(Self::tag(m)) is Some,
    ;

    proof fn lemma_parse_payload_tag(tag: u32, s: Seq<u8>)
        ensures
            Self::parse_payload(tag, s) is Ok ==> Self::tag(Self::parse_payload(tag, s)->Ok_0.0)
                == tag,
    ;

    proof fn lemma_payload_round_trip(m: Self::Model, rest: Seq<u8>)
        requires
            Self::wf(m),
        ensures
            Self::parse_payload(Self::tag(m), Self::wire_payload(m) + rest) == Ok::<
                (Self::Model, Seq<u8>),
                XdrError,
            >((m, rest)),
    ;

    fn encode_payload(&self, out: &mut Vec<u8>) -> (r: Result<(), EncodeError>)
        ensures
            r is Ok <==> Self::wf(self.model()),
            r is Ok ==> final(out)@ == old(out)@ + Self::wire_payload(self.model()),
    ;

    fn decode_payload<'a>(key: K, input: &'a [u8]) -> (r: Result<(Self, &'a [u8]), XdrError>)
        ensures
            match r {
                Ok((v, rest)) => Self::parse_payload(key.id(), input@) == Ok::<
                    (Self::Model, Seq<u8>),
                    XdrError,
                >((v.model(), rest@)),
                Err(e) => Self::parse_payload(key.id(), input@) == Err::<
                    (Self::Model, Seq<u8>),
                    XdrError,
                >(e),
            },
    ;
}

/// The numbers of the identifiers that a sequence of values belongs to.
pub open spec fn tags<K: EnumId, V: Attribute<K>>(ms: Seq<V::Model>) -> Seq<nat> {
    Seq::new(ms.len(), |i: int| V::tag(ms[i]) as nat)
}

/// The numbers of the identifiers that a sequence of values belongs to.
pub open spec fn key_ids<K: EnumId, V: ToId<K>>(vs: Seq<V>) -> Seq<nat> {
    Seq::new(vs.len(), |i: int| vs[i].id_of().id() as nat)
}

/// The identifiers that a sequence of values belongs to.
pub open spec fn keys_for<K: EnumId, V: Attribute<K>>(ms: Seq<V::Model>) -> Seq<K> {
    Seq::new(ms.len(), |i: int| K::from_id(V::tag(ms[i]))->0)
}

/// The payloads of the values, one after another.
#[verifier::opaque]
pub open spec fn wire_payloads<K: EnumId, V: Attribute<K>>(ms: Seq<V::Model>) -> Seq<u8>
    decreases ms.len(),
{
    if ms.len() == 0 {
        Seq::empty()
    } else {
        V::wire_payload(ms[0]) + wire_payloads::<K, V>(ms.drop_first())
    }
}

/// The values of the identifiers `ks`, their payloads read one after another
/// from the front of `s`, and what is left of `s`.
#[verifier::opaque]
pub open spec fn values_of<K: EnumId, V: Attribute<K>>(ks: Seq<K>, s: Seq<u8>) -> Result<
    (Seq<V::Model>, Seq<u8>),
    XdrError,
>
    decreases ks.len(),
{
    if ks.len() == 0 {
        Ok((Seq::empty(), s))
    } else {
        match V::parse_payload(ks[0].id(), s) {
            Ok((m, r)) => match values_of::<K, V>(ks.drop_first(), r) {
                Ok((ms, rest)) => Ok((seq![m] + ms, rest)),
                Err(e) => Err(e),
            },
            Err(e) => Err(e),
        }
    }
}

/// What `values_of` gives when the first values are `acc` and `r` is the
/// result for the identifiers that remain.
pub open spec fn after_values<M>(
    acc: Seq<M>,
    r: Result<(Seq<M>, Seq<u8>), XdrError>,
) -> Result<(Seq<M>, Seq<u8>), XdrError> {
    match r {
        Ok((ms, rest)) => Ok((acc + ms, rest)),
        Err(e) => Err(e),
    }
}

pub proof fn lemma_wire_payloads_push<K: EnumId, V: Attribute<K>>(ms: Seq<V::Model>, m: V::Model)
    ensures
        wire_payloads::<K, V>(ms.push(m)) == wire_payloads::<K, V>(ms) + V::wire_payload(m),
    decreases ms.len(),
{
    reveal(wire_payloads);
    let all = ms.push(m);
    if ms.len() == 0 {
        assert(all.drop_first() =~= ms);
        assert(all[0] == m);
        assert(wire_payloads::<K, V>(ms) =~= Seq::<u8>::empty());
        assert(wire_payloads::<K, V>(all) == V::wire_payload(m) + wire_payloads::<K, V>(
            all.drop_first(),
        ));
        assert(wire_payloads::<K, V>(all) =~= wire_payloads::<K, V>(ms) + V::wire_payload(m));
    } else {
        assert(all[0] == ms[0]);
        assert(all.drop_first() =~= ms.drop_first().push(m));
        lemma_wire_payloads_push::<K, V>(ms.drop_first(), m);
        lemma_concat_assoc(
            V::wire_payload(ms[0]),
            wire_payloads::<K, V>(ms.drop_first()),
            V::wire_payload(m),
        );
    }
}

pub proof fn lemma_values_round_trip<K: EnumId, V: Attribute<K>>(
    ks: Seq<K>,
    ms: Seq<V::Model>,
    rest: Seq<u8>,
)
    requires
        wf_each::<V>(ms),
        ks.len() == ms.len(),
        forall|i: int| 0 <= i < ms.len() ==> (#[trigger] ks[i]).id() == V::tag(ms[i]),
    ensures
        values_of::<K, V>(ks, wire_payloads::<K, V>(ms) + rest) == Ok::<
            (Seq<V::Model>, Seq<u8>),
            XdrError,
        >((ms, rest)),
    decreases ms.len(),
{
    reveal(wire_payloads);
    reveal(values_of);
    if ms.len() == 0 {
        assert(wire_payloads::<K, V>(ms) + rest =~= rest);
        assert(ms =~= Seq::<V::Model>::empty());
    } else {
        let tail = ms.drop_first();
        let after = wire_payloads::<K, V>(tail) + rest;
        lemma_concat_assoc(V::wire_payload(ms[0]), wire_payloads::<K, V>(tail), rest);
        assert(ks[0].id() == V::tag(ms[0]));
        V::lemma_payload_round_trip(ms[0], after);
        assert(wf_each::<V>(tail)) by {
            assert forall|i: int| 0 <= i < tail.len() implies V::wf(#[trigger] tail[i]) by {
                assert(tail[i] == ms[i + 1]);
            }
        }
        assert forall|i: int| 0 <= i < tail.len() implies (#[trigger] ks.drop_first()[i]).id()
            == V::tag(tail[i]) by {
            assert(ks.drop_first()[i] == ks[i + 1]);
            assert(tail[i] == ms[i + 1]);
        }
        lemma_values_round_trip::<K, V>(ks.drop_first(), tail, rest);
        assert(seq![ms[0]] + tail =~= ms);
    }
}

/// One more value parsed: the result for the whole does not change.
pub proof fn lemma_values_step<K: EnumId, V: Attribute<K>>(
    acc: Seq<V::Model>,
    ks: Seq<K>,
    s: Seq<u8>,
)
    requires
        ks.len() > 0,
    ensures
        after_values(acc, values_of::<K, V>(ks, s)) == match V::parse_payload(ks[0].id(), s) {
            Ok((m, r)) => after_values(acc.push(m), values_of::<K, V>(ks.drop_first(), r)),
            Err(e) => Err(e),
        },
{
    reveal(values_of);
    match V::parse_payload(ks[0].id(), s) {
        Ok((m, r)) => {
            match values_of::<K, V>(ks.drop_first(), r) {
                Ok((ms, rest)) => {
                    assert(acc + (seq![m] + ms) =~= acc.push(m) + ms);
                },
                Err(e) => {},
            }
        },
        Err(e) => {},
    }
}

/// A map from identifiers to the attribute values that belong to them.
///
/// The values are kept in a vector, in ascending order of the numbers of
/// their identifiers and one for each identifier, for the reason given at
/// [`EnumSet`].
#[derive(Debug, PartialEq, Eq)]
pub struct EnumMap<K: EnumId, V: Attribute<K>> {
    entries: Vec<V>,
    key: PhantomData<K>,
}

impl<K: EnumId, V: Attribute<K>> View for EnumMap<K, V> {
    type V = Seq<V>;

    /// The values of the map, in ascending order of identifier.
    closed spec fn view(&self) -> Seq<V> {
        self.entries@
    }
}

impl<K: EnumId, V: Attribute<K>> EnumMap<K, V> {
    #[verifier::type_invariant]
    spec fn ordered(&self) -> bool {
        ascending(key_ids::<K, V>(self.entries@))
    }

    /// The value that belongs to `key`, if the map holds one.
    pub open spec fn value_of(&self, key: K) -> Option<V> {
        if exists|i: int| 0 <= i < self@.len() && (#[trigger] self@[i]).id_of() == key {
            Some(self@[choose|i: int| 0 <= i < self@.len() && (#[trigger] self@[i]).id_of() == key])
        } else {
            None
        }
    }

    /// The empty map.
    pub fn new() -> (r: Self)
        ensures
            r@ == Seq::<V>::empty(),
    {
        let entries: Vec<V> = Vec::new();
        assert(entries@ =~= Seq::<V>::empty());
        EnumMap { entries, key: PhantomData }
    }

    /// How many values the map holds.
    pub fn len(&self) -> (n: usize)
        ensures
            n == self@.len(),
    {
        self.entries.len()
    }

    /// The values of the map, in ascending order of identifier.
    pub fn values(&self) -> (r: &Vec<V>)
        ensures
            r@ == self@,
            ascending(key_ids::<K, V>(r@)),
    {
        proof {
            use_type_invariant(self);
        }
        &self.entries
    }

    /// The place of the first value whose identifier is not below `id`.
    fn place_of(&self, id: u32) -> (i: usize)
        ensures
            i <= self@.len(),
            forall|j: int| 0 <= j < i ==> (#[trigger] self@[j]).id_of().id() < id,
            forall|j: int| i <= j < self@.len() ==> (#[trigger] self@[j]).id_of().id() >= id,
    {
        proof {
            use_type_invariant(self);
        }
        let mut i: usize = 0;
        while i < self.entries.len() && self.entries[i].to_id().to_u32() < id
            invariant
                i <= self.entries@.len(),
                forall|j: int| 0 <= j < i ==> (#[trigger] self.entries@[j]).id_of().id() < id,
            decreases self.entries@.len() - i,
        {
            i += 1;
        }
        proof {
            assert forall|j: int| i <= j < self@.len() implies (#[trigger] self@[j]).id_of().id()
                >= id by {
                if i < j {
                    assert(key_ids::<K, V>(self.entries@)[i as int] < key_ids::<K, V>(
                        self.entries@,
                    )[j]);
                }
            }
        }
        i
    }

    /// At most one value of a map belongs to an identifier: where it stands.
    proof fn lemma_value_of(vs: Seq<V>, i: int, key: K)
        requires
            ascending(key_ids::<K, V>(vs)),
            0 <= i <= vs.len(),
            forall|j: int| 0 <= j < i ==> (#[trigger] vs[j]).id_of().id() < key.id(),
            forall|j: int| i <= j < vs.len() ==> (#[trigger] vs[j]).id_of().id() >= key.id(),
        ensures
            (exists|j: int| 0 <= j < vs.len() && (#[trigger] vs[j]).id_of() == key) <==> (i
                < vs.len() && vs[i].id_of().id() == key.id()),
            forall|j: int| 0 <= j < vs.len() && (#[trigger] vs[j]).id_of() == key ==> j == i,
    {
        if i < vs.len() && vs[i].id_of().id() == key.id() {
            lemma_id_injective(vs[i].id_of(), key);
        }
        assert forall|j: int| 0 <= j < vs.len() && (#[trigger] vs[j]).id_of() == key implies j
            == i by {
            if j > i {
                assert(key_ids::<K, V>(vs)[i] < key_ids::<K, V>(vs)[j]);
            }
        }
    }

    /// The value that belongs to `key`, if the map holds one.
    pub fn get(&self, key: K) -> (r: Option<&V>)
        ensures
            match r {
                Some(v) => self.value_of(key) == Some(*v),
                None => self.value_of(key) is None,
            },
    {
        let id = key.to_u32();
        let i = self.place_of(id);
        proof {
            use_type_invariant(self);
            Self::lemma_value_of(self.entries@, i as int, key);
        }
        if i < self.entries.len() && self.entries[i].to_id().to_u32() == id {
            Some(&self.entries[i])
        } else {
            None
        }
    }

    /// Takes the value that belongs to `key` out of the map, if it holds one.
    pub fn remove(&mut self, key: K) -> (r: Option<V>)
        ensures
            r == old(self).value_of(key),
            final(self).value_of(key) is None,
            forall|k: K| k != key ==> final(self).value_of(k) == old(self).value_of(k),
            r is None ==> final(self)@ == old(self)@,
            r is Some ==> final(self)@.len() == old(self)@.len() - 1,
    {
        let id = key.to_u32();
        let i = self.place_of(id);
        proof {
            use_type_invariant(&*self);
            Self::lemma_value_of(self.entries@, i as int, key);
        }
        if i < self.entries.len() && self.entries[i].to_id().to_u32() == id {
            let ghost before = self.entries@;
            let ghost after = before.remove(i as int);
            proof {
                assert forall|a: int, b: int| 0 <= a < b < after.len() implies key_ids::<K, V>(
                    after,
                )[a] < key_ids::<K, V>(after)[b] by {
                    let x = if a < i {
                        a
                    } else {
                        a + 1
                    };
                    let y = if b < i {
                        b
                    } else {
                        b + 1
                    };
                    assert(key_ids::<K, V>(before)[x] < key_ids::<K, V>(before)[y]);
                }
            }
            let mut taken = Self::new();
            core::mem::swap(self, &mut taken);
            let mut entries = taken.entries;
            let v = entries.remove(i);
            *self = EnumMap { entries, key: PhantomData };
            proof {
                assert(self@ == after);
                assert forall|j: int| 0 <= j < after.len() implies (#[trigger] after[j]).id_of()
                    != key by {
                    let x = if j < i {
                        j
                    } else {
                        j + 1
                    };
                    assert(after[j] == before[x]);
                }
                assert forall|k: K| k != key implies self.value_of(k) == old(self).value_of(k) by {
                    Self::lemma_same_values(before, after, i as int, k);
                }
            }
            Some(v)
        } else {
            None
        }
    }

    /// Taking a value out changes the value of no other identifier.
    proof fn lemma_same_values(before: Seq<V>, after: Seq<V>, i: int, k: K)
        requires
            0 <= i < before.len(),
            after == before.remove(i),
            before[i].id_of() != k,
            ascending(key_ids::<K, V>(before)),
            ascending(key_ids::<K, V>(after)),
        ensures
            (exists|j: int| 0 <= j < after.len() && (#[trigger] after[j]).id_of() == k) <==> (
            exists|j: int| 0 <= j < before.len() && (#[trigger] before[j]).id_of() == k),
            forall|a: int, b: int|
                0 <= a < after.len() && (#[trigger] after[a]).id_of() == k && 0 <= b < before.len()
                    && (#[trigger] before[b]).id_of() == k ==> after[a] == before[b],
    {
        if exists|j: int| 0 <= j < before.len() && (#[trigger] before[j]).id_of() == k {
            let j = choose|j: int| 0 <= j < before.len() && (#[trigger] before[j]).id_of() == k;
            if j < i {
                assert(after[j].id_of() == k);
            } else {
                assert(after[j - 1].id_of() == k);
            }
        }
        if exists|j: int| 0 <= j < after.len() && (#[trigger] after[j]).id_of() == k {
            let j = choose|j: int| 0 <= j < after.len() && (#[trigger] after[j]).id_of() == k;
            if j < i {
                assert(before[j].id_of() == k);
            } else {
                assert(before[j + 1].id_of() == k);
            }
        }
        assert forall|a: int, b: int|
            0 <= a < after.len() && (#[trigger] after[a]).id_of() == k && 0 <= b < before.len() && (
            #[trigger] before[b]).id_of() == k implies after[a] == before[b] by {
            let x = if a < i {
                a
            } else {
                a + 1
            };
            if x < b {
                assert(key_ids::<K, V>(before)[x] < key_ids::<K, V>(before)[b]);
            } else if b < x {
                assert(key_ids::<K, V>(before)[b] < key_ids::<K, V>(before)[x]);
            }
        }
    }
}


impl<K: EnumId, V: Attribute<K>> EnumMap<K, V> {
    /// Putting a value in changes the value of no other identifier.
    proof fn lemma_other_values(before: Seq<V>, after: Seq<V>, i: int, replaced: bool, k: K)
        requires
            0 <= i <= before.len(),
            replaced ==> i < before.len(),
            0 <= i < after.len(),
            after == if replaced {
                before.update(i, after[i])
            } else {
                before.insert(i, after[i])
            },
            after[i].id_of() != k,
            replaced ==> before[i].id_of() != k,
            ascending(key_ids::<K, V>(before)),
            ascending(key_ids::<K, V>(after)),
        ensures
            (exists|j: int| 0 <= j < after.len() && (#[trigger] after[j]).id_of() == k) <==> (
            exists|j: int| 0 <= j < before.len() && (#[trigger] before[j]).id_of() == k),
            forall|a: int, b: int|
                0 <= a < after.len() && (#[trigger] after[a]).id_of() == k && 0 <= b < before.len()
                    && (#[trigger] before[b]).id_of() == k ==> after[a] == before[b],
    {
        if exists|j: int| 0 <= j < before.len() && (#[trigger] before[j]).id_of() == k {
            let j = choose|j: int| 0 <= j < before.len() && (#[trigger] before[j]).id_of() == k;
            if replaced || j < i {
                assert(after[j].id_of() == k);
            } else {
                assert(after[j + 1].id_of() == k);
            }
        }
        if exists|j: int| 0 <= j < after.len() && (#[trigger] after[j]).id_of() == k {
            let j = choose|j: int| 0 <= j < after.len() && (#[trigger] after[j]).id_of() == k;
            if replaced || j < i {
                assert(before[j].id_of() == k);
            } else {
                assert(before[j - 1].id_of() == k);
            }
        }
        assert forall|a: int, b: int|
            0 <= a < after.len() && (#[trigger] after[a]).id_of() == k && 0 <= b < before.len() && (
            #[trigger] before[b]).id_of() == k implies after[a] == before[b] by {
            let x = if replaced || a < i {
                a
            } else {
                a - 1
            };
            assert(after[a] == before[x]);
            if x < b {
                assert(key_ids::<K, V>(before)[x] < key_ids::<K, V>(before)[b]);
            } else if b < x {
                assert(key_ids::<K, V>(before)[b] < key_ids::<K, V>(before)[x]);
            }
        }
    }

    /// Puts `value` into the map. Returns the value that belonged to the same
    /// identifier before, if there was one.
    pub fn insert(&mut self, value: V) -> (r: Option<V>)
        ensures
            r == old(self).value_of(value.id_of()),
            final(self).value_of(value.id_of()) == Some(value),
            forall|k: K|
                k != value.id_of() ==> final(self).value_of(k) == old(self).value_of(k),
            final(self)@.len() == old(self)@.len() + if r is Some {
                0int
            } else {
                1int
            },
    {
        let key = value.to_id();
        let id = key.to_u32();
        let i = self.place_of(id);
        let ghost before = self.entries@;
        proof {
            use_type_invariant(&*self);
            Self::lemma_value_of(before, i as int, key);
        }
        let replace = i < self.entries.len() && self.entries[i].to_id().to_u32() == id;
        let ghost after = if replace {
            before.update(i as int, value)
        } else {
            before.insert(i as int, value)
        };
        proof {
            assert forall|a: int, b: int| 0 <= a < b < after.len() implies key_ids::<K, V>(after)[a]
                < key_ids::<K, V>(after)[b] by {
                if replace {
                    lemma_id_injective(before[i as int].id_of(), key);
                    assert(key_ids::<K, V>(before)[a] < key_ids::<K, V>(before)[b]);
                } else if b < i {
                    assert(key_ids::<K, V>(before)[a] < key_ids::<K, V>(before)[b]);
                } else if b == i {
                    assert(before[a].id_of().id() < id);
                } else if a < i {
                    assert(key_ids::<K, V>(before)[a] < key_ids::<K, V>(before)[b - 1]);
                } else if a == i {
                    assert(before[i as int].id_of().id() >= id);
                    if b - 1 > i {
                        assert(key_ids::<K, V>(before)[i as int] < key_ids::<K, V>(before)[b - 1]);
                    }
                } else {
                    assert(key_ids::<K, V>(before)[a - 1] < key_ids::<K, V>(before)[b - 1]);
                }
            }
        }
        let mut taken = Self::new();
        core::mem::swap(self, &mut taken);
        let mut entries = taken.entries;
        let r = if replace {
            Some(entries.remove(i))
        } else {
            None
        };
        entries.insert(i, value);
        assert(entries@ =~= after);
        *self = EnumMap { entries, key: PhantomData };
        proof {
            assert forall|j: int| 0 <= j < i implies (#[trigger] after[j]).id_of().id() < id by {
                assert(after[j] == before[j]);
            }
            assert forall|j: int| i <= j < after.len() implies (#[trigger] after[j]).id_of().id()
                >= id by {
                if j > i {
                    if replace {
                        assert(after[j] == before[j]);
                    } else {
                        assert(after[j] == before[j - 1]);
                    }
                }
            }
            Self::lemma_value_of(after, i as int, key);
            assert(after[i as int].id_of() == key);
            assert(self@ == after);
            assert(self.value_of(key) == Some(value));
            assert forall|k: K| k != key implies self.value_of(k) == old(self).value_of(k) by {
                if replace {
                    lemma_id_injective(before[i as int].id_of(), key);
                }
                Self::lemma_other_values(before, after, i as int, replace, k);
            }
        }
        r
    }

    /// The map of the values in `values`; of two values that belong to one
    /// identifier the later one stays.
    pub fn from_vec(values: Vec<V>) -> (r: Self)
        ensures
            forall|k: K| #[trigger] r.value_of(k) == last_of::<K, V>(values@, k),
    {
        let mut map = Self::new();
        let mut values = values;
        let ghost all = values@;
        assert(all.take(0) =~= Seq::<V>::empty());
        assert(all.skip(0) =~= all);
        while values.len() > 0
            invariant
                values@.len() <= all.len(),
                values@ == all.skip(all.len() - values@.len()),
                forall|k: K|
                    #[trigger] map.value_of(k) == last_of::<K, V>(
                        all.take(all.len() - values@.len()),
                        k,
                    ),
            decreases values@.len(),
        {
            let ghost idx = all.len() - values@.len();
            let ghost prev = map;
            let v = values.remove(0);
            assert(v == all[idx]);
            let _ = map.insert(v);
            proof {
                assert(values@ =~= all.skip(idx + 1));
                let seen = all.take(idx + 1);
                assert(seen.drop_last() =~= all.take(idx));
                assert(seen.last() == v);
                assert forall|k: K|
                    #[trigger] map.value_of(k) == last_of::<K, V>(seen, k) by {
                    if k != v.id_of() {
                        assert(map.value_of(k) == prev.value_of(k));
                    }
                }
            }
        }
        assert(all.take(all.len() as int) =~= all);
        map
    }
}

/// The last of the values `vs` that belongs to `k`, if one does.
pub open spec fn last_of<K: EnumId, V: ToId<K>>(vs: Seq<V>, k: K) -> Option<V>
    decreases vs.len(),
{
    if vs.len() == 0 {
        None
    } else if vs.last().id_of() == k {
        Some(vs.last())
    } else {
        last_of::<K, V>(vs.drop_last(), k)
    }
}

impl<K: EnumId, V: Attribute<K> + Clone> Clone for EnumMap<K, V> {
    fn clone(&self) -> (r: Self) {
        let mut r = Self::new();
        let mut i: usize = 0;
        while i < self.entries.len()
            invariant
                i <= self.entries@.len(),
            decreases self.entries@.len() - i,
        {
            let _ = r.insert(self.entries[i].clone());
            i += 1;
        }
        r
    }
}

/// A map travels as the bitmap of its identifiers, then the payloads of its
/// values as one piece of opaque data.
impl<K: EnumId, V: Attribute<K>> Xdr for EnumMap<K, V> {
    type Model = Seq<V::Model>;

    open spec fn model(&self) -> Seq<V::Model> {
        models(self@)
    }

    open spec fn wf(m: Seq<V::Model>) -> bool {
        &&& ascending(tags::<K, V>(m))
        &&& wf_each::<V>(m)
        &&& wf_opaque(wire_payloads::<K, V>(m))
    }

    #[verifier::opaque]
    open spec fn wire(m: Seq<V::Model>) -> Seq<u8> {
        Vec::<u32>::wire(bitmap_of(tags::<K, V>(m))) + wire_opaque(wire_payloads::<K, V>(m))
    }

    #[verifier::opaque]
    open spec fn parse(s: Seq<u8>) -> Result<(Seq<V::Model>, Seq<u8>), XdrError> {
        match Vec::<u32>::parse(s) {
            Err(e) => Err(e),
            Ok((ws, s1)) => match parse_opaque(s1) {
                Err(e) => Err(e),
                Ok((body, rest)) => match keys_of::<K>(ws) {
                    Err(e) => Err(e),
                    Ok(ks) => match values_of::<K, V>(ks, body) {
                        Err(e) => Err(e),
                        Ok((ms, left)) => if left.len() == 0 {
                            Ok((ms, rest))
                        } else {
                            Err(XdrError::TrailingBytes)
                        },
                    },
                },
            },
        }
    }

    proof fn lemma_round_trip(m: Seq<V::Model>, rest: Seq<u8>) {
        reveal(<EnumMap<_, _> as Xdr>::wire);
        reveal(<EnumMap<_, _> as Xdr>::parse);
        let ps = tags::<K, V>(m);
        let ws = bitmap_of(ps);
        let body = wire_payloads::<K, V>(m);
        let ks = keys_for::<K, V>(m);
        lemma_concat_assoc(Vec::<u32>::wire(ws), wire_opaque(body), rest);
        lemma_bitmap_len(ps);
        assert(wf_each::<u32>(ws));
        Vec::<u32>::lemma_round_trip(ws, wire_opaque(body) + rest);
        lemma_opaque_round_trip(body, rest);
        assert forall|i: int| 0 <= i < m.len() implies (#[trigger] ks[i]).id() == V::tag(m[i]) by {
            V::lemma_tag_is_key(m[i]);
            K::lemma_from_id(V::tag(m[i]));
        }
        assert(ids(ks) =~= ps);
        lemma_keys_round_trip::<K>(ks);
        assert(body + Seq::<u8>::empty() =~= body);
        lemma_values_round_trip::<K, V>(ks, m, Seq::<u8>::empty());
    }

    fn encode(&self, out: &mut Vec<u8>) -> (r: Result<(), EncodeError>) {
        let ghost ms = models(self.entries@);
        proof {
            use_type_invariant(self);
            reveal(<EnumMap<_, _> as Xdr>::wire);
            assert forall|i: int| 0 <= i < ms.len() implies tags::<K, V>(ms)[i] == key_ids::<K, V>(
                self.entries@,
            )[i] by {
                self.entries@[i].lemma_key();
            }
            assert(tags::<K, V>(ms) =~= key_ids::<K, V>(self.entries@));
            lemma_bitmap_len(tags::<K, V>(ms));
        }
        let mut words: Vec<u32> = Vec::new();
        let mut body: Vec<u8> = Vec::new();
        let mut i: usize = 0;
        proof {
            reveal(wire_payloads);
            assert(tags::<K, V>(ms.take(0)) =~= Seq::<nat>::empty());
            assert(body@ =~= wire_payloads::<K, V>(ms.take(0)));
        }
        while i < self.entries.len()
            invariant
                i <= self.entries@.len(),
                ms == models(self.entries@),
                words@ == bitmap_of(tags::<K, V>(ms.take(i as int))),
                body@ == wire_payloads::<K, V>(ms.take(i as int)),
                wf_each::<V>(ms.take(i as int)),
            decreases self.entries@.len() - i,
        {
            proof {
                self.entries@[i as int].lemma_key();
            }
            set_bit(&mut words, self.entries[i].to_id().to_u32());
            match self.entries[i].encode_payload(&mut body) {
                Ok(()) => {},
                Err(e) => {
                    assert(!V::wf(ms[i as int]));
                    return Err(e);
                },
            }
            proof {
                let next = tags::<K, V>(ms.take(i + 1));
                assert(next.drop_last() =~= tags::<K, V>(ms.take(i as int)));
                assert(next.last() == V::tag(ms[i as int]) as nat);
                assert(ms.take(i + 1) =~= ms.take(i as int).push(ms[i as int]));
                lemma_wire_payloads_push::<K, V>(ms.take(i as int), ms[i as int]);
                assert forall|j: int| 0 <= j < ms.take(i + 1).len() implies V::wf(
                    #[trigger] ms.take(i + 1)[j],
                ) by {
                    if j < i {
                        assert(ms.take(i as int)[j] == ms[j]);
                    }
                }
            }
            i += 1;
        }
        assert(ms.take(i as int) =~= ms);
        assert(models(words@) =~= words@);
        assert(wf_each::<u32>(words@));
        words.encode(out)?;
        encode_opaque(body.as_slice(), out)?;
        proof {
            lemma_concat_assoc(old(out)@, Vec::<u32>::wire(words@), wire_opaque(body@));
        }
        Ok(())
    }

    fn decode<'a>(input: &'a [u8]) -> (r: Result<(EnumMap<K, V>, &'a [u8]), XdrError>) {
        proof {
            reveal(<EnumMap<_, _> as Xdr>::parse);
        }
        let (words, s1) = decode_words(input)?;
        let (body, rest) = decode_opaque(s1)?;
        let keys = keys_from_words::<K>(&words)?;
        let mut entries: Vec<V> = Vec::new();
        let mut cur: &'a [u8] = body;
        let mut i: usize = 0;
        proof {
            assert(models(entries@) =~= Seq::<V::Model>::empty());
            assert(keys@.skip(0) =~= keys@);
            match values_of::<K, V>(keys@, body@) {
                Ok((ms, left)) => {
                    assert(models(entries@) + ms =~= ms);
                },
                Err(e) => {},
            }
            assert(key_ids::<K, V>(entries@) =~= ids(keys@.take(0)));
        }
        while i < keys.len()
            invariant
                i <= keys@.len(),
                entries@.len() == i,
                ascending(ids(keys@)),
                Vec::<u32>::parse(input@) == Ok::<(Seq<u32>, Seq<u8>), XdrError>((words@, s1@)),
                parse_opaque(s1@) == Ok::<(Seq<u8>, Seq<u8>), XdrError>((body@, rest@)),
                keys_of::<K>(words@) == Ok::<Seq<K>, XdrError>(keys@),
                values_of::<K, V>(keys@, body@) == after_values(
                    models(entries@),
                    values_of::<K, V>(keys@.skip(i as int), cur@),
                ),
                key_ids::<K, V>(entries@) == ids(keys@.take(i as int)),
            decreases keys@.len() - i,
        {
            proof {
                reveal(<EnumMap<_, _> as Xdr>::parse);
                lemma_values_step::<K, V>(models(entries@), keys@.skip(i as int), cur@);
                assert(keys@.skip(i as int)[0] == keys@[i as int]);
                assert(keys@.skip(i as int).drop_first() =~= keys@.skip(i + 1));
                V::lemma_parse_payload_tag(keys@[i as int].id(), cur@);
            }
            let (v, next) = V::decode_payload(keys[i], cur)?;
            proof {
                v.lemma_key();
                let before = entries@;
                assert(models(before.push(v)) =~= models(before).push(v.model()));
                assert(v.id_of().id() == keys@[i as int].id());
                assert forall|j: int| 0 <= j < i + 1 implies key_ids::<K, V>(before.push(v))[j]
                    == ids(keys@.take(i + 1))[j] by {
                    if j < i {
                        assert(key_ids::<K, V>(before)[j] == ids(keys@.take(i as int))[j]);
                    }
                }
                assert(key_ids::<K, V>(before.push(v)) =~= ids(keys@.take(i + 1)));
            }
            entries.push(v);
            cur = next;
            i += 1;
        }
        proof {
            reveal(values_of);
            assert(keys@.skip(i as int) =~= Seq::<K>::empty());
            assert(models(entries@) + Seq::<V::Model>::empty() =~= models(entries@));
            assert(keys@.take(i as int) =~= keys@);
        }
        if cur.len() != 0 {
            return Err(XdrError::TrailingBytes);
        }
        Ok((EnumMap { entries, key: PhantomData }, rest))
    }
}


/// A type that is the payload of some values of `V`.
pub trait Payload<V>: Sized {
    /// The payload of `v`, if `v` is a value with a payload of this type.
    spec fn payload_of(v: V) -> Option<Self>;

    fn from_value(v: V) -> (r: Option<Self>)
        ensures
            r == Self::payload_of(v),
    ;

    fn from_value_ref<'a>(v: &'a V) -> (r: Option<&'a Self>)
        ensures
            match r {
                Some(x) => Self::payload_of(*v) == Some(*x),
                None => Self::payload_of(*v) is None,
            },
    ;
}

impl<K: EnumId, V: Attribute<K>> EnumMap<K, V> {
    /// The payload of the value that belongs to `key`, if the map holds one
    /// and its payload is a `T`.
    pub open spec fn payload_at<T: Payload<V>>(&self, key: K) -> Option<T> {
        match self.value_of(key) {
            Some(v) => T::payload_of(v),
            None => None,
        }
    }

    /// The payload of the value that belongs to `key`, if the map holds one
    /// and its payload is a `T`.
    pub fn get_as<'a, T: Payload<V>>(&'a self, key: K) -> (r: Option<&'a T>)
        ensures
            match r {
                Some(x) => self.payload_at::<T>(key) == Some(*x),
                None => self.payload_at::<T>(key) is None,
            },
    {
        match self.get(key) {
            Some(v) => T::from_value_ref(v),
            None => None,
        }
    }

    /// Takes the value that belongs to `key` out of the map, if it holds one,
    /// and gives its payload, if that is a `T`.
    pub fn remove_as<T: Payload<V>>(&mut self, key: K) -> (r: Option<T>)
        ensures
            r == old(self).payload_at::<T>(key),
            final(self).value_of(key) is None,
            forall|k: K| k != key ==> final(self).value_of(k) == old(self).value_of(k),
    {
        match self.remove(key) {
            Some(v) => T::from_value(v),
            None => None,
        }
    }
}

} // verus!
