//! The XDR codec: big-endian, four-octet aligned encodings of the primitive
//! types, each given as a pair of specification functions (`wire`, `parse`)
//! and a pair of executable functions proved to compute them.

use vstd::prelude::*;
use vstd::utf8::*;

verus! {

/// Why a sequence of octets is not the encoding of a value.
#[derive(Clone, Copy, Debug, PartialEq, Eq)]
pub enum XdrError {
    /// The input ends before the value does.
    Truncated,
    /// A union, boolean or optional carries a discriminant that names no variant.
    BadDiscriminant(&'static str, u32),
    /// A bit is set in an attribute bitmap for which no identifier is known.
    UnknownAttributeId(u64),
    /// A status code outside the known set.
    UnknownStatus(u32),
    /// A string that is not UTF-8.
    InvalidUtf8,
    /// A flag word with bits that have no meaning.
    InvalidFlags(u32),
    /// Octets are left over inside a length-framed body.
    TrailingBytes,
}

/// A value that has no encoding: a length that does not fit in 32 bits, or a
/// field combination the wire format cannot express.
#[derive(Clone, Copy, Debug, PartialEq, Eq)]
pub struct EncodeError;

/// A type with an XDR encoding.
///
/// `wire` and `parse` are the mathematical encoder and decoder over the type's
/// model; `encode` and `decode` are the executable ones.
pub trait Xdr: Sized {
    /// The mathematical value that an executable value stands for: sequences
    /// in place of vectors, strings and arrays.
    type Model;

    /// What `self` stands for.
    spec fn model(&self) -> Self::Model;

    /// Whether a model value can be encoded.
    spec fn wf(m: Self::Model) -> bool;

    /// The encoding of a well-formed value.
    spec fn wire(m: Self::Model) -> Seq<u8>;

    /// The value at the front of `s` and the octets that follow it.
    spec fn parse(s: Seq<u8>) -> Result<(Self::Model, Seq<u8>), XdrError>;

    /// Decoding an encoding gives the value back and leaves what followed it.
    proof fn lemma_round_trip(m: Self::Model, rest: Seq<u8>)
        requires
            Self::wf(m),
        ensures
            Self::parse(Self::wire(m) + rest) == Ok::<(Self::Model, Seq<u8>), XdrError>((m, rest)),
    ;

    /// Appends the encoding of `self` to `out`, or fails when `self` has none.
    fn encode(&self, out: &mut Vec<u8>) -> (r: Result<(), EncodeError>)
        ensures
            r is Ok <==> Self::wf(self.model()),
            r is Ok ==> final(out)@ == old(out)@ + Self::wire(self.model()),
    ;

    /// Whether `self` is, among the values that stand for the same, the one
    /// that decoding gives.
    ///
    /// Most types have one value for each thing that a value can stand for,
    /// and every value of them is canonical. A type that can hold what does
    /// not travel says here which of its values hold none of it, and a type
    /// made of others is canonical where its parts are.
    open spec fn canonical(&self) -> bool {
        true
    }

    /// Decodes one value from the front of `input`: the canonical value
    /// that stands for what is parsed there.
    fn decode<'a>(input: &'a [u8]) -> (r: Result<(Self, &'a [u8]), XdrError>)
        ensures
            match r {
                Ok((v, rest)) => {
                    &&& Self::parse(input@) == Ok::<(Self::Model, Seq<u8>), XdrError>(
                        (v.model(), rest@),
                    )
                    &&& v.canonical()
                },
                Err(e) => Self::parse(input@) == Err::<(Self::Model, Seq<u8>), XdrError>(e),
            },
    ;
}

/// Whether each of `v` is canonical.
pub open spec fn canonical_each<T: Xdr>(v: Seq<T>) -> bool {
    forall|i: int| 0 <= i < v.len() ==> (#[trigger] v[i]).canonical()
}

/// The four octets of a 32-bit word, most significant first.
#[verifier::opaque]
pub open spec fn wire_u32(v: u32) -> Seq<u8> {
    seq![
        (v / 0x100_0000) as u8,
        ((v / 0x1_0000) % 0x100) as u8,
        ((v / 0x100) % 0x100) as u8,
        (v % 0x100) as u8,
    ]
}

/// The word that four octets spell, most significant first.
pub open spec fn word_of(b0: u8, b1: u8, b2: u8, b3: u8) -> u32 {
    (b0 as int * 0x100_0000 + b1 as int * 0x1_0000 + b2 as int * 0x100 + b3 as int) as u32
}

#[verifier::opaque]
pub open spec fn parse_u32(s: Seq<u8>) -> Result<(u32, Seq<u8>), XdrError> {
    if s.len() < 4 {
        Err(XdrError::Truncated)
    } else {
        Ok((word_of(s[0], s[1], s[2], s[3]), s.skip(4)))
    }
}

pub proof fn lemma_u32_round_trip(v: u32, rest: Seq<u8>)
    ensures
        wire_u32(v).len() == 4,
        parse_u32(wire_u32(v) + rest) == Ok::<(u32, Seq<u8>), XdrError>((v, rest)),
{
    reveal(wire_u32);
    reveal(parse_u32);
    let s = wire_u32(v) + rest;
    assert(s.skip(4) =~= rest);
    assert(word_of(s[0], s[1], s[2], s[3]) == v);
}

impl Xdr for u32 {
    type Model = u32;

    open spec fn model(&self) -> u32 {
        *self
    }

    open spec fn wf(m: u32) -> bool {
        true
    }

    open spec fn wire(m: u32) -> Seq<u8> {
        wire_u32(m)
    }

    open spec fn parse(s: Seq<u8>) -> Result<(u32, Seq<u8>), XdrError> {
        parse_u32(s)
    }

    proof fn lemma_round_trip(m: u32, rest: Seq<u8>) {
        lemma_u32_round_trip(m, rest);
    }

    fn encode(&self, out: &mut Vec<u8>) -> (r: Result<(), EncodeError>) {
        let v: u32 = *self;
        out.push((v / 0x100_0000) as u8);
        out.push(((v / 0x1_0000) % 0x100) as u8);
        out.push(((v / 0x100) % 0x100) as u8);
        out.push((v % 0x100) as u8);
        proof {
            reveal(wire_u32);
        }
        assert(out@ =~= old(out)@ + wire_u32(v));
        assert(<u32 as Xdr>::wire(self.model()) == wire_u32(v));
        assert(<u32 as Xdr>::wf(self.model()));
        Ok(())
    }

    fn decode<'a>(input: &'a [u8]) -> (r: Result<(u32, &'a [u8]), XdrError>) {
        proof {
            reveal(parse_u32);
        }
        if input.len() < 4 {
            return Err(XdrError::Truncated);
        }
        let v: u32 = (input[0] as u32) * 0x100_0000
            + (input[1] as u32) * 0x1_0000
            + (input[2] as u32) * 0x100
            + (input[3] as u32);
        let rest = vstd::slice::slice_subrange(input, 4, input.len());
        assert(rest@ =~= input@.skip(4));
        Ok((v, rest))
    }
}


/// The eight octets of a 64-bit word, most significant first.
#[verifier::opaque]
pub open spec fn wire_u64(v: u64) -> Seq<u8> {
    wire_u32((v / 0x1_0000_0000) as u32) + wire_u32((v % 0x1_0000_0000) as u32)
}

#[verifier::opaque]
pub open spec fn parse_u64(s: Seq<u8>) -> Result<(u64, Seq<u8>), XdrError> {
    match parse_u32(s) {
        Ok((hi, r)) => match parse_u32(r) {
            Ok((lo, rest)) => Ok(((hi as int * 0x1_0000_0000 + lo as int) as u64, rest)),
            Err(e) => Err(e),
        },
        Err(e) => Err(e),
    }
}

pub proof fn lemma_u64_round_trip(v: u64, rest: Seq<u8>)
    ensures
        wire_u64(v).len() == 8,
        parse_u64(wire_u64(v) + rest) == Ok::<(u64, Seq<u8>), XdrError>((v, rest)),
{
    reveal(wire_u64);
    reveal(parse_u64);
    let hi = (v / 0x1_0000_0000) as u32;
    let lo = (v % 0x1_0000_0000) as u32;
    assert(wire_u64(v) + rest =~= wire_u32(hi) + (wire_u32(lo) + rest));
    lemma_u32_round_trip(hi, wire_u32(lo) + rest);
    lemma_u32_round_trip(lo, rest);
}

impl Xdr for u64 {
    type Model = u64;

    open spec fn model(&self) -> u64 {
        *self
    }

    open spec fn wf(m: u64) -> bool {
        true
    }

    open spec fn wire(m: u64) -> Seq<u8> {
        wire_u64(m)
    }

    open spec fn parse(s: Seq<u8>) -> Result<(u64, Seq<u8>), XdrError> {
        parse_u64(s)
    }

    proof fn lemma_round_trip(m: u64, rest: Seq<u8>) {
        lemma_u64_round_trip(m, rest);
    }

    fn encode(&self, out: &mut Vec<u8>) -> (r: Result<(), EncodeError>) {
        let v: u64 = *self;
        let hi: u32 = (v / 0x1_0000_0000) as u32;
        let lo: u32 = (v % 0x1_0000_0000) as u32;
        let _ = hi.encode(out);
        let _ = lo.encode(out);
        proof {
            reveal(wire_u64);
        }
        assert(out@ =~= old(out)@ + wire_u64(v));
        Ok(())
    }

    fn decode<'a>(input: &'a [u8]) -> (r: Result<(u64, &'a [u8]), XdrError>) {
        proof {
            reveal(parse_u64);
        }
        match u32::decode(input) {
            Ok((hi, r)) => match u32::decode(r) {
                Ok((lo, rest)) => Ok(((hi as u64) * 0x1_0000_0000 + (lo as u64), rest)),
                Err(e) => Err(e),
            },
            Err(e) => Err(e),
        }
    }
}

/// The 32-bit word that carries a signed value in two's complement.
pub open spec fn word_of_i32(v: i32) -> u32 {
    if v >= 0 {
        v as u32
    } else {
        (v as int + 0x1_0000_0000) as u32
    }
}

/// The signed value that a 32-bit word carries in two's complement.
pub open spec fn i32_of_word(w: u32) -> i32 {
    if w < 0x8000_0000 {
        w as i32
    } else {
        (w as int - 0x1_0000_0000) as i32
    }
}

impl Xdr for i32 {
    type Model = i32;

    open spec fn model(&self) -> i32 {
        *self
    }

    open spec fn wf(m: i32) -> bool {
        true
    }

    open spec fn wire(m: i32) -> Seq<u8> {
        wire_u32(word_of_i32(m))
    }

    open spec fn parse(s: Seq<u8>) -> Result<(i32, Seq<u8>), XdrError> {
        match parse_u32(s) {
            Ok((w, rest)) => Ok((i32_of_word(w), rest)),
            Err(e) => Err(e),
        }
    }

    proof fn lemma_round_trip(m: i32, rest: Seq<u8>) {
        lemma_u32_round_trip(word_of_i32(m), rest);
    }

    fn encode(&self, out: &mut Vec<u8>) -> (r: Result<(), EncodeError>) {
        let v: i32 = *self;
        let w: u32 = if v >= 0 {
            v as u32
        } else {
            ((v as i64) + 0x1_0000_0000) as u32
        };
        w.encode(out)
    }

    fn decode<'a>(input: &'a [u8]) -> (r: Result<(i32, &'a [u8]), XdrError>) {
        match u32::decode(input) {
            Ok((w, rest)) => {
                let v: i32 = if w < 0x8000_0000 {
                    w as i32
                } else {
                    ((w as i64) - 0x1_0000_0000) as i32
                };
                Ok((v, rest))
            },
            Err(e) => Err(e),
        }
    }
}

/// The 64-bit word that carries a signed value in two's complement.
pub open spec fn word_of_i64(v: i64) -> u64 {
    if v >= 0 {
        v as u64
    } else {
        (v as int + 0x1_0000_0000_0000_0000) as u64
    }
}

/// The signed value that a 64-bit word carries in two's complement.
pub open spec fn i64_of_word(w: u64) -> i64 {
    if w < 0x8000_0000_0000_0000 {
        w as i64
    } else {
        (w as int - 0x1_0000_0000_0000_0000) as i64
    }
}

impl Xdr for i64 {
    type Model = i64;

    open spec fn model(&self) -> i64 {
        *self
    }

    open spec fn wf(m: i64) -> bool {
        true
    }

    open spec fn wire(m: i64) -> Seq<u8> {
        wire_u64(word_of_i64(m))
    }

    open spec fn parse(s: Seq<u8>) -> Result<(i64, Seq<u8>), XdrError> {
        match parse_u64(s) {
            Ok((w, rest)) => Ok((i64_of_word(w), rest)),
            Err(e) => Err(e),
        }
    }

    proof fn lemma_round_trip(m: i64, rest: Seq<u8>) {
        lemma_u64_round_trip(word_of_i64(m), rest);
    }

    fn encode(&self, out: &mut Vec<u8>) -> (r: Result<(), EncodeError>) {
        let v: i64 = *self;
        let w: u64 = if v >= 0 {
            v as u64
        } else {
            ((v as i128) + 0x1_0000_0000_0000_0000) as u64
        };
        w.encode(out)
    }

    fn decode<'a>(input: &'a [u8]) -> (r: Result<(i64, &'a [u8]), XdrError>) {
        match u64::decode(input) {
            Ok((w, rest)) => {
                let v: i64 = if w < 0x8000_0000_0000_0000 {
                    w as i64
                } else {
                    ((w as i128) - 0x1_0000_0000_0000_0000) as i64
                };
                Ok((v, rest))
            },
            Err(e) => Err(e),
        }
    }
}

impl Xdr for bool {
    type Model = bool;

    open spec fn model(&self) -> bool {
        *self
    }

    open spec fn wf(m: bool) -> bool {
        true
    }

    open spec fn wire(m: bool) -> Seq<u8> {
        wire_u32(
            if m {
                1
            } else {
                0
            },
        )
    }

    open spec fn parse(s: Seq<u8>) -> Result<(bool, Seq<u8>), XdrError> {
        match parse_u32(s) {
            Ok((w, rest)) => if w == 0 {
                Ok((false, rest))
            } else if w == 1 {
                Ok((true, rest))
            } else {
                Err(XdrError::BadDiscriminant("bool", w))
            },
            Err(e) => Err(e),
        }
    }

    proof fn lemma_round_trip(m: bool, rest: Seq<u8>) {
        lemma_u32_round_trip(
            if m {
                1
            } else {
                0
            },
            rest,
        );
    }

    fn encode(&self, out: &mut Vec<u8>) -> (r: Result<(), EncodeError>) {
        let w: u32 = if *self {
            1
        } else {
            0
        };
        w.encode(out)
    }

    fn decode<'a>(input: &'a [u8]) -> (r: Result<(bool, &'a [u8]), XdrError>) {
        match u32::decode(input) {
            Ok((w, rest)) => if w == 0 {
                Ok((false, rest))
            } else if w == 1 {
                Ok((true, rest))
            } else {
                Err(XdrError::BadDiscriminant("bool", w))
            },
            Err(e) => Err(e),
        }
    }
}

/// The empty payload: it takes no octets.
impl Xdr for () {
    type Model = ();

    open spec fn model(&self) -> () {
        ()
    }

    open spec fn wf(m: ()) -> bool {
        true
    }

    open spec fn wire(m: ()) -> Seq<u8> {
        Seq::empty()
    }

    open spec fn parse(s: Seq<u8>) -> Result<((), Seq<u8>), XdrError> {
        Ok(((), s))
    }

    proof fn lemma_round_trip(m: (), rest: Seq<u8>) {
        assert(Seq::<u8>::empty() + rest =~= rest);
    }

    fn encode(&self, out: &mut Vec<u8>) -> (r: Result<(), EncodeError>) {
        assert(out@ =~= old(out)@ + Seq::<u8>::empty());
        Ok(())
    }

    fn decode<'a>(input: &'a [u8]) -> (r: Result<((), &'a [u8]), XdrError>) {
        Ok(((), input))
    }
}


/// Appends `data` to `out`.
pub fn extend_bytes(out: &mut Vec<u8>, data: &[u8])
    ensures
        final(out)@ == old(out)@ + data@,
{
    out.extend_from_slice(data);
    assert(out@ =~= old(out)@ + data@);
}

/// A copy of the octets of `data`.
pub fn copy_bytes(data: &[u8]) -> (r: Vec<u8>)
    ensures
        r@ == data@,
{
    let mut r: Vec<u8> = Vec::new();
    extend_bytes(&mut r, data);
    assert(r@ =~= data@);
    r
}

/// How many zero octets follow `n` octets of data to reach a multiple of four.
pub open spec fn pad_len(n: nat) -> nat {
    ((4 - n % 4) % 4) as nat
}

/// `n` zero octets.
pub open spec fn zeros(n: nat) -> Seq<u8> {
    Seq::new(n, |i: int| 0u8)
}

/// Octets of a length known to both sides: the octets, then the padding.
#[verifier::opaque]
pub open spec fn wire_fixed(b: Seq<u8>) -> Seq<u8> {
    b + zeros(pad_len(b.len()))
}

/// `n` octets of data from the front of `s`, and what follows their padding.
#[verifier::opaque]
pub open spec fn parse_fixed(n: nat, s: Seq<u8>) -> Result<(Seq<u8>, Seq<u8>), XdrError> {
    if s.len() < n + pad_len(n) {
        Err(XdrError::Truncated)
    } else {
        Ok((s.take(n as int), s.skip((n + pad_len(n)) as int)))
    }
}

pub proof fn lemma_fixed_round_trip(b: Seq<u8>, rest: Seq<u8>)
    ensures
        parse_fixed(b.len(), wire_fixed(b) + rest) == Ok::<(Seq<u8>, Seq<u8>), XdrError>(
            (b, rest),
        ),
{
    reveal(wire_fixed);
    reveal(parse_fixed);
    let s = wire_fixed(b) + rest;
    assert(s.take(b.len() as int) =~= b);
    assert(s.skip((b.len() + pad_len(b.len())) as int) =~= rest);
}

/// Appends `data` and its padding to `out`.
pub fn encode_fixed(data: &[u8], out: &mut Vec<u8>)
    ensures
        final(out)@ == old(out)@ + wire_fixed(data@),
{
    extend_bytes(out, data);
    let pad: usize = (4 - data.len() % 4) % 4;
    let mut i: usize = 0;
    while i < pad
        invariant
            i <= pad,
            pad == pad_len(data@.len()),
            out@ == old(out)@ + data@ + zeros(i as nat),
        decreases pad - i,
    {
        out.push(0u8);
        assert(zeros(i as nat).push(0u8) =~= zeros((i + 1) as nat));
        assert(out@ =~= old(out)@ + data@ + zeros((i + 1) as nat));
        i += 1;
    }
    proof {
        reveal(wire_fixed);
    }
    assert(old(out)@ + data@ + zeros(pad as nat) =~= old(out)@ + wire_fixed(data@));
}

/// Splits `n` octets of data and their padding off the front of `input`.
pub fn decode_fixed<'a>(n: usize, input: &'a [u8]) -> (r: Result<(&'a [u8], &'a [u8]), XdrError>)
    ensures
        match r {
            Ok((data, rest)) => parse_fixed(n as nat, input@) == Ok::<(Seq<u8>, Seq<u8>), XdrError>(
                (data@, rest@),
            ),
            Err(e) => parse_fixed(n as nat, input@) == Err::<(Seq<u8>, Seq<u8>), XdrError>(e),
        },
{
    proof {
        reveal(parse_fixed);
    }
    let pad: usize = (4 - n % 4) % 4;
    if input.len() < pad || input.len() - pad < n {
        return Err(XdrError::Truncated);
    }
    let data = vstd::slice::slice_subrange(input, 0, n);
    let rest = vstd::slice::slice_subrange(input, n + pad, input.len());
    assert(data@ =~= input@.take(n as int));
    assert(rest@ =~= input@.skip((n + pad) as int));
    Ok((data, rest))
}

/// Whether octets can be sent as variable-length opaque data.
pub open spec fn wf_opaque(b: Seq<u8>) -> bool {
    b.len() <= u32::MAX
}

/// Variable-length opaque data: the length, the octets, the padding.
#[verifier::opaque]
pub open spec fn wire_opaque(b: Seq<u8>) -> Seq<u8> {
    wire_u32(b.len() as u32) + wire_fixed(b)
}

#[verifier::opaque]
pub open spec fn parse_opaque(s: Seq<u8>) -> Result<(Seq<u8>, Seq<u8>), XdrError> {
    match parse_u32(s) {
        Ok((n, r)) => parse_fixed(n as nat, r),
        Err(e) => Err(e),
    }
}

pub proof fn lemma_opaque_round_trip(b: Seq<u8>, rest: Seq<u8>)
    requires
        wf_opaque(b),
    ensures
        parse_opaque(wire_opaque(b) + rest) == Ok::<(Seq<u8>, Seq<u8>), XdrError>((b, rest)),
{
    reveal(wire_opaque);
    reveal(parse_opaque);
    assert(wire_opaque(b) + rest =~= wire_u32(b.len() as u32) + (wire_fixed(b) + rest));
    lemma_u32_round_trip(b.len() as u32, wire_fixed(b) + rest);
    lemma_fixed_round_trip(b, rest);
}

/// Appends `data` as variable-length opaque data, or fails when it is too long.
pub fn encode_opaque(data: &[u8], out: &mut Vec<u8>) -> (r: Result<(), EncodeError>)
    ensures
        r is Ok <==> wf_opaque(data@),
        r is Ok ==> final(out)@ == old(out)@ + wire_opaque(data@),
{
    if data.len() > u32::MAX as usize {
        return Err(EncodeError);
    }
    let n: u32 = data.len() as u32;
    let _ = n.encode(out);
    encode_fixed(data, out);
    proof {
        reveal(wire_opaque);
    }
    assert(out@ =~= old(out)@ + wire_opaque(data@));
    Ok(())
}

/// Splits variable-length opaque data off the front of `input`.
pub fn decode_opaque<'a>(input: &'a [u8]) -> (r: Result<(&'a [u8], &'a [u8]), XdrError>)
    ensures
        match r {
            Ok((data, rest)) => parse_opaque(input@) == Ok::<(Seq<u8>, Seq<u8>), XdrError>(
                (data@, rest@),
            ),
            Err(e) => parse_opaque(input@) == Err::<(Seq<u8>, Seq<u8>), XdrError>(e),
        },
{
    proof {
        reveal(parse_opaque);
    }
    match u32::decode(input) {
        Ok((n, r)) => decode_fixed(n as usize, r),
        Err(e) => Err(e),
    }
}


/// `String::from_utf8` of std: the text that `bytes` spell in UTF-8, or `None`
/// when they are not UTF-8.
#[verifier::external_body]
fn string_from_utf8(bytes: Vec<u8>) -> (r: Option<String>)
    ensures
        r is Some <==> valid_utf8(bytes@),
        r is Some ==> r->0@ == decode_utf8(bytes@),
{
    String::from_utf8(bytes).ok()
}

/// A string travels as the opaque data of its UTF-8 octets.
impl Xdr for String {
    type Model = Seq<char>;

    open spec fn model(&self) -> Seq<char> {
        self@
    }

    open spec fn wf(m: Seq<char>) -> bool {
        wf_opaque(encode_utf8(m))
    }

    open spec fn wire(m: Seq<char>) -> Seq<u8> {
        wire_opaque(encode_utf8(m))
    }

    open spec fn parse(s: Seq<u8>) -> Result<(Seq<char>, Seq<u8>), XdrError> {
        match parse_opaque(s) {
            Ok((b, rest)) => if valid_utf8(b) {
                Ok((decode_utf8(b), rest))
            } else {
                Err(XdrError::InvalidUtf8)
            },
            Err(e) => Err(e),
        }
    }

    proof fn lemma_round_trip(m: Seq<char>, rest: Seq<u8>) {
        lemma_opaque_round_trip(encode_utf8(m), rest);
        encode_utf8_valid_utf8(m);
        encode_utf8_decode_utf8(m);
    }

    fn encode(&self, out: &mut Vec<u8>) -> (r: Result<(), EncodeError>) {
        encode_opaque(self.as_str().as_bytes(), out)
    }

    fn decode<'a>(input: &'a [u8]) -> (r: Result<(String, &'a [u8]), XdrError>) {
        match decode_opaque(input) {
            Ok((data, rest)) => match string_from_utf8(copy_bytes(data)) {
                Some(text) => Ok((text, rest)),
                None => Err(XdrError::InvalidUtf8),
            },
            Err(e) => Err(e),
        }
    }
}

/// The models of the items of a vector, in order.
pub open spec fn models<T: Xdr>(v: Seq<T>) -> Seq<T::Model> {
    Seq::new(v.len(), |i: int| v[i].model())
}

/// Whether every item can be encoded.
pub open spec fn wf_each<T: Xdr>(ms: Seq<T::Model>) -> bool {
    forall|i: int| 0 <= i < ms.len() ==> T::wf(#[trigger] ms[i])
}

/// The encodings of the items, one after another.
#[verifier::opaque]
pub open spec fn wire_each<T: Xdr>(ms: Seq<T::Model>) -> Seq<u8>
    decreases ms.len(),
{
    if ms.len() == 0 {
        Seq::empty()
    } else {
        T::wire(ms[0]) + wire_each::<T>(ms.drop_first())
    }
}

/// `n` items from the front of `s`, and what follows them.
#[verifier::opaque]
pub open spec fn parse_each<T: Xdr>(
    n: nat,
    s: Seq<u8>,
) -> Result<(Seq<T::Model>, Seq<u8>), XdrError>
    decreases n,
{
    if n == 0 {
        Ok((Seq::empty(), s))
    } else {
        match T::parse(s) {
            Ok((m, r)) => match parse_each::<T>((n - 1) as nat, r) {
                Ok((ms, rest)) => Ok((seq![m] + ms, rest)),
                Err(e) => Err(e),
            },
            Err(e) => Err(e),
        }
    }
}

/// What `parse_each` gives for `n` items when the first `acc.len()` of them
/// are `acc` and `r` is the result for the others.
pub open spec fn after_items<M>(
    acc: Seq<M>,
    r: Result<(Seq<M>, Seq<u8>), XdrError>,
) -> Result<(Seq<M>, Seq<u8>), XdrError> {
    match r {
        Ok((ms, rest)) => Ok((acc + ms, rest)),
        Err(e) => Err(e),
    }
}

pub proof fn lemma_wire_each_push<T: Xdr>(ms: Seq<T::Model>, m: T::Model)
    ensures
        wire_each::<T>(ms.push(m)) == wire_each::<T>(ms) + T::wire(m),
    decreases ms.len(),
{
    reveal(wire_each);
    if ms.len() == 0 {
        let one = ms.push(m);
        assert(one.drop_first() =~= ms);
        assert(one[0] == m);
        assert(wire_each::<T>(ms) =~= Seq::<u8>::empty());
        assert(wire_each::<T>(one) == T::wire(m) + wire_each::<T>(one.drop_first()));
        assert(wire_each::<T>(one) =~= wire_each::<T>(ms) + T::wire(m));
    } else {
        let all = ms.push(m);
        assert(all[0] == ms[0]);
        assert(wire_each::<T>(all) == T::wire(all[0]) + wire_each::<T>(all.drop_first()));
        assert(ms.push(m).drop_first() =~= ms.drop_first().push(m));
        lemma_wire_each_push::<T>(ms.drop_first(), m);
        assert(wire_each::<T>(ms.push(m)) =~= wire_each::<T>(ms) + T::wire(m));
    }
}

pub proof fn lemma_each_round_trip<T: Xdr>(ms: Seq<T::Model>, rest: Seq<u8>)
    requires
        wf_each::<T>(ms),
    ensures
        parse_each::<T>(ms.len(), wire_each::<T>(ms) + rest) == Ok::<
            (Seq<T::Model>, Seq<u8>),
            XdrError,
        >((ms, rest)),
    decreases ms.len(),
{
    reveal(wire_each);
    reveal(parse_each);
    if ms.len() == 0 {
        assert(wire_each::<T>(ms) + rest =~= rest);
        assert(ms =~= Seq::<T::Model>::empty());
    } else {
        let tail = ms.drop_first();
        assert(wire_each::<T>(ms) + rest =~= T::wire(ms[0]) + (wire_each::<T>(tail) + rest));
        T::lemma_round_trip(ms[0], wire_each::<T>(tail) + rest);
        assert(wf_each::<T>(tail)) by {
            assert forall|i: int| 0 <= i < tail.len() implies T::wf(#[trigger] tail[i]) by {
                assert(tail[i] == ms[i + 1]);
            }
        }
        lemma_each_round_trip::<T>(tail, rest);
        assert(seq![ms[0]] + tail =~= ms);
    }
}

/// One more item parsed: the result for the whole does not change.
pub proof fn lemma_parse_each_step<T: Xdr>(acc: Seq<T::Model>, n: nat, s: Seq<u8>)
    requires
        n > 0,
    ensures
        after_items(acc, parse_each::<T>(n, s)) == match T::parse(s) {
            Ok((m, r)) => after_items(acc.push(m), parse_each::<T>((n - 1) as nat, r)),
            Err(e) => Err(e),
        },
{
    reveal(parse_each);
    match T::parse(s) {
        Ok((m, r)) => {
            match parse_each::<T>((n - 1) as nat, r) {
                Ok((ms, rest)) => {
                    assert(acc + (seq![m] + ms) =~= acc.push(m) + ms);
                },
                Err(e) => {},
            }
        },
        Err(e) => {},
    }
}

/// Appends the encoding of each item of `items` to `out`.
pub fn encode_each<T: Xdr>(items: &Vec<T>, out: &mut Vec<u8>) -> (r: Result<(), EncodeError>)
    ensures
        r is Ok <==> wf_each::<T>(models(items@)),
        r is Ok ==> final(out)@ == old(out)@ + wire_each::<T>(models(items@)),
{
    let ghost ms = models(items@);
    let mut i: usize = 0;
    proof {
        reveal(wire_each);
        assert(out@ =~= old(out)@ + wire_each::<T>(ms.take(0)));
    }
    while i < items.len()
        invariant
            i <= items.len(),
            ms == models(items@),
            wf_each::<T>(ms.take(i as int)),
            out@ == old(out)@ + wire_each::<T>(ms.take(i as int)),
        decreases items.len() - i,
    {
        match items[i].encode(out) {
            Ok(()) => {},
            Err(e) => {
                assert(!T::wf(ms[i as int]));
                return Err(e);
            },
        }
        proof {
            assert(ms.take(i + 1) =~= ms.take(i as int).push(ms[i as int]));
            lemma_wire_each_push::<T>(ms.take(i as int), ms[i as int]);
            assert(out@ =~= old(out)@ + wire_each::<T>(ms.take(i + 1)));
            assert forall|j: int| 0 <= j < ms.take(i + 1).len() implies T::wf(
                #[trigger] ms.take(i + 1)[j],
            ) by {
                if j < i {
                    assert(ms.take(i as int)[j] == ms[j]);
                }
            }
        }
        i += 1;
    }
    assert(ms.take(i as int) =~= ms);
    Ok(())
}

/// Decodes `n` items from the front of `input`.
pub fn decode_each<'a, T: Xdr>(
    n: usize,
    input: &'a [u8],
) -> (r: Result<(Vec<T>, &'a [u8]), XdrError>)
    ensures
        match r {
            Ok((v, rest)) => parse_each::<T>(n as nat, input@) == Ok::<
                (Seq<T::Model>, Seq<u8>),
                XdrError,
            >((models(v@), rest@)),
            Err(e) => {
                parse_each::<T>(n as nat, input@)
                    == Err::<(Seq<T::Model>, Seq<u8>), XdrError>(e)
            },
        },
        r is Ok ==> r->Ok_0.0@.len() == n,
        r is Ok ==> canonical_each(r->Ok_0.0@),
{
    let mut items: Vec<T> = Vec::new();
    let mut cur: &'a [u8] = input;
    let mut i: usize = 0;
    proof {
        reveal(parse_each);
        assert(models(items@) =~= Seq::<T::Model>::empty());
        match parse_each::<T>(n as nat, input@) {
            Ok((ms, rest)) => {
                assert(models(items@) + ms =~= ms);
            },
            Err(e) => {},
        }
    }
    while i < n
        invariant
            i <= n,
            items@.len() == i,
            canonical_each(items@),
            parse_each::<T>(n as nat, input@) == after_items(
                models(items@),
                parse_each::<T>((n - i) as nat, cur@),
            ),
        decreases n - i,
    {
        proof {
            lemma_parse_each_step::<T>(models(items@), (n - i) as nat, cur@);
        }
        match T::decode(cur) {
            Ok((v, rest)) => {
                let ghost before = models(items@);
                items.push(v);
                assert(models(items@) =~= before.push(v.model()));
                cur = rest;
            },
            Err(e) => {
                return Err(e);
            },
        }
        i += 1;
    }
    proof {
        reveal(parse_each);
        assert(models(items@) + Seq::<T::Model>::empty() =~= models(items@));
    }
    Ok((items, cur))
}

/// A variable-length array: the count, then the items.
impl<T: Xdr> Xdr for Vec<T> {
    type Model = Seq<T::Model>;

    open spec fn model(&self) -> Seq<T::Model> {
        models(self@)
    }

    open spec fn canonical(&self) -> bool {
        canonical_each(self@)
    }

    open spec fn wf(m: Seq<T::Model>) -> bool {
        m.len() <= u32::MAX && wf_each::<T>(m)
    }

    open spec fn wire(m: Seq<T::Model>) -> Seq<u8> {
        wire_u32(m.len() as u32) + wire_each::<T>(m)
    }

    open spec fn parse(s: Seq<u8>) -> Result<(Seq<T::Model>, Seq<u8>), XdrError> {
        match parse_u32(s) {
            Ok((n, r)) => parse_each::<T>(n as nat, r),
            Err(e) => Err(e),
        }
    }

    proof fn lemma_round_trip(m: Seq<T::Model>, rest: Seq<u8>) {
        assert(Self::wire(m) + rest =~= wire_u32(m.len() as u32) + (wire_each::<T>(m) + rest));
        lemma_u32_round_trip(m.len() as u32, wire_each::<T>(m) + rest);
        lemma_each_round_trip::<T>(m, rest);
    }

    fn encode(&self, out: &mut Vec<u8>) -> (r: Result<(), EncodeError>) {
        if self.len() > u32::MAX as usize {
            return Err(EncodeError);
        }
        let n: u32 = self.len() as u32;
        let _ = n.encode(out);
        match encode_each(self, out) {
            Ok(()) => {
                assert(out@ =~= old(out)@ + Self::wire(self.model()));
                Ok(())
            },
            Err(e) => Err(e),
        }
    }

    fn decode<'a>(input: &'a [u8]) -> (r: Result<(Vec<T>, &'a [u8]), XdrError>) {
        match u32::decode(input) {
            Ok((n, r)) => decode_each::<T>(n as usize, r),
            Err(e) => Err(e),
        }
    }
}

/// An optional value: a flag, then the value when the flag is 1.
impl<T: Xdr> Xdr for Option<T> {
    type Model = Option<T::Model>;

    open spec fn model(&self) -> Option<T::Model> {
        match self {
            Some(v) => Some(v.model()),
            None => None,
        }
    }

    open spec fn canonical(&self) -> bool {
        match self {
            Some(v) => v.canonical(),
            None => true,
        }
    }

    open spec fn wf(m: Option<T::Model>) -> bool {
        match m {
            Some(v) => T::wf(v),
            None => true,
        }
    }

    open spec fn wire(m: Option<T::Model>) -> Seq<u8> {
        match m {
            Some(v) => wire_u32(1) + T::wire(v),
            None => wire_u32(0),
        }
    }

    open spec fn parse(s: Seq<u8>) -> Result<(Option<T::Model>, Seq<u8>), XdrError> {
        match parse_u32(s) {
            Ok((flag, r)) => if flag == 0 {
                Ok((None, r))
            } else if flag == 1 {
                match T::parse(r) {
                    Ok((v, rest)) => Ok((Some(v), rest)),
                    Err(e) => Err(e),
                }
            } else {
                Err(XdrError::BadDiscriminant("Option", flag))
            },
            Err(e) => Err(e),
        }
    }

    proof fn lemma_round_trip(m: Option<T::Model>, rest: Seq<u8>) {
        match m {
            Some(v) => {
                assert(Self::wire(m) + rest =~= wire_u32(1) + (T::wire(v) + rest));
                lemma_u32_round_trip(1, T::wire(v) + rest);
                T::lemma_round_trip(v, rest);
            },
            None => {
                lemma_u32_round_trip(0, rest);
            },
        }
    }

    fn encode(&self, out: &mut Vec<u8>) -> (r: Result<(), EncodeError>) {
        match self {
            Some(v) => {
                let flag: u32 = 1;
                let _ = flag.encode(out);
                match v.encode(out) {
                    Ok(()) => {
                        assert(out@ =~= old(out)@ + Self::wire(self.model()));
                        Ok(())
                    },
                    Err(e) => Err(e),
                }
            },
            None => {
                let flag: u32 = 0;
                flag.encode(out)
            },
        }
    }

    fn decode<'a>(input: &'a [u8]) -> (r: Result<(Option<T>, &'a [u8]), XdrError>) {
        match u32::decode(input) {
            Ok((flag, r)) => if flag == 0 {
                Ok((None, r))
            } else if flag == 1 {
                match T::decode(r) {
                    Ok((v, rest)) => Ok((Some(v), rest)),
                    Err(e) => Err(e),
                }
            } else {
                Err(XdrError::BadDiscriminant("Option", flag))
            },
            Err(e) => Err(e),
        }
    }
}


/// Decodes an array of `N` octets and its padding from the front of `input`.
pub fn decode_array<'a, const N: usize>(
    input: &'a [u8],
) -> (r: Result<([u8; N], &'a [u8]), XdrError>)
    ensures
        match r {
            Ok((a, rest)) => parse_fixed(N as nat, input@) == Ok::<(Seq<u8>, Seq<u8>), XdrError>(
                (a@, rest@),
            ),
            Err(e) => parse_fixed(N as nat, input@) == Err::<(Seq<u8>, Seq<u8>), XdrError>(e),
        },
{
    proof {
        reveal(parse_fixed);
    }
    match decode_fixed(N, input) {
        Ok((data, rest)) => {
            let mut a: [u8; N] = vstd::array::array_fill_for_copy_types(0u8);
            let mut i: usize = 0;
            while i < N
                invariant
                    i <= N,
                    data@.len() == N,
                    forall|j: int| 0 <= j < i ==> a@[j] == data@[j],
                decreases N - i,
            {
                a[i] = data[i];
                i += 1;
            }
            assert(a@ =~= data@);
            Ok((a, rest))
        },
        Err(e) => Err(e),
    }
}


/// Concatenation is associative.
pub proof fn lemma_concat_assoc(a: Seq<u8>, b: Seq<u8>, c: Seq<u8>)
    ensures
        (a + b) + c == a + (b + c),
{
    assert((a + b) + c =~= a + (b + c));
}


/// The items of a list, each after a flag of 1.
#[verifier::opaque]
pub open spec fn wire_flagged<T: Xdr>(ms: Seq<T::Model>) -> Seq<u8>
    decreases ms.len(),
{
    if ms.len() == 0 {
        Seq::empty()
    } else {
        wire_u32(1) + T::wire(ms[0]) + wire_flagged::<T>(ms.drop_first())
    }
}

/// A list without a count: before each item a flag of 1, after the last a flag
/// of 0.
pub open spec fn wire_list<T: Xdr>(ms: Seq<T::Model>) -> Seq<u8> {
    wire_flagged::<T>(ms) + wire_u32(0)
}

/// The items of a list at the front of `s`, and what follows its closing flag.
///
/// An item that takes no octets would make the list endless: input that holds
/// one is rejected as truncated.
#[verifier::opaque]
pub open spec fn parse_list<T: Xdr>(s: Seq<u8>) -> Result<(Seq<T::Model>, Seq<u8>), XdrError>
    decreases s.len(),
{
    match parse_u32(s) {
        Ok((flag, r)) => if flag == 0 {
            Ok((Seq::empty(), r))
        } else if flag == 1 {
            match T::parse(r) {
                Ok((m, r2)) => if r2.len() < s.len() {
                    match parse_list::<T>(r2) {
                        Ok((ms, rest)) => Ok((seq![m] + ms, rest)),
                        Err(e) => Err(e),
                    }
                } else {
                    Err(XdrError::Truncated)
                },
                Err(e) => Err(e),
            }
        } else {
            Err(XdrError::BadDiscriminant("Option", flag))
        },
        Err(e) => Err(e),
    }
}

pub proof fn lemma_wire_flagged_push<T: Xdr>(ms: Seq<T::Model>, m: T::Model)
    ensures
        wire_flagged::<T>(ms.push(m)) == wire_flagged::<T>(ms) + wire_u32(1) + T::wire(m),
    decreases ms.len(),
{
    reveal(wire_flagged);
    let all = ms.push(m);
    let item = wire_u32(1) + T::wire(m);
    if ms.len() == 0 {
        assert(all.drop_first() =~= ms);
        assert(all[0] == m);
        assert(wire_flagged::<T>(ms) =~= Seq::<u8>::empty());
        assert(wire_flagged::<T>(all) == item + wire_flagged::<T>(all.drop_first()));
        assert(wire_flagged::<T>(all) =~= wire_flagged::<T>(ms) + wire_u32(1) + T::wire(m));
    } else {
        assert(all.drop_first() =~= ms.drop_first().push(m));
        assert(all[0] == ms[0]);
        lemma_wire_flagged_push::<T>(ms.drop_first(), m);
        let head = wire_u32(1) + T::wire(ms[0]);
        let tail = wire_flagged::<T>(ms.drop_first());
        assert(wire_flagged::<T>(all) == head + (tail + wire_u32(1) + T::wire(m)));
        assert(head + (tail + wire_u32(1) + T::wire(m)) =~= (head + tail) + wire_u32(1) + T::wire(
            m,
        ));
    }
}

pub proof fn lemma_list_round_trip<T: Xdr>(ms: Seq<T::Model>, rest: Seq<u8>)
    requires
        wf_each::<T>(ms),
    ensures
        parse_list::<T>(wire_list::<T>(ms) + rest) == Ok::<(Seq<T::Model>, Seq<u8>), XdrError>(
            (ms, rest),
        ),
    decreases ms.len(),
{
    reveal(wire_flagged);
    reveal(parse_list);
    if ms.len() == 0 {
        assert(wire_list::<T>(ms) + rest =~= wire_u32(0) + rest);
        lemma_u32_round_trip(0, rest);
        assert(ms =~= Seq::<T::Model>::empty());
    } else {
        let tail = ms.drop_first();
        let s = wire_list::<T>(ms) + rest;
        let after = wire_list::<T>(tail) + rest;
        assert(s =~= wire_u32(1) + (T::wire(ms[0]) + after));
        lemma_u32_round_trip(1, T::wire(ms[0]) + after);
        T::lemma_round_trip(ms[0], after);
        assert(after.len() < s.len());
        assert(wf_each::<T>(tail)) by {
            assert forall|i: int| 0 <= i < tail.len() implies T::wf(#[trigger] tail[i]) by {
                assert(tail[i] == ms[i + 1]);
            }
        }
        lemma_list_round_trip::<T>(tail, rest);
        assert(seq![ms[0]] + tail =~= ms);
    }
}

/// One more item of a list parsed: the result for the whole does not change.
pub proof fn lemma_parse_list_step<T: Xdr>(acc: Seq<T::Model>, s: Seq<u8>)
    ensures
        after_items(acc, parse_list::<T>(s)) == match parse_u32(s) {
            Ok((flag, r)) => if flag == 0 {
                Ok::<(Seq<T::Model>, Seq<u8>), XdrError>((acc, r))
            } else if flag == 1 {
                match T::parse(r) {
                    Ok((m, r2)) => if r2.len() < s.len() {
                        after_items(acc.push(m), parse_list::<T>(r2))
                    } else {
                        Err(XdrError::Truncated)
                    },
                    Err(e) => Err(e),
                }
            } else {
                Err(XdrError::BadDiscriminant("Option", flag))
            },
            Err(e) => Err(e),
        },
{
    reveal(parse_list);
    match parse_u32(s) {
        Ok((flag, r)) => {
            if flag == 0 {
                assert(acc + Seq::<T::Model>::empty() =~= acc);
            } else if flag == 1 {
                match T::parse(r) {
                    Ok((m, r2)) => {
                        if r2.len() < s.len() {
                            match parse_list::<T>(r2) {
                                Ok((ms, rest)) => {
                                    assert(acc + (seq![m] + ms) =~= acc.push(m) + ms);
                                },
                                Err(e) => {},
                            }
                        }
                    },
                    Err(e) => {},
                }
            }
        },
        Err(e) => {},
    }
}

/// Appends `items` to `out` as a list without a count.
pub fn encode_list<T: Xdr>(items: &Vec<T>, out: &mut Vec<u8>) -> (r: Result<(), EncodeError>)
    ensures
        r is Ok <==> wf_each::<T>(models(items@)),
        r is Ok ==> final(out)@ == old(out)@ + wire_list::<T>(models(items@)),
{
    let ghost ms = models(items@);
    let mut i: usize = 0;
    proof {
        reveal(wire_flagged);
        assert(out@ =~= old(out)@ + wire_flagged::<T>(ms.take(0)));
    }
    while i < items.len()
        invariant
            i <= items.len(),
            ms == models(items@),
            wf_each::<T>(ms.take(i as int)),
            out@ == old(out)@ + wire_flagged::<T>(ms.take(i as int)),
        decreases items.len() - i,
    {
        let ghost before = ms.take(i as int);
        let flag: u32 = 1;
        let _ = flag.encode(out);
        match items[i].encode(out) {
            Ok(()) => {},
            Err(e) => {
                assert(!T::wf(ms[i as int]));
                return Err(e);
            },
        }
        proof {
            assert(ms.take(i + 1) =~= before.push(ms[i as int]));
            lemma_wire_flagged_push::<T>(before, ms[i as int]);
            lemma_concat_assoc(old(out)@, wire_flagged::<T>(before), wire_u32(1));
            lemma_concat_assoc(
                old(out)@,
                wire_flagged::<T>(before) + wire_u32(1),
                T::wire(ms[i as int]),
            );
            assert forall|j: int| 0 <= j < ms.take(i + 1).len() implies T::wf(
                #[trigger] ms.take(i + 1)[j],
            ) by {
                if j < i {
                    assert(before[j] == ms[j]);
                }
            }
        }
        i += 1;
    }
    let flag: u32 = 0;
    let _ = flag.encode(out);
    proof {
        assert(ms.take(i as int) =~= ms);
        lemma_concat_assoc(old(out)@, wire_flagged::<T>(ms), wire_u32(0));
    }
    Ok(())
}

/// Decodes a list without a count from the front of `input`.
pub fn decode_list<'a, T: Xdr>(input: &'a [u8]) -> (r: Result<(Vec<T>, &'a [u8]), XdrError>)
    ensures
        match r {
            Ok((v, rest)) => parse_list::<T>(input@) == Ok::<(Seq<T::Model>, Seq<u8>), XdrError>(
                (models(v@), rest@),
            ),
            Err(e) => parse_list::<T>(input@) == Err::<(Seq<T::Model>, Seq<u8>), XdrError>(e),
        },
        r is Ok ==> canonical_each(r->Ok_0.0@),
{
    let mut items: Vec<T> = Vec::new();
    let mut cur: &'a [u8] = input;
    proof {
        assert(models(items@) =~= Seq::<T::Model>::empty());
        match parse_list::<T>(input@) {
            Ok((ms, rest)) => {
                assert(models(items@) + ms =~= ms);
            },
            Err(e) => {},
        }
    }
    loop
        invariant
            canonical_each(items@),
            parse_list::<T>(input@) == after_items(models(items@), parse_list::<T>(cur@)),
        decreases cur@.len(),
    {
        proof {
            lemma_parse_list_step::<T>(models(items@), cur@);
        }
        let (flag, r) = u32::decode(cur)?;
        if flag == 0 {
            return Ok((items, r));
        } else if flag != 1 {
            return Err(XdrError::BadDiscriminant("Option", flag));
        }
        let (v, r2) = T::decode(r)?;
        if r2.len() >= cur.len() {
            return Err(XdrError::Truncated);
        }
        let ghost before = models(items@);
        items.push(v);
        assert(models(items@) =~= before.push(v.model()));
        cur = r2;
    }
}


/// The value at the front of `s`. What follows it is let pass.
pub open spec fn parse_value<T: Xdr>(s: Seq<u8>) -> Result<T::Model, XdrError> {
    match T::parse(s) {
        Ok((m, _)) => Ok(m),
        Err(e) => Err(e),
    }
}

/// Decoding the encoding of a value gives the value back.
pub proof fn lemma_value_round_trip<T: Xdr>(m: T::Model)
    requires
        T::wf(m),
    ensures
        parse_value::<T>(T::wire(m)) == Ok::<T::Model, XdrError>(m),
{
    T::lemma_round_trip(m, Seq::empty());
    assert(T::wire(m) + Seq::<u8>::empty() =~= T::wire(m));
}

/// A tagged union: a value of one of several variants, which travels as the
/// discriminant of its variant and then what the variant holds.
pub trait Tagged: Xdr {
    /// The discriminant of the variant of a value.
    spec fn discriminant(m: Self::Model) -> u32;

    /// The encoding of a value begins with its discriminant.
    proof fn lemma_leads_with_discriminant(m: Self::Model)
        ensures
            Self::wire(m).len() >= 4,
            Self::wire(m).take(4) == wire_u32(Self::discriminant(m)),
    ;
}

/// Whatever the tagged union and whatever the value: the first four octets
/// of its encoding are the discriminant of its variant, most significant
/// first.
pub proof fn lemma_discriminant_leads<T: Tagged>(m: T::Model)
    ensures
        T::wire(m).len() >= 4,
        T::wire(m)[0] == (T::discriminant(m) / 0x100_0000) as u8,
        T::wire(m)[1] == ((T::discriminant(m) / 0x1_0000) % 0x100) as u8,
        T::wire(m)[2] == ((T::discriminant(m) / 0x100) % 0x100) as u8,
        T::wire(m)[3] == (T::discriminant(m) % 0x100) as u8,
{
    T::lemma_leads_with_discriminant(m);
    reveal(wire_u32);
    let head = T::wire(m).take(4);
    assert(head[0] == T::wire(m)[0]);
    assert(head[1] == T::wire(m)[1]);
    assert(head[2] == T::wire(m)[2]);
    assert(head[3] == T::wire(m)[3]);
}

/// The encoding of `value`, or an error when it has none.
pub fn to_bytes<T: Xdr>(value: &T) -> (r: Result<Vec<u8>, EncodeError>)
    ensures
        r is Ok <==> T::wf(value.model()),
        r is Ok ==> r->Ok_0@ == T::wire(value.model()),
{
    let mut out: Vec<u8> = Vec::new();
    value.encode(&mut out)?;
    assert(out@ =~= T::wire(value.model()));
    Ok(out)
}

/// The value at the front of `bytes`. What follows it is let pass.
pub fn from_bytes<T: Xdr>(bytes: &[u8]) -> (r: Result<T, XdrError>)
    ensures
        match r {
            Ok(v) => parse_value::<T>(bytes@) == Ok::<T::Model, XdrError>(v.model())
                && v.canonical(),
            Err(e) => parse_value::<T>(bytes@) == Err::<T::Model, XdrError>(e),
        },
{
    match T::decode(bytes) {
        Ok((v, _)) => Ok(v),
        Err(e) => Err(e),
    }
}

} // verus!
