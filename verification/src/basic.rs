//! The small values that the operations of NFSv4.1 are made of: handles,
//! state identifiers, times, counters and opaque tokens.

use crate::xdr::{
    copy_bytes, decode_array, decode_opaque, encode_fixed, encode_opaque, lemma_concat_assoc,
    lemma_fixed_round_trip, lemma_opaque_round_trip, lemma_u32_round_trip, parse_fixed,
    parse_opaque, parse_u32, wf_opaque, wire_fixed, wire_opaque, wire_u32, zeros, EncodeError, Xdr,
    XdrError,
};
use crate::xdr::Tagged;
use vstd::prelude::*;

verus! {

/// The identifier of open, lock or delegation state: a sequence number and
/// twelve opaque octets.
#[derive(Clone, Copy, Debug, PartialEq, Eq)]
pub struct StateId {
    pub sequence_id: u32,
    pub other: [u8; 12],
}

/// What a [`StateId`] stands for.
pub struct StateIdModel {
    pub sequence_id: u32,
    pub other: Seq<u8>,
}

impl Xdr for StateId {
    type Model = StateIdModel;

    #[verifier::opaque]
    open spec fn model(&self) -> StateIdModel {
        StateIdModel { sequence_id: self.sequence_id.model(), other: self.other@ }
    }

    #[verifier::opaque]
    open spec fn wf(m: StateIdModel) -> bool {
        &&& m.other.len() == 12
    }

    #[verifier::opaque]
    open spec fn wire(m: StateIdModel) -> Seq<u8> {
        u32::wire(m.sequence_id) + wire_fixed(m.other)
    }

    #[verifier::opaque]
    open spec fn parse(s: Seq<u8>) -> Result<(StateIdModel, Seq<u8>), XdrError> {
        match u32::parse(s) {
            Err(e) => Err(e),
            Ok((sequence_id, s1)) => match parse_fixed(12, s1) {
                Err(e) => Err(e),
                Ok((other, s2)) => Ok((StateIdModel { sequence_id, other }, s2)),
            },
        }
    }

    proof fn lemma_round_trip(m: StateIdModel, rest: Seq<u8>) {
        reveal(<StateId as Xdr>::wf);
        reveal(<StateId as Xdr>::wire);
        reveal(<StateId as Xdr>::parse);
        let w1 = u32::wire(m.sequence_id);
        let w2 = wire_fixed(m.other);
        let r2 = rest;
        let r1 = w2 + r2;
        lemma_concat_assoc(w1, w2, r2);
        u32::lemma_round_trip(m.sequence_id, r1);
        lemma_fixed_round_trip(m.other, r2);
    }

    fn encode(&self, out: &mut Vec<u8>) -> (r: Result<(), EncodeError>) {
        proof {
            reveal(<StateId as Xdr>::model);
            reveal(<StateId as Xdr>::wf);
            reveal(<StateId as Xdr>::wire);
        }
        let ghost m = self.model();
        let ghost w1 = u32::wire(m.sequence_id);
        let ghost w2 = wire_fixed(m.other);
        let _ = self.sequence_id.encode(out);
        encode_fixed(self.other.as_slice(), out);
        proof {
            lemma_concat_assoc(old(out)@, w1, w2);
        }
        Ok(())
    }

    fn decode<'a>(input: &'a [u8]) -> (r: Result<(StateId, &'a [u8]), XdrError>) {
        proof {
            reveal(<StateId as Xdr>::model);
            reveal(<StateId as Xdr>::parse);
        }
        let (sequence_id, cur) = u32::decode(input)?;
        let (other, cur) = decode_array::<12>(cur)?;
        Ok((StateId { sequence_id, other }, cur))
    }
}

impl StateId {
    /// The anonymous state identifier: all zeros.
    pub fn anonymous() -> (r: Self)
        ensures
            r.sequence_id == 0,
            r.other@ == zeros(12),
    {
        let r = StateId { sequence_id: 0, other: [0u8; 12] };
        assert(r.other@ =~= zeros(12));
        r
    }
}

/// The sequence number of a request within a session or an owner.
#[derive(Clone, Copy, Debug, PartialEq, Eq)]
pub struct SequenceId(pub u32);

impl Xdr for SequenceId {
    type Model = SequenceId;

    open spec fn model(&self) -> SequenceId {
        *self
    }

    open spec fn wf(m: SequenceId) -> bool {
        true
    }

    #[verifier::opaque]
    open spec fn wire(m: SequenceId) -> Seq<u8> {
        u32::wire(m.0)
    }

    #[verifier::opaque]
    open spec fn parse(s: Seq<u8>) -> Result<(SequenceId, Seq<u8>), XdrError> {
        match u32::parse(s) {
            Err(e) => Err(e),
            Ok((f0, s1)) => Ok((SequenceId(f0), s1)),
        }
    }

    proof fn lemma_round_trip(m: SequenceId, rest: Seq<u8>) {
        reveal(<SequenceId as Xdr>::wire);
        reveal(<SequenceId as Xdr>::parse);
        u32::lemma_round_trip(m.0, rest);
    }

    fn encode(&self, out: &mut Vec<u8>) -> (r: Result<(), EncodeError>) {
        proof {
            reveal(<SequenceId as Xdr>::wire);
        }
        let _ = self.0.encode(out);
        Ok(())
    }

    fn decode<'a>(input: &'a [u8]) -> (r: Result<(SequenceId, &'a [u8]), XdrError>) {
        proof {
            reveal(<SequenceId as Xdr>::parse);
        }
        let (f0, cur) = u32::decode(input)?;
        Ok((SequenceId(f0), cur))
    }
}

impl SequenceId {
    /// Moves on to the next sequence number.
    pub fn incr(&mut self)
        requires
            old(self).0 < u32::MAX,
        ensures
            final(self).0 == old(self).0 + 1,
    {
        self.0 += 1;
    }
}

#[derive(Clone, Debug, PartialEq, Eq)]
pub struct DeviceData {
    pub major: u32,
    pub minor: u32,
}

impl Xdr for DeviceData {
    type Model = DeviceData;

    open spec fn model(&self) -> DeviceData {
        *self
    }

    open spec fn wf(m: DeviceData) -> bool {
        true
    }

    #[verifier::opaque]
    open spec fn wire(m: DeviceData) -> Seq<u8> {
        u32::wire(m.major) + u32::wire(m.minor)
    }

    #[verifier::opaque]
    open spec fn parse(s: Seq<u8>) -> Result<(DeviceData, Seq<u8>), XdrError> {
        match u32::parse(s) {
            Err(e) => Err(e),
            Ok((major, s1)) => match u32::parse(s1) {
                Err(e) => Err(e),
                Ok((minor, s2)) => Ok((DeviceData { major, minor }, s2)),
            },
        }
    }

    proof fn lemma_round_trip(m: DeviceData, rest: Seq<u8>) {
        reveal(<DeviceData as Xdr>::wire);
        reveal(<DeviceData as Xdr>::parse);
        let w1 = u32::wire(m.major);
        let w2 = u32::wire(m.minor);
        let r2 = rest;
        let r1 = w2 + r2;
        lemma_concat_assoc(w1, w2, r2);
        u32::lemma_round_trip(m.major, r1);
        u32::lemma_round_trip(m.minor, r2);
    }

    fn encode(&self, out: &mut Vec<u8>) -> (r: Result<(), EncodeError>) {
        proof {
            reveal(<DeviceData as Xdr>::wire);
        }
        let ghost m = self.model();
        let ghost w1 = u32::wire(m.major);
        let ghost w2 = u32::wire(m.minor);
        let _ = self.major.encode(out);
        let _ = self.minor.encode(out);
        proof {
            lemma_concat_assoc(old(out)@, w1, w2);
        }
        Ok(())
    }

    fn decode<'a>(input: &'a [u8]) -> (r: Result<(DeviceData, &'a [u8]), XdrError>) {
        proof {
            reveal(<DeviceData as Xdr>::parse);
        }
        let (major, cur) = u32::decode(input)?;
        let (minor, cur) = u32::decode(cur)?;
        Ok((DeviceData { major, minor }, cur))
    }
}

#[derive(Clone, Copy, Debug, PartialEq, Eq)]
pub struct FsId {
    pub major: u64,
    pub minor: u64,
}

impl Xdr for FsId {
    type Model = FsId;

    open spec fn model(&self) -> FsId {
        *self
    }

    open spec fn wf(m: FsId) -> bool {
        true
    }

    #[verifier::opaque]
    open spec fn wire(m: FsId) -> Seq<u8> {
        u64::wire(m.major) + u64::wire(m.minor)
    }

    #[verifier::opaque]
    open spec fn parse(s: Seq<u8>) -> Result<(FsId, Seq<u8>), XdrError> {
        match u64::parse(s) {
            Err(e) => Err(e),
            Ok((major, s1)) => match u64::parse(s1) {
                Err(e) => Err(e),
                Ok((minor, s2)) => Ok((FsId { major, minor }, s2)),
            },
        }
    }

    proof fn lemma_round_trip(m: FsId, rest: Seq<u8>) {
        reveal(<FsId as Xdr>::wire);
        reveal(<FsId as Xdr>::parse);
        let w1 = u64::wire(m.major);
        let w2 = u64::wire(m.minor);
        let r2 = rest;
        let r1 = w2 + r2;
        lemma_concat_assoc(w1, w2, r2);
        u64::lemma_round_trip(m.major, r1);
        u64::lemma_round_trip(m.minor, r2);
    }

    fn encode(&self, out: &mut Vec<u8>) -> (r: Result<(), EncodeError>) {
        proof {
            reveal(<FsId as Xdr>::wire);
        }
        let ghost m = self.model();
        let ghost w1 = u64::wire(m.major);
        let ghost w2 = u64::wire(m.minor);
        let _ = self.major.encode(out);
        let _ = self.minor.encode(out);
        proof {
            lemma_concat_assoc(old(out)@, w1, w2);
        }
        Ok(())
    }

    fn decode<'a>(input: &'a [u8]) -> (r: Result<(FsId, &'a [u8]), XdrError>) {
        proof {
            reveal(<FsId as Xdr>::parse);
        }
        let (major, cur) = u64::decode(input)?;
        let (minor, cur) = u64::decode(cur)?;
        Ok((FsId { major, minor }, cur))
    }
}

/// The handle of a file: octets that the server chose and that mean nothing to
/// the client.
#[derive(Clone, Debug, PartialEq, Eq)]
pub struct FileHandle(pub Vec<u8>);

/// What a [`FileHandle`] stands for.
pub struct FileHandleModel(pub Seq<u8>);

impl Xdr for FileHandle {
    type Model = FileHandleModel;

    #[verifier::opaque]
    open spec fn model(&self) -> FileHandleModel {
        FileHandleModel(self.0@)
    }

    #[verifier::opaque]
    open spec fn wf(m: FileHandleModel) -> bool {
        &&& wf_opaque(m.0)
    }

    #[verifier::opaque]
    open spec fn wire(m: FileHandleModel) -> Seq<u8> {
        wire_opaque(m.0)
    }

    #[verifier::opaque]
    open spec fn parse(s: Seq<u8>) -> Result<(FileHandleModel, Seq<u8>), XdrError> {
        match parse_opaque(s) {
            Err(e) => Err(e),
            Ok((f0, s1)) => Ok((FileHandleModel(f0), s1)),
        }
    }

    proof fn lemma_round_trip(m: FileHandleModel, rest: Seq<u8>) {
        reveal(<FileHandle as Xdr>::wf);
        reveal(<FileHandle as Xdr>::wire);
        reveal(<FileHandle as Xdr>::parse);
        lemma_opaque_round_trip(m.0, rest);
    }

    fn encode(&self, out: &mut Vec<u8>) -> (r: Result<(), EncodeError>) {
        proof {
            reveal(<FileHandle as Xdr>::model);
            reveal(<FileHandle as Xdr>::wf);
            reveal(<FileHandle as Xdr>::wire);
        }
        encode_opaque(self.0.as_slice(), out)?;
        Ok(())
    }

    fn decode<'a>(input: &'a [u8]) -> (r: Result<(FileHandle, &'a [u8]), XdrError>) {
        proof {
            reveal(<FileHandle as Xdr>::model);
            reveal(<FileHandle as Xdr>::parse);
        }
        let (f0, cur) = decode_opaque(input)?;
        let f0 = copy_bytes(f0);
        Ok((FileHandle(f0), cur))
    }
}

#[derive(Clone, Debug, PartialEq, Eq)]
pub struct Identity(pub String);

/// What a [`Identity`] stands for.
pub struct IdentityModel(pub Seq<char>);

impl Xdr for Identity {
    type Model = IdentityModel;

    #[verifier::opaque]
    open spec fn model(&self) -> IdentityModel {
        IdentityModel(self.0.model())
    }

    #[verifier::opaque]
    open spec fn wf(m: IdentityModel) -> bool {
        &&& String::wf(m.0)
    }

    #[verifier::opaque]
    open spec fn wire(m: IdentityModel) -> Seq<u8> {
        String::wire(m.0)
    }

    #[verifier::opaque]
    open spec fn parse(s: Seq<u8>) -> Result<(IdentityModel, Seq<u8>), XdrError> {
        match String::parse(s) {
            Err(e) => Err(e),
            Ok((f0, s1)) => Ok((IdentityModel(f0), s1)),
        }
    }

    proof fn lemma_round_trip(m: IdentityModel, rest: Seq<u8>) {
        reveal(<Identity as Xdr>::wf);
        reveal(<Identity as Xdr>::wire);
        reveal(<Identity as Xdr>::parse);
        String::lemma_round_trip(m.0, rest);
    }

    fn encode(&self, out: &mut Vec<u8>) -> (r: Result<(), EncodeError>) {
        proof {
            reveal(<Identity as Xdr>::model);
            reveal(<Identity as Xdr>::wf);
            reveal(<Identity as Xdr>::wire);
        }
        self.0.encode(out)?;
        Ok(())
    }

    fn decode<'a>(input: &'a [u8]) -> (r: Result<(Identity, &'a [u8]), XdrError>) {
        proof {
            reveal(<Identity as Xdr>::model);
            reveal(<Identity as Xdr>::parse);
        }
        let (f0, cur) = String::decode(input)?;
        Ok((Identity(f0), cur))
    }
}

/// A point in time: seconds since the start of 1970, and nanoseconds.
#[derive(Clone, Copy, Debug, PartialEq, Eq)]
pub struct Time {
    pub seconds: i64,
    pub nseconds: u32,
}

impl Xdr for Time {
    type Model = Time;

    open spec fn model(&self) -> Time {
        *self
    }

    open spec fn wf(m: Time) -> bool {
        true
    }

    #[verifier::opaque]
    open spec fn wire(m: Time) -> Seq<u8> {
        i64::wire(m.seconds) + u32::wire(m.nseconds)
    }

    #[verifier::opaque]
    open spec fn parse(s: Seq<u8>) -> Result<(Time, Seq<u8>), XdrError> {
        match i64::parse(s) {
            Err(e) => Err(e),
            Ok((seconds, s1)) => match u32::parse(s1) {
                Err(e) => Err(e),
                Ok((nseconds, s2)) => Ok((Time { seconds, nseconds }, s2)),
            },
        }
    }

    proof fn lemma_round_trip(m: Time, rest: Seq<u8>) {
        reveal(<Time as Xdr>::wire);
        reveal(<Time as Xdr>::parse);
        let w1 = i64::wire(m.seconds);
        let w2 = u32::wire(m.nseconds);
        let r2 = rest;
        let r1 = w2 + r2;
        lemma_concat_assoc(w1, w2, r2);
        i64::lemma_round_trip(m.seconds, r1);
        u32::lemma_round_trip(m.nseconds, r2);
    }

    fn encode(&self, out: &mut Vec<u8>) -> (r: Result<(), EncodeError>) {
        proof {
            reveal(<Time as Xdr>::wire);
        }
        let ghost m = self.model();
        let ghost w1 = i64::wire(m.seconds);
        let ghost w2 = u32::wire(m.nseconds);
        let _ = self.seconds.encode(out);
        let _ = self.nseconds.encode(out);
        proof {
            lemma_concat_assoc(old(out)@, w1, w2);
        }
        Ok(())
    }

    fn decode<'a>(input: &'a [u8]) -> (r: Result<(Time, &'a [u8]), XdrError>) {
        proof {
            reveal(<Time as Xdr>::parse);
        }
        let (seconds, cur) = i64::decode(input)?;
        let (nseconds, cur) = u32::decode(cur)?;
        Ok((Time { seconds, nseconds }, cur))
    }
}

/// A date and time of the `chrono` crate. Nothing is known of its contents here.
#[verifier::external_type_specification]
#[verifier::external_body]
pub struct ExNaiveDateTime(chrono::NaiveDateTime);

impl Time {
    /// `chrono::NaiveDateTime::from_timestamp_opt`: the date and time that lies
    /// this long after the start of 1970, or `None` where chrono cannot
    /// represent it. Of the value nothing is claimed but that there is none
    /// for two seconds of nanoseconds or more, nor for a second of
    /// nanoseconds or more outside the last second of a minute, where chrono
    /// takes them for a leap second. On which days there is none is not
    /// said.
    #[verifier::external_body]
    #[allow(deprecated)]
    pub fn to_date_time(&self) -> (r: Option<chrono::NaiveDateTime>)
        ensures
            self.nseconds >= 2_000_000_000 ==> r is None,
            self.nseconds >= 1_000_000_000 && self.seconds as int % 60 != 59 ==> r is None,
    {
        chrono::NaiveDateTime::from_timestamp_opt(self.seconds, self.nseconds)
    }
}

#[derive(Clone, Copy, Debug, PartialEq, Eq)]
pub struct Lease(pub u32);

impl Xdr for Lease {
    type Model = Lease;

    open spec fn model(&self) -> Lease {
        *self
    }

    open spec fn wf(m: Lease) -> bool {
        true
    }

    #[verifier::opaque]
    open spec fn wire(m: Lease) -> Seq<u8> {
        u32::wire(m.0)
    }

    #[verifier::opaque]
    open spec fn parse(s: Seq<u8>) -> Result<(Lease, Seq<u8>), XdrError> {
        match u32::parse(s) {
            Err(e) => Err(e),
            Ok((f0, s1)) => Ok((Lease(f0), s1)),
        }
    }

    proof fn lemma_round_trip(m: Lease, rest: Seq<u8>) {
        reveal(<Lease as Xdr>::wire);
        reveal(<Lease as Xdr>::parse);
        u32::lemma_round_trip(m.0, rest);
    }

    fn encode(&self, out: &mut Vec<u8>) -> (r: Result<(), EncodeError>) {
        proof {
            reveal(<Lease as Xdr>::wire);
        }
        let _ = self.0.encode(out);
        Ok(())
    }

    fn decode<'a>(input: &'a [u8]) -> (r: Result<(Lease, &'a [u8]), XdrError>) {
        proof {
            reveal(<Lease as Xdr>::parse);
        }
        let (f0, cur) = u32::decode(input)?;
        Ok((Lease(f0), cur))
    }
}

#[derive(Clone, Copy, Debug, PartialEq, Eq)]
pub struct Change(pub u64);

impl Xdr for Change {
    type Model = Change;

    open spec fn model(&self) -> Change {
        *self
    }

    open spec fn wf(m: Change) -> bool {
        true
    }

    #[verifier::opaque]
    open spec fn wire(m: Change) -> Seq<u8> {
        u64::wire(m.0)
    }

    #[verifier::opaque]
    open spec fn parse(s: Seq<u8>) -> Result<(Change, Seq<u8>), XdrError> {
        match u64::parse(s) {
            Err(e) => Err(e),
            Ok((f0, s1)) => Ok((Change(f0), s1)),
        }
    }

    proof fn lemma_round_trip(m: Change, rest: Seq<u8>) {
        reveal(<Change as Xdr>::wire);
        reveal(<Change as Xdr>::parse);
        u64::lemma_round_trip(m.0, rest);
    }

    fn encode(&self, out: &mut Vec<u8>) -> (r: Result<(), EncodeError>) {
        proof {
            reveal(<Change as Xdr>::wire);
        }
        let _ = self.0.encode(out);
        Ok(())
    }

    fn decode<'a>(input: &'a [u8]) -> (r: Result<(Change, &'a [u8]), XdrError>) {
        proof {
            reveal(<Change as Xdr>::parse);
        }
        let (f0, cur) = u64::decode(input)?;
        Ok((Change(f0), cur))
    }
}

#[derive(Clone, Copy, Debug, PartialEq, Eq)]
pub struct FileId(pub u64);

impl Xdr for FileId {
    type Model = FileId;

    open spec fn model(&self) -> FileId {
        *self
    }

    open spec fn wf(m: FileId) -> bool {
        true
    }

    #[verifier::opaque]
    open spec fn wire(m: FileId) -> Seq<u8> {
        u64::wire(m.0)
    }

    #[verifier::opaque]
    open spec fn parse(s: Seq<u8>) -> Result<(FileId, Seq<u8>), XdrError> {
        match u64::parse(s) {
            Err(e) => Err(e),
            Ok((f0, s1)) => Ok((FileId(f0), s1)),
        }
    }

    proof fn lemma_round_trip(m: FileId, rest: Seq<u8>) {
        reveal(<FileId as Xdr>::wire);
        reveal(<FileId as Xdr>::parse);
        u64::lemma_round_trip(m.0, rest);
    }

    fn encode(&self, out: &mut Vec<u8>) -> (r: Result<(), EncodeError>) {
        proof {
            reveal(<FileId as Xdr>::wire);
        }
        let _ = self.0.encode(out);
        Ok(())
    }

    fn decode<'a>(input: &'a [u8]) -> (r: Result<(FileId, &'a [u8]), XdrError>) {
        proof {
            reveal(<FileId as Xdr>::parse);
        }
        let (f0, cur) = u64::decode(input)?;
        Ok((FileId(f0), cur))
    }
}

/// The identifier that the server gave a client.
#[derive(Clone, Copy, Debug, PartialEq, Eq)]
pub struct ClientId(pub u64);

impl Xdr for ClientId {
    type Model = ClientId;

    open spec fn model(&self) -> ClientId {
        *self
    }

    open spec fn wf(m: ClientId) -> bool {
        true
    }

    #[verifier::opaque]
    open spec fn wire(m: ClientId) -> Seq<u8> {
        u64::wire(m.0)
    }

    #[verifier::opaque]
    open spec fn parse(s: Seq<u8>) -> Result<(ClientId, Seq<u8>), XdrError> {
        match u64::parse(s) {
            Err(e) => Err(e),
            Ok((f0, s1)) => Ok((ClientId(f0), s1)),
        }
    }

    proof fn lemma_round_trip(m: ClientId, rest: Seq<u8>) {
        reveal(<ClientId as Xdr>::wire);
        reveal(<ClientId as Xdr>::parse);
        u64::lemma_round_trip(m.0, rest);
    }

    fn encode(&self, out: &mut Vec<u8>) -> (r: Result<(), EncodeError>) {
        proof {
            reveal(<ClientId as Xdr>::wire);
        }
        let _ = self.0.encode(out);
        Ok(())
    }

    fn decode<'a>(input: &'a [u8]) -> (r: Result<(ClientId, &'a [u8]), XdrError>) {
        proof {
            reveal(<ClientId as Xdr>::parse);
        }
        let (f0, cur) = u64::decode(input)?;
        Ok((ClientId(f0), cur))
    }
}

/// Where a directory listing goes on; 0 asks for the beginning.
#[derive(Clone, Copy, Debug, PartialEq, Eq)]
pub struct Cookie(pub u64);

impl Xdr for Cookie {
    type Model = Cookie;

    open spec fn model(&self) -> Cookie {
        *self
    }

    open spec fn wf(m: Cookie) -> bool {
        true
    }

    #[verifier::opaque]
    open spec fn wire(m: Cookie) -> Seq<u8> {
        u64::wire(m.0)
    }

    #[verifier::opaque]
    open spec fn parse(s: Seq<u8>) -> Result<(Cookie, Seq<u8>), XdrError> {
        match u64::parse(s) {
            Err(e) => Err(e),
            Ok((f0, s1)) => Ok((Cookie(f0), s1)),
        }
    }

    proof fn lemma_round_trip(m: Cookie, rest: Seq<u8>) {
        reveal(<Cookie as Xdr>::wire);
        reveal(<Cookie as Xdr>::parse);
        u64::lemma_round_trip(m.0, rest);
    }

    fn encode(&self, out: &mut Vec<u8>) -> (r: Result<(), EncodeError>) {
        proof {
            reveal(<Cookie as Xdr>::wire);
        }
        let _ = self.0.encode(out);
        Ok(())
    }

    fn decode<'a>(input: &'a [u8]) -> (r: Result<(Cookie, &'a [u8]), XdrError>) {
        proof {
            reveal(<Cookie as Xdr>::parse);
        }
        let (f0, cur) = u64::decode(input)?;
        Ok((Cookie(f0), cur))
    }
}

impl Cookie {
    /// The cookie that asks for a directory from its beginning.
    pub fn initial() -> (r: Self)
        ensures
            r == Cookie(0),
    {
        Cookie(0)
    }
}

/// Eight octets by which one side tells whether the other has started anew.
#[derive(Clone, Debug, PartialEq, Eq)]
pub struct Verifier(pub u64);

impl Xdr for Verifier {
    type Model = Verifier;

    open spec fn model(&self) -> Verifier {
        *self
    }

    open spec fn wf(m: Verifier) -> bool {
        true
    }

    #[verifier::opaque]
    open spec fn wire(m: Verifier) -> Seq<u8> {
        u64::wire(m.0)
    }

    #[verifier::opaque]
    open spec fn parse(s: Seq<u8>) -> Result<(Verifier, Seq<u8>), XdrError> {
        match u64::parse(s) {
            Err(e) => Err(e),
            Ok((f0, s1)) => Ok((Verifier(f0), s1)),
        }
    }

    proof fn lemma_round_trip(m: Verifier, rest: Seq<u8>) {
        reveal(<Verifier as Xdr>::wire);
        reveal(<Verifier as Xdr>::parse);
        u64::lemma_round_trip(m.0, rest);
    }

    fn encode(&self, out: &mut Vec<u8>) -> (r: Result<(), EncodeError>) {
        proof {
            reveal(<Verifier as Xdr>::wire);
        }
        let _ = self.0.encode(out);
        Ok(())
    }

    fn decode<'a>(input: &'a [u8]) -> (r: Result<(Verifier, &'a [u8]), XdrError>) {
        proof {
            reveal(<Verifier as Xdr>::parse);
        }
        let (f0, cur) = u64::decode(input)?;
        Ok((Verifier(f0), cur))
    }
}

/// The identifier of a session: sixteen opaque octets.
#[derive(Clone, Copy, Debug, PartialEq, Eq)]
pub struct SessionId(pub [u8; 16]);

/// What a [`SessionId`] stands for.
pub struct SessionIdModel(pub Seq<u8>);

impl Xdr for SessionId {
    type Model = SessionIdModel;

    #[verifier::opaque]
    open spec fn model(&self) -> SessionIdModel {
        SessionIdModel(self.0@)
    }

    #[verifier::opaque]
    open spec fn wf(m: SessionIdModel) -> bool {
        &&& m.0.len() == 16
    }

    #[verifier::opaque]
    open spec fn wire(m: SessionIdModel) -> Seq<u8> {
        wire_fixed(m.0)
    }

    #[verifier::opaque]
    open spec fn parse(s: Seq<u8>) -> Result<(SessionIdModel, Seq<u8>), XdrError> {
        match parse_fixed(16, s) {
            Err(e) => Err(e),
            Ok((f0, s1)) => Ok((SessionIdModel(f0), s1)),
        }
    }

    proof fn lemma_round_trip(m: SessionIdModel, rest: Seq<u8>) {
        reveal(<SessionId as Xdr>::wf);
        reveal(<SessionId as Xdr>::wire);
        reveal(<SessionId as Xdr>::parse);
        lemma_fixed_round_trip(m.0, rest);
    }

    fn encode(&self, out: &mut Vec<u8>) -> (r: Result<(), EncodeError>) {
        proof {
            reveal(<SessionId as Xdr>::model);
            reveal(<SessionId as Xdr>::wf);
            reveal(<SessionId as Xdr>::wire);
        }
        encode_fixed(self.0.as_slice(), out);
        Ok(())
    }

    fn decode<'a>(input: &'a [u8]) -> (r: Result<(SessionId, &'a [u8]), XdrError>) {
        proof {
            reveal(<SessionId as Xdr>::model);
            reveal(<SessionId as Xdr>::parse);
        }
        let (f0, cur) = decode_array::<16>(input)?;
        Ok((SessionId(f0), cur))
    }
}

/// The identifier of a storage device: sixteen opaque octets.
#[derive(Clone, Copy, Debug, PartialEq, Eq)]
pub struct DeviceId(pub [u8; 16]);

/// What a [`DeviceId`] stands for.
pub struct DeviceIdModel(pub Seq<u8>);

impl Xdr for DeviceId {
    type Model = DeviceIdModel;

    #[verifier::opaque]
    open spec fn model(&self) -> DeviceIdModel {
        DeviceIdModel(self.0@)
    }

    #[verifier::opaque]
    open spec fn wf(m: DeviceIdModel) -> bool {
        &&& m.0.len() == 16
    }

    #[verifier::opaque]
    open spec fn wire(m: DeviceIdModel) -> Seq<u8> {
        wire_fixed(m.0)
    }

    #[verifier::opaque]
    open spec fn parse(s: Seq<u8>) -> Result<(DeviceIdModel, Seq<u8>), XdrError> {
        match parse_fixed(16, s) {
            Err(e) => Err(e),
            Ok((f0, s1)) => Ok((DeviceIdModel(f0), s1)),
        }
    }

    proof fn lemma_round_trip(m: DeviceIdModel, rest: Seq<u8>) {
        reveal(<DeviceId as Xdr>::wf);
        reveal(<DeviceId as Xdr>::wire);
        reveal(<DeviceId as Xdr>::parse);
        lemma_fixed_round_trip(m.0, rest);
    }

    fn encode(&self, out: &mut Vec<u8>) -> (r: Result<(), EncodeError>) {
        proof {
            reveal(<DeviceId as Xdr>::model);
            reveal(<DeviceId as Xdr>::wf);
            reveal(<DeviceId as Xdr>::wire);
        }
        encode_fixed(self.0.as_slice(), out);
        Ok(())
    }

    fn decode<'a>(input: &'a [u8]) -> (r: Result<(DeviceId, &'a [u8]), XdrError>) {
        proof {
            reveal(<DeviceId as Xdr>::model);
            reveal(<DeviceId as Xdr>::parse);
        }
        let (f0, cur) = decode_array::<16>(input)?;
        Ok((DeviceId(f0), cur))
    }
}

#[derive(Clone, Copy, Debug, PartialEq, Eq)]
pub struct Util(pub u32);

impl Xdr for Util {
    type Model = Util;

    open spec fn model(&self) -> Util {
        *self
    }

    open spec fn wf(m: Util) -> bool {
        true
    }

    #[verifier::opaque]
    open spec fn wire(m: Util) -> Seq<u8> {
        u32::wire(m.0)
    }

    #[verifier::opaque]
    open spec fn parse(s: Seq<u8>) -> Result<(Util, Seq<u8>), XdrError> {
        match u32::parse(s) {
            Err(e) => Err(e),
            Ok((f0, s1)) => Ok((Util(f0), s1)),
        }
    }

    proof fn lemma_round_trip(m: Util, rest: Seq<u8>) {
        reveal(<Util as Xdr>::wire);
        reveal(<Util as Xdr>::parse);
        u32::lemma_round_trip(m.0, rest);
    }

    fn encode(&self, out: &mut Vec<u8>) -> (r: Result<(), EncodeError>) {
        proof {
            reveal(<Util as Xdr>::wire);
        }
        let _ = self.0.encode(out);
        Ok(())
    }

    fn decode<'a>(input: &'a [u8]) -> (r: Result<(Util, &'a [u8]), XdrError>) {
        proof {
            reveal(<Util as Xdr>::parse);
        }
        let (f0, cur) = u32::decode(input)?;
        Ok((Util(f0), cur))
    }
}

/// The number of a slot of the table of a session.
#[derive(Clone, Copy, Debug, PartialEq, Eq)]
pub struct SlotId(pub u32);

impl Xdr for SlotId {
    type Model = SlotId;

    open spec fn model(&self) -> SlotId {
        *self
    }

    open spec fn wf(m: SlotId) -> bool {
        true
    }

    #[verifier::opaque]
    open spec fn wire(m: SlotId) -> Seq<u8> {
        u32::wire(m.0)
    }

    #[verifier::opaque]
    open spec fn parse(s: Seq<u8>) -> Result<(SlotId, Seq<u8>), XdrError> {
        match u32::parse(s) {
            Err(e) => Err(e),
            Ok((f0, s1)) => Ok((SlotId(f0), s1)),
        }
    }

    proof fn lemma_round_trip(m: SlotId, rest: Seq<u8>) {
        reveal(<SlotId as Xdr>::wire);
        reveal(<SlotId as Xdr>::parse);
        u32::lemma_round_trip(m.0, rest);
    }

    fn encode(&self, out: &mut Vec<u8>) -> (r: Result<(), EncodeError>) {
        proof {
            reveal(<SlotId as Xdr>::wire);
        }
        let _ = self.0.encode(out);
        Ok(())
    }

    fn decode<'a>(input: &'a [u8]) -> (r: Result<(SlotId, &'a [u8]), XdrError>) {
        proof {
            reveal(<SlotId as Xdr>::parse);
        }
        let (f0, cur) = u32::decode(input)?;
        Ok((SlotId(f0), cur))
    }
}

#[derive(Clone, Copy, Debug, PartialEq, Eq)]
pub struct ChangeId(pub u64);

impl Xdr for ChangeId {
    type Model = ChangeId;

    open spec fn model(&self) -> ChangeId {
        *self
    }

    open spec fn wf(m: ChangeId) -> bool {
        true
    }

    #[verifier::opaque]
    open spec fn wire(m: ChangeId) -> Seq<u8> {
        u64::wire(m.0)
    }

    #[verifier::opaque]
    open spec fn parse(s: Seq<u8>) -> Result<(ChangeId, Seq<u8>), XdrError> {
        match u64::parse(s) {
            Err(e) => Err(e),
            Ok((f0, s1)) => Ok((ChangeId(f0), s1)),
        }
    }

    proof fn lemma_round_trip(m: ChangeId, rest: Seq<u8>) {
        reveal(<ChangeId as Xdr>::wire);
        reveal(<ChangeId as Xdr>::parse);
        u64::lemma_round_trip(m.0, rest);
    }

    fn encode(&self, out: &mut Vec<u8>) -> (r: Result<(), EncodeError>) {
        proof {
            reveal(<ChangeId as Xdr>::wire);
        }
        let _ = self.0.encode(out);
        Ok(())
    }

    fn decode<'a>(input: &'a [u8]) -> (r: Result<(ChangeId, &'a [u8]), XdrError>) {
        proof {
            reveal(<ChangeId as Xdr>::parse);
        }
        let (f0, cur) = u64::decode(input)?;
        Ok((ChangeId(f0), cur))
    }
}

#[derive(Clone, Debug, PartialEq, Eq)]
pub struct ChangeInfo {
    pub atomic: bool,
    pub before: ChangeId,
    pub after: ChangeId,
}

impl Xdr for ChangeInfo {
    type Model = ChangeInfo;

    open spec fn model(&self) -> ChangeInfo {
        *self
    }

    #[verifier::opaque]
    open spec fn wf(m: ChangeInfo) -> bool {
        &&& ChangeId::wf(m.before)
        &&& ChangeId::wf(m.after)
    }

    #[verifier::opaque]
    open spec fn wire(m: ChangeInfo) -> Seq<u8> {
        bool::wire(m.atomic) + ChangeId::wire(m.before) + ChangeId::wire(m.after)
    }

    #[verifier::opaque]
    open spec fn parse(s: Seq<u8>) -> Result<(ChangeInfo, Seq<u8>), XdrError> {
        match bool::parse(s) {
            Err(e) => Err(e),
            Ok((atomic, s1)) => match ChangeId::parse(s1) {
                Err(e) => Err(e),
                Ok((before, s2)) => match ChangeId::parse(s2) {
                    Err(e) => Err(e),
                    Ok((after, s3)) => Ok((ChangeInfo { atomic, before, after }, s3)),
                },
            },
        }
    }

    proof fn lemma_round_trip(m: ChangeInfo, rest: Seq<u8>) {
        reveal(<ChangeInfo as Xdr>::wf);
        reveal(<ChangeInfo as Xdr>::wire);
        reveal(<ChangeInfo as Xdr>::parse);
        let w1 = bool::wire(m.atomic);
        let w2 = ChangeId::wire(m.before);
        let w3 = ChangeId::wire(m.after);
        let r3 = rest;
        let r2 = w3 + r3;
        let r1 = w2 + r2;
        lemma_concat_assoc(w1 + w2, w3, r3);
        lemma_concat_assoc(w1, w2, r2);
        bool::lemma_round_trip(m.atomic, r1);
        ChangeId::lemma_round_trip(m.before, r2);
        ChangeId::lemma_round_trip(m.after, r3);
    }

    fn encode(&self, out: &mut Vec<u8>) -> (r: Result<(), EncodeError>) {
        proof {
            reveal(<ChangeInfo as Xdr>::wf);
            reveal(<ChangeInfo as Xdr>::wire);
        }
        let ghost m = self.model();
        let ghost w1 = bool::wire(m.atomic);
        let ghost w2 = ChangeId::wire(m.before);
        let ghost w3 = ChangeId::wire(m.after);
        let _ = self.atomic.encode(out);
        self.before.encode(out)?;
        proof {
            lemma_concat_assoc(old(out)@, w1, w2);
        }
        self.after.encode(out)?;
        proof {
            lemma_concat_assoc(old(out)@, w1 + w2, w3);
        }
        Ok(())
    }

    fn decode<'a>(input: &'a [u8]) -> (r: Result<(ChangeInfo, &'a [u8]), XdrError>) {
        proof {
            reveal(<ChangeInfo as Xdr>::parse);
        }
        let (atomic, cur) = bool::decode(input)?;
        let (before, cur) = ChangeId::decode(cur)?;
        let (after, cur) = ChangeId::decode(cur)?;
        Ok((ChangeInfo { atomic, before, after }, cur))
    }
}

#[derive(Clone, Copy, Debug, PartialEq, Eq)]
pub struct Qop(pub u32);

impl Xdr for Qop {
    type Model = Qop;

    open spec fn model(&self) -> Qop {
        *self
    }

    open spec fn wf(m: Qop) -> bool {
        true
    }

    #[verifier::opaque]
    open spec fn wire(m: Qop) -> Seq<u8> {
        u32::wire(m.0)
    }

    #[verifier::opaque]
    open spec fn parse(s: Seq<u8>) -> Result<(Qop, Seq<u8>), XdrError> {
        match u32::parse(s) {
            Err(e) => Err(e),
            Ok((f0, s1)) => Ok((Qop(f0), s1)),
        }
    }

    proof fn lemma_round_trip(m: Qop, rest: Seq<u8>) {
        reveal(<Qop as Xdr>::wire);
        reveal(<Qop as Xdr>::parse);
        u32::lemma_round_trip(m.0, rest);
    }

    fn encode(&self, out: &mut Vec<u8>) -> (r: Result<(), EncodeError>) {
        proof {
            reveal(<Qop as Xdr>::wire);
        }
        let _ = self.0.encode(out);
        Ok(())
    }

    fn decode<'a>(input: &'a [u8]) -> (r: Result<(Qop, &'a [u8]), XdrError>) {
        proof {
            reveal(<Qop as Xdr>::parse);
        }
        let (f0, cur) = u32::decode(input)?;
        Ok((Qop(f0), cur))
    }
}

#[derive(Clone, Debug, PartialEq, Eq)]
pub struct SecOid(pub Vec<u8>);

/// What a [`SecOid`] stands for.
pub struct SecOidModel(pub Seq<u8>);

impl Xdr for SecOid {
    type Model = SecOidModel;

    #[verifier::opaque]
    open spec fn model(&self) -> SecOidModel {
        SecOidModel(self.0@)
    }

    #[verifier::opaque]
    open spec fn wf(m: SecOidModel) -> bool {
        &&& wf_opaque(m.0)
    }

    #[verifier::opaque]
    open spec fn wire(m: SecOidModel) -> Seq<u8> {
        wire_opaque(m.0)
    }

    #[verifier::opaque]
    open spec fn parse(s: Seq<u8>) -> Result<(SecOidModel, Seq<u8>), XdrError> {
        match parse_opaque(s) {
            Err(e) => Err(e),
            Ok((f0, s1)) => Ok((SecOidModel(f0), s1)),
        }
    }

    proof fn lemma_round_trip(m: SecOidModel, rest: Seq<u8>) {
        reveal(<SecOid as Xdr>::wf);
        reveal(<SecOid as Xdr>::wire);
        reveal(<SecOid as Xdr>::parse);
        lemma_opaque_round_trip(m.0, rest);
    }

    fn encode(&self, out: &mut Vec<u8>) -> (r: Result<(), EncodeError>) {
        proof {
            reveal(<SecOid as Xdr>::model);
            reveal(<SecOid as Xdr>::wf);
            reveal(<SecOid as Xdr>::wire);
        }
        encode_opaque(self.0.as_slice(), out)?;
        Ok(())
    }

    fn decode<'a>(input: &'a [u8]) -> (r: Result<(SecOid, &'a [u8]), XdrError>) {
        proof {
            reveal(<SecOid as Xdr>::model);
            reveal(<SecOid as Xdr>::parse);
        }
        let (f0, cur) = decode_opaque(input)?;
        let f0 = copy_bytes(f0);
        Ok((SecOid(f0), cur))
    }
}

#[derive(Clone, Debug, PartialEq, Eq)]
pub struct GssHandle(pub Vec<u8>);

/// What a [`GssHandle`] stands for.
pub struct GssHandleModel(pub Seq<u8>);

impl Xdr for GssHandle {
    type Model = GssHandleModel;

    #[verifier::opaque]
    open spec fn model(&self) -> GssHandleModel {
        GssHandleModel(self.0@)
    }

    #[verifier::opaque]
    open spec fn wf(m: GssHandleModel) -> bool {
        &&& wf_opaque(m.0)
    }

    #[verifier::opaque]
    open spec fn wire(m: GssHandleModel) -> Seq<u8> {
        wire_opaque(m.0)
    }

    #[verifier::opaque]
    open spec fn parse(s: Seq<u8>) -> Result<(GssHandleModel, Seq<u8>), XdrError> {
        match parse_opaque(s) {
            Err(e) => Err(e),
            Ok((f0, s1)) => Ok((GssHandleModel(f0), s1)),
        }
    }

    proof fn lemma_round_trip(m: GssHandleModel, rest: Seq<u8>) {
        reveal(<GssHandle as Xdr>::wf);
        reveal(<GssHandle as Xdr>::wire);
        reveal(<GssHandle as Xdr>::parse);
        lemma_opaque_round_trip(m.0, rest);
    }

    fn encode(&self, out: &mut Vec<u8>) -> (r: Result<(), EncodeError>) {
        proof {
            reveal(<GssHandle as Xdr>::model);
            reveal(<GssHandle as Xdr>::wf);
            reveal(<GssHandle as Xdr>::wire);
        }
        encode_opaque(self.0.as_slice(), out)?;
        Ok(())
    }

    fn decode<'a>(input: &'a [u8]) -> (r: Result<(GssHandle, &'a [u8]), XdrError>) {
        proof {
            reveal(<GssHandle as Xdr>::model);
            reveal(<GssHandle as Xdr>::parse);
        }
        let (f0, cur) = decode_opaque(input)?;
        let f0 = copy_bytes(f0);
        Ok((GssHandle(f0), cur))
    }
}

/// The permission bits of a file.
#[derive(Clone, Copy, Debug, PartialEq, Eq)]
pub struct Mode(pub u32);

impl Xdr for Mode {
    type Model = Mode;

    open spec fn model(&self) -> Mode {
        *self
    }

    open spec fn wf(m: Mode) -> bool {
        true
    }

    #[verifier::opaque]
    open spec fn wire(m: Mode) -> Seq<u8> {
        u32::wire(m.0)
    }

    #[verifier::opaque]
    open spec fn parse(s: Seq<u8>) -> Result<(Mode, Seq<u8>), XdrError> {
        match u32::parse(s) {
            Err(e) => Err(e),
            Ok((f0, s1)) => Ok((Mode(f0), s1)),
        }
    }

    proof fn lemma_round_trip(m: Mode, rest: Seq<u8>) {
        reveal(<Mode as Xdr>::wire);
        reveal(<Mode as Xdr>::parse);
        u32::lemma_round_trip(m.0, rest);
    }

    fn encode(&self, out: &mut Vec<u8>) -> (r: Result<(), EncodeError>) {
        proof {
            reveal(<Mode as Xdr>::wire);
        }
        let _ = self.0.encode(out);
        Ok(())
    }

    fn decode<'a>(input: &'a [u8]) -> (r: Result<(Mode, &'a [u8]), XdrError>) {
        proof {
            reveal(<Mode as Xdr>::parse);
        }
        let (f0, cur) = u32::decode(input)?;
        Ok((Mode(f0), cur))
    }
}

/// Permission bits to set: the bits, and a mask that tells which of them count.
#[derive(Clone, Copy, Debug, PartialEq, Eq)]
pub struct ModeMasked(pub u32);

impl Xdr for ModeMasked {
    type Model = ModeMasked;

    open spec fn model(&self) -> ModeMasked {
        *self
    }

    open spec fn wf(m: ModeMasked) -> bool {
        true
    }

    #[verifier::opaque]
    open spec fn wire(m: ModeMasked) -> Seq<u8> {
        u32::wire(m.0)
    }

    #[verifier::opaque]
    open spec fn parse(s: Seq<u8>) -> Result<(ModeMasked, Seq<u8>), XdrError> {
        match u32::parse(s) {
            Err(e) => Err(e),
            Ok((f0, s1)) => Ok((ModeMasked(f0), s1)),
        }
    }

    proof fn lemma_round_trip(m: ModeMasked, rest: Seq<u8>) {
        reveal(<ModeMasked as Xdr>::wire);
        reveal(<ModeMasked as Xdr>::parse);
        u32::lemma_round_trip(m.0, rest);
    }

    fn encode(&self, out: &mut Vec<u8>) -> (r: Result<(), EncodeError>) {
        proof {
            reveal(<ModeMasked as Xdr>::wire);
        }
        let _ = self.0.encode(out);
        Ok(())
    }

    fn decode<'a>(input: &'a [u8]) -> (r: Result<(ModeMasked, &'a [u8]), XdrError>) {
        proof {
            reveal(<ModeMasked as Xdr>::parse);
        }
        let (f0, cur) = u32::decode(input)?;
        Ok((ModeMasked(f0), cur))
    }
}

#[derive(Clone, Debug, PartialEq, Eq)]
pub struct Component(pub String);

/// What a [`Component`] stands for.
pub struct ComponentModel(pub Seq<char>);

impl Xdr for Component {
    type Model = ComponentModel;

    #[verifier::opaque]
    open spec fn model(&self) -> ComponentModel {
        ComponentModel(self.0.model())
    }

    #[verifier::opaque]
    open spec fn wf(m: ComponentModel) -> bool {
        &&& String::wf(m.0)
    }

    #[verifier::opaque]
    open spec fn wire(m: ComponentModel) -> Seq<u8> {
        String::wire(m.0)
    }

    #[verifier::opaque]
    open spec fn parse(s: Seq<u8>) -> Result<(ComponentModel, Seq<u8>), XdrError> {
        match String::parse(s) {
            Err(e) => Err(e),
            Ok((f0, s1)) => Ok((ComponentModel(f0), s1)),
        }
    }

    proof fn lemma_round_trip(m: ComponentModel, rest: Seq<u8>) {
        reveal(<Component as Xdr>::wf);
        reveal(<Component as Xdr>::wire);
        reveal(<Component as Xdr>::parse);
        String::lemma_round_trip(m.0, rest);
    }

    fn encode(&self, out: &mut Vec<u8>) -> (r: Result<(), EncodeError>) {
        proof {
            reveal(<Component as Xdr>::model);
            reveal(<Component as Xdr>::wf);
            reveal(<Component as Xdr>::wire);
        }
        self.0.encode(out)?;
        Ok(())
    }

    fn decode<'a>(input: &'a [u8]) -> (r: Result<(Component, &'a [u8]), XdrError>) {
        proof {
            reveal(<Component as Xdr>::model);
            reveal(<Component as Xdr>::parse);
        }
        let (f0, cur) = String::decode(input)?;
        Ok((Component(f0), cur))
    }
}

#[derive(Clone, Debug, PartialEq, Eq)]
pub struct PathName(pub Vec<Component>);

/// What a [`PathName`] stands for.
pub struct PathNameModel(pub Seq<ComponentModel>);

impl Xdr for PathName {
    type Model = PathNameModel;

    #[verifier::opaque]
    open spec fn model(&self) -> PathNameModel {
        PathNameModel(self.0.model())
    }

    #[verifier::opaque]
    open spec fn wf(m: PathNameModel) -> bool {
        &&& Vec::<Component>::wf(m.0)
    }

    #[verifier::opaque]
    open spec fn wire(m: PathNameModel) -> Seq<u8> {
        Vec::<Component>::wire(m.0)
    }

    #[verifier::opaque]
    open spec fn parse(s: Seq<u8>) -> Result<(PathNameModel, Seq<u8>), XdrError> {
        match Vec::<Component>::parse(s) {
            Err(e) => Err(e),
            Ok((f0, s1)) => Ok((PathNameModel(f0), s1)),
        }
    }

    proof fn lemma_round_trip(m: PathNameModel, rest: Seq<u8>) {
        reveal(<PathName as Xdr>::wf);
        reveal(<PathName as Xdr>::wire);
        reveal(<PathName as Xdr>::parse);
        Vec::<Component>::lemma_round_trip(m.0, rest);
    }

    fn encode(&self, out: &mut Vec<u8>) -> (r: Result<(), EncodeError>) {
        proof {
            reveal(<PathName as Xdr>::model);
            reveal(<PathName as Xdr>::wf);
            reveal(<PathName as Xdr>::wire);
        }
        self.0.encode(out)?;
        Ok(())
    }

    fn decode<'a>(input: &'a [u8]) -> (r: Result<(PathName, &'a [u8]), XdrError>) {
        proof {
            reveal(<PathName as Xdr>::model);
            reveal(<PathName as Xdr>::parse);
        }
        let (f0, cur) = Vec::<Component>::decode(input)?;
        Ok((PathName(f0), cur))
    }
}

/// The owner of open or lock state: a client and octets of its choosing.
#[derive(Clone, Debug, PartialEq, Eq)]
pub struct StateOwner {
    pub client_id: ClientId,
    pub opaque: Vec<u8>,
}

/// What a [`StateOwner`] stands for.
pub struct StateOwnerModel {
    pub client_id: ClientId,
    pub opaque: Seq<u8>,
}

impl Xdr for StateOwner {
    type Model = StateOwnerModel;

    #[verifier::opaque]
    open spec fn model(&self) -> StateOwnerModel {
        StateOwnerModel { client_id: self.client_id.model(), opaque: self.opaque@ }
    }

    #[verifier::opaque]
    open spec fn wf(m: StateOwnerModel) -> bool {
        &&& ClientId::wf(m.client_id)
        &&& wf_opaque(m.opaque)
    }

    #[verifier::opaque]
    open spec fn wire(m: StateOwnerModel) -> Seq<u8> {
        ClientId::wire(m.client_id) + wire_opaque(m.opaque)
    }

    #[verifier::opaque]
    open spec fn parse(s: Seq<u8>) -> Result<(StateOwnerModel, Seq<u8>), XdrError> {
        match ClientId::parse(s) {
            Err(e) => Err(e),
            Ok((client_id, s1)) => match parse_opaque(s1) {
                Err(e) => Err(e),
                Ok((opaque, s2)) => Ok((StateOwnerModel { client_id, opaque }, s2)),
            },
        }
    }

    proof fn lemma_round_trip(m: StateOwnerModel, rest: Seq<u8>) {
        reveal(<StateOwner as Xdr>::wf);
        reveal(<StateOwner as Xdr>::wire);
        reveal(<StateOwner as Xdr>::parse);
        let w1 = ClientId::wire(m.client_id);
        let w2 = wire_opaque(m.opaque);
        let r2 = rest;
        let r1 = w2 + r2;
        lemma_concat_assoc(w1, w2, r2);
        ClientId::lemma_round_trip(m.client_id, r1);
        lemma_opaque_round_trip(m.opaque, r2);
    }

    fn encode(&self, out: &mut Vec<u8>) -> (r: Result<(), EncodeError>) {
        proof {
            reveal(<StateOwner as Xdr>::model);
            reveal(<StateOwner as Xdr>::wf);
            reveal(<StateOwner as Xdr>::wire);
        }
        let ghost m = self.model();
        let ghost w1 = ClientId::wire(m.client_id);
        let ghost w2 = wire_opaque(m.opaque);
        self.client_id.encode(out)?;
        encode_opaque(self.opaque.as_slice(), out)?;
        proof {
            lemma_concat_assoc(old(out)@, w1, w2);
        }
        Ok(())
    }

    fn decode<'a>(input: &'a [u8]) -> (r: Result<(StateOwner, &'a [u8]), XdrError>) {
        proof {
            reveal(<StateOwner as Xdr>::model);
            reveal(<StateOwner as Xdr>::parse);
        }
        let (client_id, cur) = ClientId::decode(input)?;
        let (opaque, cur) = decode_opaque(cur)?;
        let opaque = copy_bytes(opaque);
        Ok((StateOwner { client_id, opaque }, cur))
    }
}

#[derive(Clone, Debug, PartialEq, Eq)]
pub enum LockType {
    Read,
    Write,
    BlockingRead,
    BlockingWrite,
}

impl LockType {
    /// The discriminant that leads the encoding of a value.
    pub open spec fn tag(m: LockType) -> u32 {
        match m {
            LockType::Read => 1,
            LockType::Write => 2,
            LockType::BlockingRead => 3,
            LockType::BlockingWrite => 4,
        }
    }

    /// What follows the discriminant in the encoding of a value.
    #[verifier::opaque]
    pub open spec fn wire_payload(m: LockType) -> Seq<u8> {
        match m {
            LockType::Read => Seq::<u8>::empty(),
            LockType::Write => Seq::<u8>::empty(),
            LockType::BlockingRead => Seq::<u8>::empty(),
            LockType::BlockingWrite => Seq::<u8>::empty(),
        }
    }

    /// The value with the discriminant `tag` whose payload is at the front of `s`.
    #[verifier::opaque]
    pub open spec fn parse_payload(tag: u32, s: Seq<u8>) -> Result<(LockType, Seq<u8>), XdrError> {
        if tag == 1 {
            Ok((LockType::Read, s))
        } else if tag == 2 {
            Ok((LockType::Write, s))
        } else if tag == 3 {
            Ok((LockType::BlockingRead, s))
        } else if tag == 4 {
            Ok((LockType::BlockingWrite, s))
        } else {
            Err(XdrError::BadDiscriminant("LockType", tag))
        }
    }

    pub proof fn lemma_payload_round_trip(m: LockType, rest: Seq<u8>)
        requires
            <LockType as Xdr>::wf(m),
        ensures
            Self::parse_payload(Self::tag(m), Self::wire_payload(m) + rest)
                == Ok::<(LockType, Seq<u8>), XdrError>((m, rest)),
    {
        reveal(LockType::wire_payload);
        reveal(LockType::parse_payload);
        match m {
            LockType::Read => {
                assert(Seq::<u8>::empty() + rest =~= rest);
            },
            LockType::Write => {
                assert(Seq::<u8>::empty() + rest =~= rest);
            },
            LockType::BlockingRead => {
                assert(Seq::<u8>::empty() + rest =~= rest);
            },
            LockType::BlockingWrite => {
                assert(Seq::<u8>::empty() + rest =~= rest);
            },
        }
    }

    /// The encoding of a value begins with its discriminant, big-endian.
    pub proof fn lemma_wire_leads_with_tag(m: LockType)
        ensures
            <LockType as Xdr>::wire(m).len() >= 4,
            <LockType as Xdr>::wire(m).take(4) == wire_u32(Self::tag(m)),
    {
        reveal(<LockType as Xdr>::wire);
        reveal(wire_u32);
        assert((wire_u32(Self::tag(m)) + Self::wire_payload(m)).take(4) =~= wire_u32(Self::tag(m)));
    }

    /// The discriminant of a value.
    pub fn tag_of(&self) -> (t: u32)
        ensures
            t == Self::tag(self.model()),
    {
        match self {
            LockType::Read => 1,
            LockType::Write => 2,
            LockType::BlockingRead => 3,
            LockType::BlockingWrite => 4,
        }
    }

    /// Appends what follows the discriminant in the encoding of `self`.
    pub fn encode_payload(&self, out: &mut Vec<u8>) -> (r: Result<(), EncodeError>)
        ensures
            r is Ok <==> <LockType as Xdr>::wf(self.model()),
            r is Ok ==> final(out)@ == old(out)@ + Self::wire_payload(self.model()),
    {
        proof {
            reveal(LockType::wire_payload);
        }
        match self {
            LockType::Read => {
                assert(out@ =~= old(out)@ + Seq::<u8>::empty());
            },
            LockType::Write => {
                assert(out@ =~= old(out)@ + Seq::<u8>::empty());
            },
            LockType::BlockingRead => {
                assert(out@ =~= old(out)@ + Seq::<u8>::empty());
            },
            LockType::BlockingWrite => {
                assert(out@ =~= old(out)@ + Seq::<u8>::empty());
            },
        }
        Ok(())
    }

    /// Decodes the payload of the value with the discriminant `tag`.
    pub fn decode_payload<'a>(
        tag: u32,
        input: &'a [u8],
    ) -> (r: Result<(LockType, &'a [u8]), XdrError>)
        ensures
            match r {
                Ok((v, rest)) => {
                    Self::parse_payload(tag, input@)
                        == Ok::<(LockType, Seq<u8>), XdrError>((v.model(), rest@))
                },
                Err(e) => {
                    Self::parse_payload(tag, input@) == Err::<(LockType, Seq<u8>), XdrError>(e)
                },
            },
    {
        proof {
            reveal(LockType::parse_payload);
        }
        if tag == 1 {
            Ok((LockType::Read, input))
        } else if tag == 2 {
            Ok((LockType::Write, input))
        } else if tag == 3 {
            Ok((LockType::BlockingRead, input))
        } else if tag == 4 {
            Ok((LockType::BlockingWrite, input))
        } else {
            Err(XdrError::BadDiscriminant("LockType", tag))
        }
    }
}

impl Xdr for LockType {
    type Model = LockType;

    open spec fn model(&self) -> LockType {
        *self
    }

    open spec fn wf(m: LockType) -> bool {
        true
    }

    #[verifier::opaque]
    open spec fn wire(m: LockType) -> Seq<u8> {
        wire_u32(Self::tag(m)) + Self::wire_payload(m)
    }

    #[verifier::opaque]
    open spec fn parse(s: Seq<u8>) -> Result<(LockType, Seq<u8>), XdrError> {
        match parse_u32(s) {
            Ok((tag, r)) => Self::parse_payload(tag, r),
            Err(e) => Err(e),
        }
    }

    proof fn lemma_round_trip(m: LockType, rest: Seq<u8>) {
        reveal(<LockType as Xdr>::wire);
        reveal(<LockType as Xdr>::parse);
        lemma_concat_assoc(wire_u32(Self::tag(m)), Self::wire_payload(m), rest);
        lemma_u32_round_trip(Self::tag(m), Self::wire_payload(m) + rest);
        Self::lemma_payload_round_trip(m, rest);
    }

    fn encode(&self, out: &mut Vec<u8>) -> (r: Result<(), EncodeError>) {
        proof {
            reveal(<LockType as Xdr>::wire);
        }
        let tag = self.tag_of();
        let _ = tag.encode(out);
        self.encode_payload(out)?;
        proof {
            lemma_concat_assoc(old(out)@, wire_u32(tag), Self::wire_payload(self.model()));
        }
        Ok(())
    }

    fn decode<'a>(input: &'a [u8]) -> (r: Result<(LockType, &'a [u8]), XdrError>) {
        proof {
            reveal(<LockType as Xdr>::parse);
        }
        let (tag, cur) = u32::decode(input)?;
        Self::decode_payload(tag, cur)
    }
}

#[derive(Clone, Copy, Debug, PartialEq, Eq)]
pub enum LayoutType {
    NfsV41Files,
    Osd2Objects,
    BlockVolume,
}

impl LayoutType {
    /// The discriminant that leads the encoding of a value.
    pub open spec fn tag(m: LayoutType) -> u32 {
        match m {
            LayoutType::NfsV41Files => 1,
            LayoutType::Osd2Objects => 2,
            LayoutType::BlockVolume => 3,
        }
    }

    /// What follows the discriminant in the encoding of a value.
    #[verifier::opaque]
    pub open spec fn wire_payload(m: LayoutType) -> Seq<u8> {
        match m {
            LayoutType::NfsV41Files => Seq::<u8>::empty(),
            LayoutType::Osd2Objects => Seq::<u8>::empty(),
            LayoutType::BlockVolume => Seq::<u8>::empty(),
        }
    }

    /// The value with the discriminant `tag` whose payload is at the front of `s`.
    #[verifier::opaque]
    pub open spec fn parse_payload(
        tag: u32,
        s: Seq<u8>,
    ) -> Result<(LayoutType, Seq<u8>), XdrError> {
        if tag == 1 {
            Ok((LayoutType::NfsV41Files, s))
        } else if tag == 2 {
            Ok((LayoutType::Osd2Objects, s))
        } else if tag == 3 {
            Ok((LayoutType::BlockVolume, s))
        } else {
            Err(XdrError::BadDiscriminant("LayoutType", tag))
        }
    }

    pub proof fn lemma_payload_round_trip(m: LayoutType, rest: Seq<u8>)
        requires
            <LayoutType as Xdr>::wf(m),
        ensures
            Self::parse_payload(Self::tag(m), Self::wire_payload(m) + rest)
                == Ok::<(LayoutType, Seq<u8>), XdrError>((m, rest)),
    {
        reveal(LayoutType::wire_payload);
        reveal(LayoutType::parse_payload);
        match m {
            LayoutType::NfsV41Files => {
                assert(Seq::<u8>::empty() + rest =~= rest);
            },
            LayoutType::Osd2Objects => {
                assert(Seq::<u8>::empty() + rest =~= rest);
            },
            LayoutType::BlockVolume => {
                assert(Seq::<u8>::empty() + rest =~= rest);
            },
        }
    }

    /// The encoding of a value begins with its discriminant, big-endian.
    pub proof fn lemma_wire_leads_with_tag(m: LayoutType)
        ensures
            <LayoutType as Xdr>::wire(m).len() >= 4,
            <LayoutType as Xdr>::wire(m).take(4) == wire_u32(Self::tag(m)),
    {
        reveal(<LayoutType as Xdr>::wire);
        reveal(wire_u32);
        assert((wire_u32(Self::tag(m)) + Self::wire_payload(m)).take(4) =~= wire_u32(Self::tag(m)));
    }

    /// The discriminant of a value.
    pub fn tag_of(&self) -> (t: u32)
        ensures
            t == Self::tag(self.model()),
    {
        match self {
            LayoutType::NfsV41Files => 1,
            LayoutType::Osd2Objects => 2,
            LayoutType::BlockVolume => 3,
        }
    }

    /// Appends what follows the discriminant in the encoding of `self`.
    pub fn encode_payload(&self, out: &mut Vec<u8>) -> (r: Result<(), EncodeError>)
        ensures
            r is Ok <==> <LayoutType as Xdr>::wf(self.model()),
            r is Ok ==> final(out)@ == old(out)@ + Self::wire_payload(self.model()),
    {
        proof {
            reveal(LayoutType::wire_payload);
        }
        match self {
            LayoutType::NfsV41Files => {
                assert(out@ =~= old(out)@ + Seq::<u8>::empty());
            },
            LayoutType::Osd2Objects => {
                assert(out@ =~= old(out)@ + Seq::<u8>::empty());
            },
            LayoutType::BlockVolume => {
                assert(out@ =~= old(out)@ + Seq::<u8>::empty());
            },
        }
        Ok(())
    }

    /// Decodes the payload of the value with the discriminant `tag`.
    pub fn decode_payload<'a>(
        tag: u32,
        input: &'a [u8],
    ) -> (r: Result<(LayoutType, &'a [u8]), XdrError>)
        ensures
            match r {
                Ok((v, rest)) => {
                    Self::parse_payload(tag, input@)
                        == Ok::<(LayoutType, Seq<u8>), XdrError>((v.model(), rest@))
                },
                Err(e) => {
                    Self::parse_payload(tag, input@) == Err::<(LayoutType, Seq<u8>), XdrError>(e)
                },
            },
    {
        proof {
            reveal(LayoutType::parse_payload);
        }
        if tag == 1 {
            Ok((LayoutType::NfsV41Files, input))
        } else if tag == 2 {
            Ok((LayoutType::Osd2Objects, input))
        } else if tag == 3 {
            Ok((LayoutType::BlockVolume, input))
        } else {
            Err(XdrError::BadDiscriminant("LayoutType", tag))
        }
    }
}

impl Xdr for LayoutType {
    type Model = LayoutType;

    open spec fn model(&self) -> LayoutType {
        *self
    }

    open spec fn wf(m: LayoutType) -> bool {
        true
    }

    #[verifier::opaque]
    open spec fn wire(m: LayoutType) -> Seq<u8> {
        wire_u32(Self::tag(m)) + Self::wire_payload(m)
    }

    #[verifier::opaque]
    open spec fn parse(s: Seq<u8>) -> Result<(LayoutType, Seq<u8>), XdrError> {
        match parse_u32(s) {
            Ok((tag, r)) => Self::parse_payload(tag, r),
            Err(e) => Err(e),
        }
    }

    proof fn lemma_round_trip(m: LayoutType, rest: Seq<u8>) {
        reveal(<LayoutType as Xdr>::wire);
        reveal(<LayoutType as Xdr>::parse);
        lemma_concat_assoc(wire_u32(Self::tag(m)), Self::wire_payload(m), rest);
        lemma_u32_round_trip(Self::tag(m), Self::wire_payload(m) + rest);
        Self::lemma_payload_round_trip(m, rest);
    }

    fn encode(&self, out: &mut Vec<u8>) -> (r: Result<(), EncodeError>) {
        proof {
            reveal(<LayoutType as Xdr>::wire);
        }
        let tag = self.tag_of();
        let _ = tag.encode(out);
        self.encode_payload(out)?;
        proof {
            lemma_concat_assoc(old(out)@, wire_u32(tag), Self::wire_payload(self.model()));
        }
        Ok(())
    }

    fn decode<'a>(input: &'a [u8]) -> (r: Result<(LayoutType, &'a [u8]), XdrError>) {
        proof {
            reveal(<LayoutType as Xdr>::parse);
        }
        let (tag, cur) = u32::decode(input)?;
        Self::decode_payload(tag, cur)
    }
}

#[derive(Clone, Debug, PartialEq, Eq)]
pub enum LayoutIoMode {
    Read,
    ReadWrite,
    Any,
}

impl LayoutIoMode {
    /// The discriminant that leads the encoding of a value.
    pub open spec fn tag(m: LayoutIoMode) -> u32 {
        match m {
            LayoutIoMode::Read => 1,
            LayoutIoMode::ReadWrite => 2,
            LayoutIoMode::Any => 3,
        }
    }

    /// What follows the discriminant in the encoding of a value.
    #[verifier::opaque]
    pub open spec fn wire_payload(m: LayoutIoMode) -> Seq<u8> {
        match m {
            LayoutIoMode::Read => Seq::<u8>::empty(),
            LayoutIoMode::ReadWrite => Seq::<u8>::empty(),
            LayoutIoMode::Any => Seq::<u8>::empty(),
        }
    }

    /// The value with the discriminant `tag` whose payload is at the front of `s`.
    #[verifier::opaque]
    pub open spec fn parse_payload(
        tag: u32,
        s: Seq<u8>,
    ) -> Result<(LayoutIoMode, Seq<u8>), XdrError> {
        if tag == 1 {
            Ok((LayoutIoMode::Read, s))
        } else if tag == 2 {
            Ok((LayoutIoMode::ReadWrite, s))
        } else if tag == 3 {
            Ok((LayoutIoMode::Any, s))
        } else {
            Err(XdrError::BadDiscriminant("LayoutIoMode", tag))
        }
    }

    pub proof fn lemma_payload_round_trip(m: LayoutIoMode, rest: Seq<u8>)
        requires
            <LayoutIoMode as Xdr>::wf(m),
        ensures
            Self::parse_payload(Self::tag(m), Self::wire_payload(m) + rest)
                == Ok::<(LayoutIoMode, Seq<u8>), XdrError>((m, rest)),
    {
        reveal(LayoutIoMode::wire_payload);
        reveal(LayoutIoMode::parse_payload);
        match m {
            LayoutIoMode::Read => {
                assert(Seq::<u8>::empty() + rest =~= rest);
            },
            LayoutIoMode::ReadWrite => {
                assert(Seq::<u8>::empty() + rest =~= rest);
            },
            LayoutIoMode::Any => {
                assert(Seq::<u8>::empty() + rest =~= rest);
            },
        }
    }

    /// The encoding of a value begins with its discriminant, big-endian.
    pub proof fn lemma_wire_leads_with_tag(m: LayoutIoMode)
        ensures
            <LayoutIoMode as Xdr>::wire(m).len() >= 4,
            <LayoutIoMode as Xdr>::wire(m).take(4) == wire_u32(Self::tag(m)),
    {
        reveal(<LayoutIoMode as Xdr>::wire);
        reveal(wire_u32);
        assert((wire_u32(Self::tag(m)) + Self::wire_payload(m)).take(4) =~= wire_u32(Self::tag(m)));
    }

    /// The discriminant of a value.
    pub fn tag_of(&self) -> (t: u32)
        ensures
            t == Self::tag(self.model()),
    {
        match self {
            LayoutIoMode::Read => 1,
            LayoutIoMode::ReadWrite => 2,
            LayoutIoMode::Any => 3,
        }
    }

    /// Appends what follows the discriminant in the encoding of `self`.
    pub fn encode_payload(&self, out: &mut Vec<u8>) -> (r: Result<(), EncodeError>)
        ensures
            r is Ok <==> <LayoutIoMode as Xdr>::wf(self.model()),
            r is Ok ==> final(out)@ == old(out)@ + Self::wire_payload(self.model()),
    {
        proof {
            reveal(LayoutIoMode::wire_payload);
        }
        match self {
            LayoutIoMode::Read => {
                assert(out@ =~= old(out)@ + Seq::<u8>::empty());
            },
            LayoutIoMode::ReadWrite => {
                assert(out@ =~= old(out)@ + Seq::<u8>::empty());
            },
            LayoutIoMode::Any => {
                assert(out@ =~= old(out)@ + Seq::<u8>::empty());
            },
        }
        Ok(())
    }

    /// Decodes the payload of the value with the discriminant `tag`.
    pub fn decode_payload<'a>(
        tag: u32,
        input: &'a [u8],
    ) -> (r: Result<(LayoutIoMode, &'a [u8]), XdrError>)
        ensures
            match r {
                Ok((v, rest)) => {
                    Self::parse_payload(tag, input@)
                        == Ok::<(LayoutIoMode, Seq<u8>), XdrError>((v.model(), rest@))
                },
                Err(e) => {
                    Self::parse_payload(tag, input@) == Err::<(LayoutIoMode, Seq<u8>), XdrError>(e)
                },
            },
    {
        proof {
            reveal(LayoutIoMode::parse_payload);
        }
        if tag == 1 {
            Ok((LayoutIoMode::Read, input))
        } else if tag == 2 {
            Ok((LayoutIoMode::ReadWrite, input))
        } else if tag == 3 {
            Ok((LayoutIoMode::Any, input))
        } else {
            Err(XdrError::BadDiscriminant("LayoutIoMode", tag))
        }
    }
}

impl Xdr for LayoutIoMode {
    type Model = LayoutIoMode;

    open spec fn model(&self) -> LayoutIoMode {
        *self
    }

    open spec fn wf(m: LayoutIoMode) -> bool {
        true
    }

    #[verifier::opaque]
    open spec fn wire(m: LayoutIoMode) -> Seq<u8> {
        wire_u32(Self::tag(m)) + Self::wire_payload(m)
    }

    #[verifier::opaque]
    open spec fn parse(s: Seq<u8>) -> Result<(LayoutIoMode, Seq<u8>), XdrError> {
        match parse_u32(s) {
            Ok((tag, r)) => Self::parse_payload(tag, r),
            Err(e) => Err(e),
        }
    }

    proof fn lemma_round_trip(m: LayoutIoMode, rest: Seq<u8>) {
        reveal(<LayoutIoMode as Xdr>::wire);
        reveal(<LayoutIoMode as Xdr>::parse);
        lemma_concat_assoc(wire_u32(Self::tag(m)), Self::wire_payload(m), rest);
        lemma_u32_round_trip(Self::tag(m), Self::wire_payload(m) + rest);
        Self::lemma_payload_round_trip(m, rest);
    }

    fn encode(&self, out: &mut Vec<u8>) -> (r: Result<(), EncodeError>) {
        proof {
            reveal(<LayoutIoMode as Xdr>::wire);
        }
        let tag = self.tag_of();
        let _ = tag.encode(out);
        self.encode_payload(out)?;
        proof {
            lemma_concat_assoc(old(out)@, wire_u32(tag), Self::wire_payload(self.model()));
        }
        Ok(())
    }

    fn decode<'a>(input: &'a [u8]) -> (r: Result<(LayoutIoMode, &'a [u8]), XdrError>) {
        proof {
            reveal(<LayoutIoMode as Xdr>::parse);
        }
        let (tag, cur) = u32::decode(input)?;
        Self::decode_payload(tag, cur)
    }
}

#[derive(Clone, Copy, Debug, PartialEq, Eq)]
pub enum StableHow {
    Unstable,
    DataSync,
    FileSync,
}

impl StableHow {
    /// The discriminant that leads the encoding of a value.
    pub open spec fn tag(m: StableHow) -> u32 {
        match m {
            StableHow::Unstable => 0,
            StableHow::DataSync => 1,
            StableHow::FileSync => 2,
        }
    }

    /// What follows the discriminant in the encoding of a value.
    #[verifier::opaque]
    pub open spec fn wire_payload(m: StableHow) -> Seq<u8> {
        match m {
            StableHow::Unstable => Seq::<u8>::empty(),
            StableHow::DataSync => Seq::<u8>::empty(),
            StableHow::FileSync => Seq::<u8>::empty(),
        }
    }

    /// The value with the discriminant `tag` whose payload is at the front of `s`.
    #[verifier::opaque]
    pub open spec fn parse_payload(tag: u32, s: Seq<u8>) -> Result<(StableHow, Seq<u8>), XdrError> {
        if tag == 0 {
            Ok((StableHow::Unstable, s))
        } else if tag == 1 {
            Ok((StableHow::DataSync, s))
        } else if tag == 2 {
            Ok((StableHow::FileSync, s))
        } else {
            Err(XdrError::BadDiscriminant("StableHow", tag))
        }
    }

    pub proof fn lemma_payload_round_trip(m: StableHow, rest: Seq<u8>)
        requires
            <StableHow as Xdr>::wf(m),
        ensures
            Self::parse_payload(Self::tag(m), Self::wire_payload(m) + rest)
                == Ok::<(StableHow, Seq<u8>), XdrError>((m, rest)),
    {
        reveal(StableHow::wire_payload);
        reveal(StableHow::parse_payload);
        match m {
            StableHow::Unstable => {
                assert(Seq::<u8>::empty() + rest =~= rest);
            },
            StableHow::DataSync => {
                assert(Seq::<u8>::empty() + rest =~= rest);
            },
            StableHow::FileSync => {
                assert(Seq::<u8>::empty() + rest =~= rest);
            },
        }
    }

    /// The encoding of a value begins with its discriminant, big-endian.
    pub proof fn lemma_wire_leads_with_tag(m: StableHow)
        ensures
            <StableHow as Xdr>::wire(m).len() >= 4,
            <StableHow as Xdr>::wire(m).take(4) == wire_u32(Self::tag(m)),
    {
        reveal(<StableHow as Xdr>::wire);
        reveal(wire_u32);
        assert((wire_u32(Self::tag(m)) + Self::wire_payload(m)).take(4) =~= wire_u32(Self::tag(m)));
    }

    /// The discriminant of a value.
    pub fn tag_of(&self) -> (t: u32)
        ensures
            t == Self::tag(self.model()),
    {
        match self {
            StableHow::Unstable => 0,
            StableHow::DataSync => 1,
            StableHow::FileSync => 2,
        }
    }

    /// Appends what follows the discriminant in the encoding of `self`.
    pub fn encode_payload(&self, out: &mut Vec<u8>) -> (r: Result<(), EncodeError>)
        ensures
            r is Ok <==> <StableHow as Xdr>::wf(self.model()),
            r is Ok ==> final(out)@ == old(out)@ + Self::wire_payload(self.model()),
    {
        proof {
            reveal(StableHow::wire_payload);
        }
        match self {
            StableHow::Unstable => {
                assert(out@ =~= old(out)@ + Seq::<u8>::empty());
            },
            StableHow::DataSync => {
                assert(out@ =~= old(out)@ + Seq::<u8>::empty());
            },
            StableHow::FileSync => {
                assert(out@ =~= old(out)@ + Seq::<u8>::empty());
            },
        }
        Ok(())
    }

    /// Decodes the payload of the value with the discriminant `tag`.
    pub fn decode_payload<'a>(
        tag: u32,
        input: &'a [u8],
    ) -> (r: Result<(StableHow, &'a [u8]), XdrError>)
        ensures
            match r {
                Ok((v, rest)) => {
                    Self::parse_payload(tag, input@)
                        == Ok::<(StableHow, Seq<u8>), XdrError>((v.model(), rest@))
                },
                Err(e) => {
                    Self::parse_payload(tag, input@) == Err::<(StableHow, Seq<u8>), XdrError>(e)
                },
            },
    {
        proof {
            reveal(StableHow::parse_payload);
        }
        if tag == 0 {
            Ok((StableHow::Unstable, input))
        } else if tag == 1 {
            Ok((StableHow::DataSync, input))
        } else if tag == 2 {
            Ok((StableHow::FileSync, input))
        } else {
            Err(XdrError::BadDiscriminant("StableHow", tag))
        }
    }
}

impl Xdr for StableHow {
    type Model = StableHow;

    open spec fn model(&self) -> StableHow {
        *self
    }

    open spec fn wf(m: StableHow) -> bool {
        true
    }

    #[verifier::opaque]
    open spec fn wire(m: StableHow) -> Seq<u8> {
        wire_u32(Self::tag(m)) + Self::wire_payload(m)
    }

    #[verifier::opaque]
    open spec fn parse(s: Seq<u8>) -> Result<(StableHow, Seq<u8>), XdrError> {
        match parse_u32(s) {
            Ok((tag, r)) => Self::parse_payload(tag, r),
            Err(e) => Err(e),
        }
    }

    proof fn lemma_round_trip(m: StableHow, rest: Seq<u8>) {
        reveal(<StableHow as Xdr>::wire);
        reveal(<StableHow as Xdr>::parse);
        lemma_concat_assoc(wire_u32(Self::tag(m)), Self::wire_payload(m), rest);
        lemma_u32_round_trip(Self::tag(m), Self::wire_payload(m) + rest);
        Self::lemma_payload_round_trip(m, rest);
    }

    fn encode(&self, out: &mut Vec<u8>) -> (r: Result<(), EncodeError>) {
        proof {
            reveal(<StableHow as Xdr>::wire);
        }
        let tag = self.tag_of();
        let _ = tag.encode(out);
        self.encode_payload(out)?;
        proof {
            lemma_concat_assoc(old(out)@, wire_u32(tag), Self::wire_payload(self.model()));
        }
        Ok(())
    }

    fn decode<'a>(input: &'a [u8]) -> (r: Result<(StableHow, &'a [u8]), XdrError>) {
        proof {
            reveal(<StableHow as Xdr>::parse);
        }
        let (tag, cur) = u32::decode(input)?;
        Self::decode_payload(tag, cur)
    }
}

#[derive(Clone, Debug, PartialEq, Eq)]
pub enum RpcGssService {
    Null,
    Integrity,
    Privacy,
}

impl RpcGssService {
    /// The discriminant that leads the encoding of a value.
    pub open spec fn tag(m: RpcGssService) -> u32 {
        match m {
            RpcGssService::Null => 1,
            RpcGssService::Integrity => 2,
            RpcGssService::Privacy => 3,
        }
    }

    /// What follows the discriminant in the encoding of a value.
    #[verifier::opaque]
    pub open spec fn wire_payload(m: RpcGssService) -> Seq<u8> {
        match m {
            RpcGssService::Null => Seq::<u8>::empty(),
            RpcGssService::Integrity => Seq::<u8>::empty(),
            RpcGssService::Privacy => Seq::<u8>::empty(),
        }
    }

    /// The value with the discriminant `tag` whose payload is at the front of `s`.
    #[verifier::opaque]
    pub open spec fn parse_payload(
        tag: u32,
        s: Seq<u8>,
    ) -> Result<(RpcGssService, Seq<u8>), XdrError> {
        if tag == 1 {
            Ok((RpcGssService::Null, s))
        } else if tag == 2 {
            Ok((RpcGssService::Integrity, s))
        } else if tag == 3 {
            Ok((RpcGssService::Privacy, s))
        } else {
            Err(XdrError::BadDiscriminant("RpcGssService", tag))
        }
    }

    pub proof fn lemma_payload_round_trip(m: RpcGssService, rest: Seq<u8>)
        requires
            <RpcGssService as Xdr>::wf(m),
        ensures
            Self::parse_payload(Self::tag(m), Self::wire_payload(m) + rest)
                == Ok::<(RpcGssService, Seq<u8>), XdrError>((m, rest)),
    {
        reveal(RpcGssService::wire_payload);
        reveal(RpcGssService::parse_payload);
        match m {
            RpcGssService::Null => {
                assert(Seq::<u8>::empty() + rest =~= rest);
            },
            RpcGssService::Integrity => {
                assert(Seq::<u8>::empty() + rest =~= rest);
            },
            RpcGssService::Privacy => {
                assert(Seq::<u8>::empty() + rest =~= rest);
            },
        }
    }

    /// The encoding of a value begins with its discriminant, big-endian.
    pub proof fn lemma_wire_leads_with_tag(m: RpcGssService)
        ensures
            <RpcGssService as Xdr>::wire(m).len() >= 4,
            <RpcGssService as Xdr>::wire(m).take(4) == wire_u32(Self::tag(m)),
    {
        reveal(<RpcGssService as Xdr>::wire);
        reveal(wire_u32);
        assert((wire_u32(Self::tag(m)) + Self::wire_payload(m)).take(4) =~= wire_u32(Self::tag(m)));
    }

    /// The discriminant of a value.
    pub fn tag_of(&self) -> (t: u32)
        ensures
            t == Self::tag(self.model()),
    {
        match self {
            RpcGssService::Null => 1,
            RpcGssService::Integrity => 2,
            RpcGssService::Privacy => 3,
        }
    }

    /// Appends what follows the discriminant in the encoding of `self`.
    pub fn encode_payload(&self, out: &mut Vec<u8>) -> (r: Result<(), EncodeError>)
        ensures
            r is Ok <==> <RpcGssService as Xdr>::wf(self.model()),
            r is Ok ==> final(out)@ == old(out)@ + Self::wire_payload(self.model()),
    {
        proof {
            reveal(RpcGssService::wire_payload);
        }
        match self {
            RpcGssService::Null => {
                assert(out@ =~= old(out)@ + Seq::<u8>::empty());
            },
            RpcGssService::Integrity => {
                assert(out@ =~= old(out)@ + Seq::<u8>::empty());
            },
            RpcGssService::Privacy => {
                assert(out@ =~= old(out)@ + Seq::<u8>::empty());
            },
        }
        Ok(())
    }

    /// Decodes the payload of the value with the discriminant `tag`.
    pub fn decode_payload<'a>(
        tag: u32,
        input: &'a [u8],
    ) -> (r: Result<(RpcGssService, &'a [u8]), XdrError>)
        ensures
            match r {
                Ok((v, rest)) => {
                    Self::parse_payload(tag, input@)
                        == Ok::<(RpcGssService, Seq<u8>), XdrError>((v.model(), rest@))
                },
                Err(e) => {
                    Self::parse_payload(tag, input@) == Err::<(RpcGssService, Seq<u8>), XdrError>(e)
                },
            },
    {
        proof {
            reveal(RpcGssService::parse_payload);
        }
        if tag == 1 {
            Ok((RpcGssService::Null, input))
        } else if tag == 2 {
            Ok((RpcGssService::Integrity, input))
        } else if tag == 3 {
            Ok((RpcGssService::Privacy, input))
        } else {
            Err(XdrError::BadDiscriminant("RpcGssService", tag))
        }
    }
}

impl Xdr for RpcGssService {
    type Model = RpcGssService;

    open spec fn model(&self) -> RpcGssService {
        *self
    }

    open spec fn wf(m: RpcGssService) -> bool {
        true
    }

    #[verifier::opaque]
    open spec fn wire(m: RpcGssService) -> Seq<u8> {
        wire_u32(Self::tag(m)) + Self::wire_payload(m)
    }

    #[verifier::opaque]
    open spec fn parse(s: Seq<u8>) -> Result<(RpcGssService, Seq<u8>), XdrError> {
        match parse_u32(s) {
            Ok((tag, r)) => Self::parse_payload(tag, r),
            Err(e) => Err(e),
        }
    }

    proof fn lemma_round_trip(m: RpcGssService, rest: Seq<u8>) {
        reveal(<RpcGssService as Xdr>::wire);
        reveal(<RpcGssService as Xdr>::parse);
        lemma_concat_assoc(wire_u32(Self::tag(m)), Self::wire_payload(m), rest);
        lemma_u32_round_trip(Self::tag(m), Self::wire_payload(m) + rest);
        Self::lemma_payload_round_trip(m, rest);
    }

    fn encode(&self, out: &mut Vec<u8>) -> (r: Result<(), EncodeError>) {
        proof {
            reveal(<RpcGssService as Xdr>::wire);
        }
        let tag = self.tag_of();
        let _ = tag.encode(out);
        self.encode_payload(out)?;
        proof {
            lemma_concat_assoc(old(out)@, wire_u32(tag), Self::wire_payload(self.model()));
        }
        Ok(())
    }

    fn decode<'a>(input: &'a [u8]) -> (r: Result<(RpcGssService, &'a [u8]), XdrError>) {
        proof {
            reveal(<RpcGssService as Xdr>::parse);
        }
        let (tag, cur) = u32::decode(input)?;
        Self::decode_payload(tag, cur)
    }
}

#[derive(Clone, Debug, PartialEq, Eq)]
pub enum OpenDelegationType {
    Null,
    Read,
    Write,
    NoneExt,
}

impl OpenDelegationType {
    /// The discriminant that leads the encoding of a value.
    pub open spec fn tag(m: OpenDelegationType) -> u32 {
        match m {
            OpenDelegationType::Null => 0,
            OpenDelegationType::Read => 1,
            OpenDelegationType::Write => 2,
            OpenDelegationType::NoneExt => 3,
        }
    }

    /// What follows the discriminant in the encoding of a value.
    #[verifier::opaque]
    pub open spec fn wire_payload(m: OpenDelegationType) -> Seq<u8> {
        match m {
            OpenDelegationType::Null => Seq::<u8>::empty(),
            OpenDelegationType::Read => Seq::<u8>::empty(),
            OpenDelegationType::Write => Seq::<u8>::empty(),
            OpenDelegationType::NoneExt => Seq::<u8>::empty(),
        }
    }

    /// The value with the discriminant `tag` whose payload is at the front of `s`.
    #[verifier::opaque]
    pub open spec fn parse_payload(
        tag: u32,
        s: Seq<u8>,
    ) -> Result<(OpenDelegationType, Seq<u8>), XdrError> {
        if tag == 0 {
            Ok((OpenDelegationType::Null, s))
        } else if tag == 1 {
            Ok((OpenDelegationType::Read, s))
        } else if tag == 2 {
            Ok((OpenDelegationType::Write, s))
        } else if tag == 3 {
            Ok((OpenDelegationType::NoneExt, s))
        } else {
            Err(XdrError::BadDiscriminant("OpenDelegationType", tag))
        }
    }

    pub proof fn lemma_payload_round_trip(m: OpenDelegationType, rest: Seq<u8>)
        requires
            <OpenDelegationType as Xdr>::wf(m),
        ensures
            Self::parse_payload(Self::tag(m), Self::wire_payload(m) + rest)
                == Ok::<(OpenDelegationType, Seq<u8>), XdrError>((m, rest)),
    {
        reveal(OpenDelegationType::wire_payload);
        reveal(OpenDelegationType::parse_payload);
        match m {
            OpenDelegationType::Null => {
                assert(Seq::<u8>::empty() + rest =~= rest);
            },
            OpenDelegationType::Read => {
                assert(Seq::<u8>::empty() + rest =~= rest);
            },
            OpenDelegationType::Write => {
                assert(Seq::<u8>::empty() + rest =~= rest);
            },
            OpenDelegationType::NoneExt => {
                assert(Seq::<u8>::empty() + rest =~= rest);
            },
        }
    }

    /// The encoding of a value begins with its discriminant, big-endian.
    pub proof fn lemma_wire_leads_with_tag(m: OpenDelegationType)
        ensures
            <OpenDelegationType as Xdr>::wire(m).len() >= 4,
            <OpenDelegationType as Xdr>::wire(m).take(4) == wire_u32(Self::tag(m)),
    {
        reveal(<OpenDelegationType as Xdr>::wire);
        reveal(wire_u32);
        assert((wire_u32(Self::tag(m)) + Self::wire_payload(m)).take(4) =~= wire_u32(Self::tag(m)));
    }

    /// The discriminant of a value.
    pub fn tag_of(&self) -> (t: u32)
        ensures
            t == Self::tag(self.model()),
    {
        match self {
            OpenDelegationType::Null => 0,
            OpenDelegationType::Read => 1,
            OpenDelegationType::Write => 2,
            OpenDelegationType::NoneExt => 3,
        }
    }

    /// Appends what follows the discriminant in the encoding of `self`.
    pub fn encode_payload(&self, out: &mut Vec<u8>) -> (r: Result<(), EncodeError>)
        ensures
            r is Ok <==> <OpenDelegationType as Xdr>::wf(self.model()),
            r is Ok ==> final(out)@ == old(out)@ + Self::wire_payload(self.model()),
    {
        proof {
            reveal(OpenDelegationType::wire_payload);
        }
        match self {
            OpenDelegationType::Null => {
                assert(out@ =~= old(out)@ + Seq::<u8>::empty());
            },
            OpenDelegationType::Read => {
                assert(out@ =~= old(out)@ + Seq::<u8>::empty());
            },
            OpenDelegationType::Write => {
                assert(out@ =~= old(out)@ + Seq::<u8>::empty());
            },
            OpenDelegationType::NoneExt => {
                assert(out@ =~= old(out)@ + Seq::<u8>::empty());
            },
        }
        Ok(())
    }

    /// Decodes the payload of the value with the discriminant `tag`.
    pub fn decode_payload<'a>(
        tag: u32,
        input: &'a [u8],
    ) -> (r: Result<(OpenDelegationType, &'a [u8]), XdrError>)
        ensures
            match r {
                Ok((v, rest)) => {
                    Self::parse_payload(tag, input@)
                        == Ok::<(OpenDelegationType, Seq<u8>), XdrError>((v.model(), rest@))
                },
                Err(e) => {
                    Self::parse_payload(tag, input@)
                        == Err::<(OpenDelegationType, Seq<u8>), XdrError>(e)
                },
            },
    {
        proof {
            reveal(OpenDelegationType::parse_payload);
        }
        if tag == 0 {
            Ok((OpenDelegationType::Null, input))
        } else if tag == 1 {
            Ok((OpenDelegationType::Read, input))
        } else if tag == 2 {
            Ok((OpenDelegationType::Write, input))
        } else if tag == 3 {
            Ok((OpenDelegationType::NoneExt, input))
        } else {
            Err(XdrError::BadDiscriminant("OpenDelegationType", tag))
        }
    }
}

impl Xdr for OpenDelegationType {
    type Model = OpenDelegationType;

    open spec fn model(&self) -> OpenDelegationType {
        *self
    }

    open spec fn wf(m: OpenDelegationType) -> bool {
        true
    }

    #[verifier::opaque]
    open spec fn wire(m: OpenDelegationType) -> Seq<u8> {
        wire_u32(Self::tag(m)) + Self::wire_payload(m)
    }

    #[verifier::opaque]
    open spec fn parse(s: Seq<u8>) -> Result<(OpenDelegationType, Seq<u8>), XdrError> {
        match parse_u32(s) {
            Ok((tag, r)) => Self::parse_payload(tag, r),
            Err(e) => Err(e),
        }
    }

    proof fn lemma_round_trip(m: OpenDelegationType, rest: Seq<u8>) {
        reveal(<OpenDelegationType as Xdr>::wire);
        reveal(<OpenDelegationType as Xdr>::parse);
        lemma_concat_assoc(wire_u32(Self::tag(m)), Self::wire_payload(m), rest);
        lemma_u32_round_trip(Self::tag(m), Self::wire_payload(m) + rest);
        Self::lemma_payload_round_trip(m, rest);
    }

    fn encode(&self, out: &mut Vec<u8>) -> (r: Result<(), EncodeError>) {
        proof {
            reveal(<OpenDelegationType as Xdr>::wire);
        }
        let tag = self.tag_of();
        let _ = tag.encode(out);
        self.encode_payload(out)?;
        proof {
            lemma_concat_assoc(old(out)@, wire_u32(tag), Self::wire_payload(self.model()));
        }
        Ok(())
    }

    fn decode<'a>(input: &'a [u8]) -> (r: Result<(OpenDelegationType, &'a [u8]), XdrError>) {
        proof {
            reveal(<OpenDelegationType as Xdr>::parse);
        }
        let (tag, cur) = u32::decode(input)?;
        Self::decode_payload(tag, cur)
    }
}

#[derive(Clone, Debug, PartialEq, Eq)]
pub enum ChannelDirectionFromServer {
    Fore,
    Back,
    Both,
}

impl ChannelDirectionFromServer {
    /// The discriminant that leads the encoding of a value.
    pub open spec fn tag(m: ChannelDirectionFromServer) -> u32 {
        match m {
            ChannelDirectionFromServer::Fore => 1,
            ChannelDirectionFromServer::Back => 2,
            ChannelDirectionFromServer::Both => 3,
        }
    }

    /// What follows the discriminant in the encoding of a value.
    #[verifier::opaque]
    pub open spec fn wire_payload(m: ChannelDirectionFromServer) -> Seq<u8> {
        match m {
            ChannelDirectionFromServer::Fore => Seq::<u8>::empty(),
            ChannelDirectionFromServer::Back => Seq::<u8>::empty(),
            ChannelDirectionFromServer::Both => Seq::<u8>::empty(),
        }
    }

    /// The value with the discriminant `tag` whose payload is at the front of `s`.
    #[verifier::opaque]
    pub open spec fn parse_payload(
        tag: u32,
        s: Seq<u8>,
    ) -> Result<(ChannelDirectionFromServer, Seq<u8>), XdrError> {
        if tag == 1 {
            Ok((ChannelDirectionFromServer::Fore, s))
        } else if tag == 2 {
            Ok((ChannelDirectionFromServer::Back, s))
        } else if tag == 3 {
            Ok((ChannelDirectionFromServer::Both, s))
        } else {
            Err(XdrError::BadDiscriminant("ChannelDirectionFromServer", tag))
        }
    }

    pub proof fn lemma_payload_round_trip(m: ChannelDirectionFromServer, rest: Seq<u8>)
        requires
            <ChannelDirectionFromServer as Xdr>::wf(m),
        ensures
            Self::parse_payload(Self::tag(m), Self::wire_payload(m) + rest)
                == Ok::<(ChannelDirectionFromServer, Seq<u8>), XdrError>((m, rest)),
    {
        reveal(ChannelDirectionFromServer::wire_payload);
        reveal(ChannelDirectionFromServer::parse_payload);
        match m {
            ChannelDirectionFromServer::Fore => {
                assert(Seq::<u8>::empty() + rest =~= rest);
            },
            ChannelDirectionFromServer::Back => {
                assert(Seq::<u8>::empty() + rest =~= rest);
            },
            ChannelDirectionFromServer::Both => {
                assert(Seq::<u8>::empty() + rest =~= rest);
            },
        }
    }

    /// The encoding of a value begins with its discriminant, big-endian.
    pub proof fn lemma_wire_leads_with_tag(m: ChannelDirectionFromServer)
        ensures
            <ChannelDirectionFromServer as Xdr>::wire(m).len() >= 4,
            <ChannelDirectionFromServer as Xdr>::wire(m).take(4) == wire_u32(Self::tag(m)),
    {
        reveal(<ChannelDirectionFromServer as Xdr>::wire);
        reveal(wire_u32);
        assert((wire_u32(Self::tag(m)) + Self::wire_payload(m)).take(4) =~= wire_u32(Self::tag(m)));
    }

    /// The discriminant of a value.
    pub fn tag_of(&self) -> (t: u32)
        ensures
            t == Self::tag(self.model()),
    {
        match self {
            ChannelDirectionFromServer::Fore => 1,
            ChannelDirectionFromServer::Back => 2,
            ChannelDirectionFromServer::Both => 3,
        }
    }

    /// Appends what follows the discriminant in the encoding of `self`.
    pub fn encode_payload(&self, out: &mut Vec<u8>) -> (r: Result<(), EncodeError>)
        ensures
            r is Ok <==> <ChannelDirectionFromServer as Xdr>::wf(self.model()),
            r is Ok ==> final(out)@ == old(out)@ + Self::wire_payload(self.model()),
    {
        proof {
            reveal(ChannelDirectionFromServer::wire_payload);
        }
        match self {
            ChannelDirectionFromServer::Fore => {
                assert(out@ =~= old(out)@ + Seq::<u8>::empty());
            },
            ChannelDirectionFromServer::Back => {
                assert(out@ =~= old(out)@ + Seq::<u8>::empty());
            },
            ChannelDirectionFromServer::Both => {
                assert(out@ =~= old(out)@ + Seq::<u8>::empty());
            },
        }
        Ok(())
    }

    /// Decodes the payload of the value with the discriminant `tag`.
    pub fn decode_payload<'a>(
        tag: u32,
        input: &'a [u8],
    ) -> (r: Result<(ChannelDirectionFromServer, &'a [u8]), XdrError>)
        ensures
            match r {
                Ok((v, rest)) => {
                    Self::parse_payload(tag, input@)
                        == Ok::<(ChannelDirectionFromServer, Seq<u8>), XdrError>((v.model(), rest@))
                },
                Err(e) => {
                    Self::parse_payload(tag, input@)
                        == Err::<(ChannelDirectionFromServer, Seq<u8>), XdrError>(e)
                },
            },
    {
        proof {
            reveal(ChannelDirectionFromServer::parse_payload);
        }
        if tag == 1 {
            Ok((ChannelDirectionFromServer::Fore, input))
        } else if tag == 2 {
            Ok((ChannelDirectionFromServer::Back, input))
        } else if tag == 3 {
            Ok((ChannelDirectionFromServer::Both, input))
        } else {
            Err(XdrError::BadDiscriminant("ChannelDirectionFromServer", tag))
        }
    }
}

impl Xdr for ChannelDirectionFromServer {
    type Model = ChannelDirectionFromServer;

    open spec fn model(&self) -> ChannelDirectionFromServer {
        *self
    }

    open spec fn wf(m: ChannelDirectionFromServer) -> bool {
        true
    }

    #[verifier::opaque]
    open spec fn wire(m: ChannelDirectionFromServer) -> Seq<u8> {
        wire_u32(Self::tag(m)) + Self::wire_payload(m)
    }

    #[verifier::opaque]
    open spec fn parse(s: Seq<u8>) -> Result<(ChannelDirectionFromServer, Seq<u8>), XdrError> {
        match parse_u32(s) {
            Ok((tag, r)) => Self::parse_payload(tag, r),
            Err(e) => Err(e),
        }
    }

    proof fn lemma_round_trip(m: ChannelDirectionFromServer, rest: Seq<u8>) {
        reveal(<ChannelDirectionFromServer as Xdr>::wire);
        reveal(<ChannelDirectionFromServer as Xdr>::parse);
        lemma_concat_assoc(wire_u32(Self::tag(m)), Self::wire_payload(m), rest);
        lemma_u32_round_trip(Self::tag(m), Self::wire_payload(m) + rest);
        Self::lemma_payload_round_trip(m, rest);
    }

    fn encode(&self, out: &mut Vec<u8>) -> (r: Result<(), EncodeError>) {
        proof {
            reveal(<ChannelDirectionFromServer as Xdr>::wire);
        }
        let tag = self.tag_of();
        let _ = tag.encode(out);
        self.encode_payload(out)?;
        proof {
            lemma_concat_assoc(old(out)@, wire_u32(tag), Self::wire_payload(self.model()));
        }
        Ok(())
    }

    fn decode<'a>(
        input: &'a [u8],
    ) -> (r: Result<(ChannelDirectionFromServer, &'a [u8]), XdrError>) {
        proof {
            reveal(<ChannelDirectionFromServer as Xdr>::parse);
        }
        let (tag, cur) = u32::decode(input)?;
        Self::decode_payload(tag, cur)
    }
}

/// What a channel of a session can carry.
#[derive(Clone, Debug, PartialEq, Eq)]
pub struct ChannelAttrs {
    pub header_pad_size: u32,
    pub max_request_size: u32,
    pub max_response_size: u32,
    pub max_response_size_cached: u32,
    pub max_operations: u32,
    pub max_requests: u32,
    pub rdma_ird: Option<u32>,
}

/// What a [`ChannelAttrs`] stands for.
pub struct ChannelAttrsModel {
    pub header_pad_size: u32,
    pub max_request_size: u32,
    pub max_response_size: u32,
    pub max_response_size_cached: u32,
    pub max_operations: u32,
    pub max_requests: u32,
    pub rdma_ird: Option<u32>,
}

impl Xdr for ChannelAttrs {
    type Model = ChannelAttrsModel;

    #[verifier::opaque]
    open spec fn model(&self) -> ChannelAttrsModel {
        ChannelAttrsModel {
            header_pad_size: self.header_pad_size.model(),
            max_request_size: self.max_request_size.model(),
            max_response_size: self.max_response_size.model(),
            max_response_size_cached: self.max_response_size_cached.model(),
            max_operations: self.max_operations.model(),
            max_requests: self.max_requests.model(),
            rdma_ird: self.rdma_ird.model(),
        }
    }

    #[verifier::opaque]
    open spec fn wf(m: ChannelAttrsModel) -> bool {
        &&& Option::<u32>::wf(m.rdma_ird)
    }

    #[verifier::opaque]
    open spec fn wire(m: ChannelAttrsModel) -> Seq<u8> {
        u32::wire(m.header_pad_size)
            + u32::wire(m.max_request_size)
            + u32::wire(m.max_response_size)
            + u32::wire(m.max_response_size_cached)
            + u32::wire(m.max_operations)
            + u32::wire(m.max_requests)
            + Option::<u32>::wire(m.rdma_ird)
    }

    #[verifier::opaque]
    open spec fn parse(s: Seq<u8>) -> Result<(ChannelAttrsModel, Seq<u8>), XdrError> {
        match u32::parse(s) {
            Err(e) => Err(e),
            Ok((header_pad_size, s1)) => match u32::parse(s1) {
                Err(e) => Err(e),
                Ok((max_request_size, s2)) => match u32::parse(s2) {
                    Err(e) => Err(e),
                    Ok((max_response_size, s3)) => match u32::parse(s3) {
                        Err(e) => Err(e),
                        Ok((max_response_size_cached, s4)) => match u32::parse(s4) {
                            Err(e) => Err(e),
                            Ok((max_operations, s5)) => match u32::parse(s5) {
                                Err(e) => Err(e),
                                Ok((max_requests, s6)) => match Option::<u32>::parse(s6) {
                                    Err(e) => Err(e),
                                    Ok((rdma_ird, s7)) => {
                                        Ok(
                                            (
                                                ChannelAttrsModel {
                                                    header_pad_size,
                                                    max_request_size,
                                                    max_response_size,
                                                    max_response_size_cached,
                                                    max_operations,
                                                    max_requests,
                                                    rdma_ird,
                                                },
                                                s7,
                                            ),
                                        )
                                    },
                                },
                            },
                        },
                    },
                },
            },
        }
    }

    proof fn lemma_round_trip(m: ChannelAttrsModel, rest: Seq<u8>) {
        reveal(<ChannelAttrs as Xdr>::wf);
        reveal(<ChannelAttrs as Xdr>::wire);
        reveal(<ChannelAttrs as Xdr>::parse);
        let w1 = u32::wire(m.header_pad_size);
        let w2 = u32::wire(m.max_request_size);
        let w3 = u32::wire(m.max_response_size);
        let w4 = u32::wire(m.max_response_size_cached);
        let w5 = u32::wire(m.max_operations);
        let w6 = u32::wire(m.max_requests);
        let w7 = Option::<u32>::wire(m.rdma_ird);
        let r7 = rest;
        let r6 = w7 + r7;
        let r5 = w6 + r6;
        let r4 = w5 + r5;
        let r3 = w4 + r4;
        let r2 = w3 + r3;
        let r1 = w2 + r2;
        lemma_concat_assoc(w1 + w2 + w3 + w4 + w5 + w6, w7, r7);
        lemma_concat_assoc(w1 + w2 + w3 + w4 + w5, w6, r6);
        lemma_concat_assoc(w1 + w2 + w3 + w4, w5, r5);
        lemma_concat_assoc(w1 + w2 + w3, w4, r4);
        lemma_concat_assoc(w1 + w2, w3, r3);
        lemma_concat_assoc(w1, w2, r2);
        u32::lemma_round_trip(m.header_pad_size, r1);
        u32::lemma_round_trip(m.max_request_size, r2);
        u32::lemma_round_trip(m.max_response_size, r3);
        u32::lemma_round_trip(m.max_response_size_cached, r4);
        u32::lemma_round_trip(m.max_operations, r5);
        u32::lemma_round_trip(m.max_requests, r6);
        Option::<u32>::lemma_round_trip(m.rdma_ird, r7);
    }

    fn encode(&self, out: &mut Vec<u8>) -> (r: Result<(), EncodeError>) {
        proof {
            reveal(<ChannelAttrs as Xdr>::model);
            reveal(<ChannelAttrs as Xdr>::wf);
            reveal(<ChannelAttrs as Xdr>::wire);
        }
        let ghost m = self.model();
        let ghost w1 = u32::wire(m.header_pad_size);
        let ghost w2 = u32::wire(m.max_request_size);
        let ghost w3 = u32::wire(m.max_response_size);
        let ghost w4 = u32::wire(m.max_response_size_cached);
        let ghost w5 = u32::wire(m.max_operations);
        let ghost w6 = u32::wire(m.max_requests);
        let ghost w7 = Option::<u32>::wire(m.rdma_ird);
        let _ = self.header_pad_size.encode(out);
        let _ = self.max_request_size.encode(out);
        proof {
            lemma_concat_assoc(old(out)@, w1, w2);
        }
        let _ = self.max_response_size.encode(out);
        proof {
            lemma_concat_assoc(old(out)@, w1 + w2, w3);
        }
        let _ = self.max_response_size_cached.encode(out);
        proof {
            lemma_concat_assoc(old(out)@, w1 + w2 + w3, w4);
        }
        let _ = self.max_operations.encode(out);
        proof {
            lemma_concat_assoc(old(out)@, w1 + w2 + w3 + w4, w5);
        }
        let _ = self.max_requests.encode(out);
        proof {
            lemma_concat_assoc(old(out)@, w1 + w2 + w3 + w4 + w5, w6);
        }
        self.rdma_ird.encode(out)?;
        proof {
            lemma_concat_assoc(old(out)@, w1 + w2 + w3 + w4 + w5 + w6, w7);
        }
        Ok(())
    }

    fn decode<'a>(input: &'a [u8]) -> (r: Result<(ChannelAttrs, &'a [u8]), XdrError>) {
        proof {
            reveal(<ChannelAttrs as Xdr>::model);
            reveal(<ChannelAttrs as Xdr>::parse);
        }
        let (header_pad_size, cur) = u32::decode(input)?;
        let (max_request_size, cur) = u32::decode(cur)?;
        let (max_response_size, cur) = u32::decode(cur)?;
        let (max_response_size_cached, cur) = u32::decode(cur)?;
        let (max_operations, cur) = u32::decode(cur)?;
        let (max_requests, cur) = u32::decode(cur)?;
        let (rdma_ird, cur) = Option::<u32>::decode(cur)?;
        Ok(
            (
                ChannelAttrs {
                    header_pad_size,
                    max_request_size,
                    max_response_size,
                    max_response_size_cached,
                    max_operations,
                    max_requests,
                    rdma_ird,
                },
                cur,
            ),
        )
    }
}

#[derive(Clone, Debug, PartialEq, Eq)]
pub struct ImplId {
    pub domain: String,
    pub name: String,
    pub date: Time,
}

/// What a [`ImplId`] stands for.
pub struct ImplIdModel {
    pub domain: Seq<char>,
    pub name: Seq<char>,
    pub date: Time,
}

impl Xdr for ImplId {
    type Model = ImplIdModel;

    #[verifier::opaque]
    open spec fn model(&self) -> ImplIdModel {
        ImplIdModel {
            domain: self.domain.model(),
            name: self.name.model(),
            date: self.date.model(),
        }
    }

    #[verifier::opaque]
    open spec fn wf(m: ImplIdModel) -> bool {
        &&& String::wf(m.domain)
        &&& String::wf(m.name)
        &&& Time::wf(m.date)
    }

    #[verifier::opaque]
    open spec fn wire(m: ImplIdModel) -> Seq<u8> {
        String::wire(m.domain) + String::wire(m.name) + Time::wire(m.date)
    }

    #[verifier::opaque]
    open spec fn parse(s: Seq<u8>) -> Result<(ImplIdModel, Seq<u8>), XdrError> {
        match String::parse(s) {
            Err(e) => Err(e),
            Ok((domain, s1)) => match String::parse(s1) {
                Err(e) => Err(e),
                Ok((name, s2)) => match Time::parse(s2) {
                    Err(e) => Err(e),
                    Ok((date, s3)) => Ok((ImplIdModel { domain, name, date }, s3)),
                },
            },
        }
    }

    proof fn lemma_round_trip(m: ImplIdModel, rest: Seq<u8>) {
        reveal(<ImplId as Xdr>::wf);
        reveal(<ImplId as Xdr>::wire);
        reveal(<ImplId as Xdr>::parse);
        let w1 = String::wire(m.domain);
        let w2 = String::wire(m.name);
        let w3 = Time::wire(m.date);
        let r3 = rest;
        let r2 = w3 + r3;
        let r1 = w2 + r2;
        lemma_concat_assoc(w1 + w2, w3, r3);
        lemma_concat_assoc(w1, w2, r2);
        String::lemma_round_trip(m.domain, r1);
        String::lemma_round_trip(m.name, r2);
        Time::lemma_round_trip(m.date, r3);
    }

    fn encode(&self, out: &mut Vec<u8>) -> (r: Result<(), EncodeError>) {
        proof {
            reveal(<ImplId as Xdr>::model);
            reveal(<ImplId as Xdr>::wf);
            reveal(<ImplId as Xdr>::wire);
        }
        let ghost m = self.model();
        let ghost w1 = String::wire(m.domain);
        let ghost w2 = String::wire(m.name);
        let ghost w3 = Time::wire(m.date);
        self.domain.encode(out)?;
        self.name.encode(out)?;
        proof {
            lemma_concat_assoc(old(out)@, w1, w2);
        }
        self.date.encode(out)?;
        proof {
            lemma_concat_assoc(old(out)@, w1 + w2, w3);
        }
        Ok(())
    }

    fn decode<'a>(input: &'a [u8]) -> (r: Result<(ImplId, &'a [u8]), XdrError>) {
        proof {
            reveal(<ImplId as Xdr>::model);
            reveal(<ImplId as Xdr>::parse);
        }
        let (domain, cur) = String::decode(input)?;
        let (name, cur) = String::decode(cur)?;
        let (date, cur) = Time::decode(cur)?;
        Ok((ImplId { domain, name, date }, cur))
    }
}

/// The lock that stands in the way of a lock that was asked for.
#[derive(Clone, Debug, PartialEq, Eq)]
pub struct LockDenied {
    pub offset: u64,
    pub length: u64,
    pub lock_type: LockType,
    pub owner: StateOwner,
}

/// What a [`LockDenied`] stands for.
pub struct LockDeniedModel {
    pub offset: u64,
    pub length: u64,
    pub lock_type: LockType,
    pub owner: StateOwnerModel,
}

impl Xdr for LockDenied {
    type Model = LockDeniedModel;

    #[verifier::opaque]
    open spec fn model(&self) -> LockDeniedModel {
        LockDeniedModel {
            offset: self.offset.model(),
            length: self.length.model(),
            lock_type: self.lock_type.model(),
            owner: self.owner.model(),
        }
    }

    #[verifier::opaque]
    open spec fn wf(m: LockDeniedModel) -> bool {
        &&& LockType::wf(m.lock_type)
        &&& StateOwner::wf(m.owner)
    }

    #[verifier::opaque]
    open spec fn wire(m: LockDeniedModel) -> Seq<u8> {
        u64::wire(m.offset)
            + u64::wire(m.length)
            + LockType::wire(m.lock_type)
            + StateOwner::wire(m.owner)
    }

    #[verifier::opaque]
    open spec fn parse(s: Seq<u8>) -> Result<(LockDeniedModel, Seq<u8>), XdrError> {
        match u64::parse(s) {
            Err(e) => Err(e),
            Ok((offset, s1)) => match u64::parse(s1) {
                Err(e) => Err(e),
                Ok((length, s2)) => match LockType::parse(s2) {
                    Err(e) => Err(e),
                    Ok((lock_type, s3)) => match StateOwner::parse(s3) {
                        Err(e) => Err(e),
                        Ok((owner, s4)) => {
                            Ok((LockDeniedModel { offset, length, lock_type, owner }, s4))
                        },
                    },
                },
            },
        }
    }

    proof fn lemma_round_trip(m: LockDeniedModel, rest: Seq<u8>) {
        reveal(<LockDenied as Xdr>::wf);
        reveal(<LockDenied as Xdr>::wire);
        reveal(<LockDenied as Xdr>::parse);
        let w1 = u64::wire(m.offset);
        let w2 = u64::wire(m.length);
        let w3 = LockType::wire(m.lock_type);
        let w4 = StateOwner::wire(m.owner);
        let r4 = rest;
        let r3 = w4 + r4;
        let r2 = w3 + r3;
        let r1 = w2 + r2;
        lemma_concat_assoc(w1 + w2 + w3, w4, r4);
        lemma_concat_assoc(w1 + w2, w3, r3);
        lemma_concat_assoc(w1, w2, r2);
        u64::lemma_round_trip(m.offset, r1);
        u64::lemma_round_trip(m.length, r2);
        LockType::lemma_round_trip(m.lock_type, r3);
        StateOwner::lemma_round_trip(m.owner, r4);
    }

    fn encode(&self, out: &mut Vec<u8>) -> (r: Result<(), EncodeError>) {
        proof {
            reveal(<LockDenied as Xdr>::model);
            reveal(<LockDenied as Xdr>::wf);
            reveal(<LockDenied as Xdr>::wire);
        }
        let ghost m = self.model();
        let ghost w1 = u64::wire(m.offset);
        let ghost w2 = u64::wire(m.length);
        let ghost w3 = LockType::wire(m.lock_type);
        let ghost w4 = StateOwner::wire(m.owner);
        let _ = self.offset.encode(out);
        let _ = self.length.encode(out);
        proof {
            lemma_concat_assoc(old(out)@, w1, w2);
        }
        self.lock_type.encode(out)?;
        proof {
            lemma_concat_assoc(old(out)@, w1 + w2, w3);
        }
        self.owner.encode(out)?;
        proof {
            lemma_concat_assoc(old(out)@, w1 + w2 + w3, w4);
        }
        Ok(())
    }

    fn decode<'a>(input: &'a [u8]) -> (r: Result<(LockDenied, &'a [u8]), XdrError>) {
        proof {
            reveal(<LockDenied as Xdr>::model);
            reveal(<LockDenied as Xdr>::parse);
        }
        let (offset, cur) = u64::decode(input)?;
        let (length, cur) = u64::decode(cur)?;
        let (lock_type, cur) = LockType::decode(cur)?;
        let (owner, cur) = StateOwner::decode(cur)?;
        Ok((LockDenied { offset, length, lock_type, owner }, cur))
    }
}

impl Tagged for LockType {
    open spec fn discriminant(m: LockType) -> u32 {
        Self::tag(m)
    }

    proof fn lemma_leads_with_discriminant(m: LockType) {
        Self::lemma_wire_leads_with_tag(m);
    }
}

impl Tagged for LayoutType {
    open spec fn discriminant(m: LayoutType) -> u32 {
        Self::tag(m)
    }

    proof fn lemma_leads_with_discriminant(m: LayoutType) {
        Self::lemma_wire_leads_with_tag(m);
    }
}

impl Tagged for LayoutIoMode {
    open spec fn discriminant(m: LayoutIoMode) -> u32 {
        Self::tag(m)
    }

    proof fn lemma_leads_with_discriminant(m: LayoutIoMode) {
        Self::lemma_wire_leads_with_tag(m);
    }
}

impl Tagged for StableHow {
    open spec fn discriminant(m: StableHow) -> u32 {
        Self::tag(m)
    }

    proof fn lemma_leads_with_discriminant(m: StableHow) {
        Self::lemma_wire_leads_with_tag(m);
    }
}

impl Tagged for RpcGssService {
    open spec fn discriminant(m: RpcGssService) -> u32 {
        Self::tag(m)
    }

    proof fn lemma_leads_with_discriminant(m: RpcGssService) {
        Self::lemma_wire_leads_with_tag(m);
    }
}

impl Tagged for OpenDelegationType {
    open spec fn discriminant(m: OpenDelegationType) -> u32 {
        Self::tag(m)
    }

    proof fn lemma_leads_with_discriminant(m: OpenDelegationType) {
        Self::lemma_wire_leads_with_tag(m);
    }
}

impl Tagged for ChannelDirectionFromServer {
    open spec fn discriminant(m: ChannelDirectionFromServer) -> u32 {
        Self::tag(m)
    }

    proof fn lemma_leads_with_discriminant(m: ChannelDirectionFromServer) {
        Self::lemma_wire_leads_with_tag(m);
    }
}

} // verus!
