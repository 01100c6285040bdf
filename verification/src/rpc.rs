//! The messages of Sun-RPC: calls, replies and credentials.

use crate::xdr::{
    copy_bytes, decode_opaque, encode_opaque, lemma_concat_assoc, lemma_opaque_round_trip,
    lemma_u32_round_trip, parse_opaque, parse_u32, wf_opaque, wire_each, wire_fixed, wire_opaque,
    wire_u32, EncodeError, Xdr, XdrError,
};
use crate::xdr::Tagged;
use vstd::utf8::*;
use vstd::prelude::*;

verus! {

/// The transaction identifier of a call, which its reply repeats.
#[derive(Clone, Debug, PartialEq, Eq, PartialOrd, Ord)]
pub struct Xid(pub u32);

impl Xdr for Xid {
    type Model = Xid;

    open spec fn model(&self) -> Xid {
        *self
    }

    open spec fn wf(m: Xid) -> bool {
        true
    }

    #[verifier::opaque]
    open spec fn wire(m: Xid) -> Seq<u8> {
        u32::wire(m.0)
    }

    #[verifier::opaque]
    open spec fn parse(s: Seq<u8>) -> Result<(Xid, Seq<u8>), XdrError> {
        match u32::parse(s) {
            Err(e) => Err(e),
            Ok((f0, s1)) => Ok((Xid(f0), s1)),
        }
    }

    proof fn lemma_round_trip(m: Xid, rest: Seq<u8>) {
        reveal(<Xid as Xdr>::wire);
        reveal(<Xid as Xdr>::parse);
        u32::lemma_round_trip(m.0, rest);
    }

    fn encode(&self, out: &mut Vec<u8>) -> (r: Result<(), EncodeError>) {
        proof {
            reveal(<Xid as Xdr>::wire);
        }
        let _ = self.0.encode(out);
        Ok(())
    }

    fn decode<'a>(input: &'a [u8]) -> (r: Result<(Xid, &'a [u8]), XdrError>) {
        proof {
            reveal(<Xid as Xdr>::parse);
        }
        let (f0, cur) = u32::decode(input)?;
        Ok((Xid(f0), cur))
    }
}

/// A message of Sun-RPC: a call or a reply under a transaction identifier.
#[derive(Clone, Debug, PartialEq, Eq, PartialOrd, Ord)]
pub struct Message<T> {
    pub xid: Xid,
    pub body: MessageBody<T>,
}

/// What a [`Message`] stands for.
pub struct MessageModel<M> {
    pub xid: Xid,
    pub body: MessageBodyModel<M>,
}

impl<T: Xdr> Xdr for Message<T> {
    type Model = MessageModel<T::Model>;

    open spec fn canonical(&self) -> bool {
        self.body.canonical()
    }

    #[verifier::opaque]
    open spec fn model(&self) -> MessageModel<T::Model> {
        MessageModel { xid: self.xid.model(), body: self.body.model() }
    }

    #[verifier::opaque]
    open spec fn wf(m: MessageModel<T::Model>) -> bool {
        &&& Xid::wf(m.xid)
        &&& MessageBody::<T>::wf(m.body)
    }

    #[verifier::opaque]
    open spec fn wire(m: MessageModel<T::Model>) -> Seq<u8> {
        Xid::wire(m.xid) + MessageBody::<T>::wire(m.body)
    }

    #[verifier::opaque]
    open spec fn parse(s: Seq<u8>) -> Result<(MessageModel<T::Model>, Seq<u8>), XdrError> {
        match Xid::parse(s) {
            Err(e) => Err(e),
            Ok((xid, s1)) => match MessageBody::<T>::parse(s1) {
                Err(e) => Err(e),
                Ok((body, s2)) => Ok((MessageModel { xid, body }, s2)),
            },
        }
    }

    proof fn lemma_round_trip(m: MessageModel<T::Model>, rest: Seq<u8>) {
        reveal(<Message<_> as Xdr>::wf);
        reveal(<Message<_> as Xdr>::wire);
        reveal(<Message<_> as Xdr>::parse);
        let w1 = Xid::wire(m.xid);
        let w2 = MessageBody::<T>::wire(m.body);
        let r2 = rest;
        let r1 = w2 + r2;
        lemma_concat_assoc(w1, w2, r2);
        Xid::lemma_round_trip(m.xid, r1);
        MessageBody::<T>::lemma_round_trip(m.body, r2);
    }

    fn encode(&self, out: &mut Vec<u8>) -> (r: Result<(), EncodeError>) {
        proof {
            reveal(<Message<_> as Xdr>::model);
            reveal(<Message<_> as Xdr>::wf);
            reveal(<Message<_> as Xdr>::wire);
        }
        let ghost m = self.model();
        let ghost w1 = Xid::wire(m.xid);
        let ghost w2 = MessageBody::<T>::wire(m.body);
        self.xid.encode(out)?;
        self.body.encode(out)?;
        proof {
            lemma_concat_assoc(old(out)@, w1, w2);
        }
        Ok(())
    }

    fn decode<'a>(input: &'a [u8]) -> (r: Result<(Message<T>, &'a [u8]), XdrError>) {
        proof {
            reveal(<Message<_> as Xdr>::model);
            reveal(<Message<_> as Xdr>::parse);
        }
        let (xid, cur) = Xid::decode(input)?;
        let (body, cur) = MessageBody::<T>::decode(cur)?;
        Ok((Message { xid, body }, cur))
    }
}

/// A call: the procedure of a program, who calls, and the arguments.
#[derive(Clone, Debug, PartialEq, Eq, PartialOrd, Ord)]
pub struct CallBody<T> {
    pub rpc_version: u32,
    pub program: u32,
    pub version: u32,
    pub procedure: u32,
    pub credential: OpaqueAuth,
    pub verifier: OpaqueAuth,
    pub call_args: T,
}

/// What a [`CallBody`] stands for.
pub struct CallBodyModel<M> {
    pub rpc_version: u32,
    pub program: u32,
    pub version: u32,
    pub procedure: u32,
    pub credential: OpaqueAuthModel,
    pub verifier: OpaqueAuthModel,
    pub call_args: M,
}

impl<T: Xdr> Xdr for CallBody<T> {
    type Model = CallBodyModel<T::Model>;

    open spec fn canonical(&self) -> bool {
        self.call_args.canonical()
    }

    #[verifier::opaque]
    open spec fn model(&self) -> CallBodyModel<T::Model> {
        CallBodyModel {
            rpc_version: self.rpc_version.model(),
            program: self.program.model(),
            version: self.version.model(),
            procedure: self.procedure.model(),
            credential: self.credential.model(),
            verifier: self.verifier.model(),
            call_args: self.call_args.model(),
        }
    }

    #[verifier::opaque]
    open spec fn wf(m: CallBodyModel<T::Model>) -> bool {
        &&& OpaqueAuth::wf(m.credential)
        &&& OpaqueAuth::wf(m.verifier)
        &&& T::wf(m.call_args)
    }

    #[verifier::opaque]
    open spec fn wire(m: CallBodyModel<T::Model>) -> Seq<u8> {
        u32::wire(m.rpc_version)
            + u32::wire(m.program)
            + u32::wire(m.version)
            + u32::wire(m.procedure)
            + OpaqueAuth::wire(m.credential)
            + OpaqueAuth::wire(m.verifier)
            + T::wire(m.call_args)
    }

    #[verifier::opaque]
    open spec fn parse(s: Seq<u8>) -> Result<(CallBodyModel<T::Model>, Seq<u8>), XdrError> {
        match u32::parse(s) {
            Err(e) => Err(e),
            Ok((rpc_version, s1)) => match u32::parse(s1) {
                Err(e) => Err(e),
                Ok((program, s2)) => match u32::parse(s2) {
                    Err(e) => Err(e),
                    Ok((version, s3)) => match u32::parse(s3) {
                        Err(e) => Err(e),
                        Ok((procedure, s4)) => match OpaqueAuth::parse(s4) {
                            Err(e) => Err(e),
                            Ok((credential, s5)) => match OpaqueAuth::parse(s5) {
                                Err(e) => Err(e),
                                Ok((verifier, s6)) => match T::parse(s6) {
                                    Err(e) => Err(e),
                                    Ok((call_args, s7)) => {
                                        Ok(
                                            (
                                                CallBodyModel {
                                                    rpc_version,
                                                    program,
                                                    version,
                                                    procedure,
                                                    credential,
                                                    verifier,
                                                    call_args,
                                                },
                                                s7,
                                            ),
                                        )
                                    },
                                },
                            },
                        },
                    },
                },
            },
        }
    }

    proof fn lemma_round_trip(m: CallBodyModel<T::Model>, rest: Seq<u8>) {
        reveal(<CallBody<_> as Xdr>::wf);
        reveal(<CallBody<_> as Xdr>::wire);
        reveal(<CallBody<_> as Xdr>::parse);
        let w1 = u32::wire(m.rpc_version);
        let w2 = u32::wire(m.program);
        let w3 = u32::wire(m.version);
        let w4 = u32::wire(m.procedure);
        let w5 = OpaqueAuth::wire(m.credential);
        let w6 = OpaqueAuth::wire(m.verifier);
        let w7 = T::wire(m.call_args);
        let r7 = rest;
        let r6 = w7 + r7;
        let r5 = w6 + r6;
        let r4 = w5 + r5;
        let r3 = w4 + r4;
        let r2 = w3 + r3;
        let r1 = w2 + r2;
        lemma_concat_assoc(w1 + w2 + w3 + w4 + w5 + w6, w7, r7);
        lemma_concat_assoc(w1 + w2 + w3 + w4 + w5, w6, r6);
        lemma_concat_assoc(w1 + w2 + w3 + w4, w5, r5);
        lemma_concat_assoc(w1 + w2 + w3, w4, r4);
        lemma_concat_assoc(w1 + w2, w3, r3);
        lemma_concat_assoc(w1, w2, r2);
        u32::lemma_round_trip(m.rpc_version, r1);
        u32::lemma_round_trip(m.program, r2);
        u32::lemma_round_trip(m.version, r3);
        u32::lemma_round_trip(m.procedure, r4);
        OpaqueAuth::lemma_round_trip(m.credential, r5);
        OpaqueAuth::lemma_round_trip(m.verifier, r6);
        T::lemma_round_trip(m.call_args, r7);
    }

    fn encode(&self, out: &mut Vec<u8>) -> (r: Result<(), EncodeError>) {
        proof {
            reveal(<CallBody<_> as Xdr>::model);
            reveal(<CallBody<_> as Xdr>::wf);
            reveal(<CallBody<_> as Xdr>::wire);
        }
        let ghost m = self.model();
        let ghost w1 = u32::wire(m.rpc_version);
        let ghost w2 = u32::wire(m.program);
        let ghost w3 = u32::wire(m.version);
        let ghost w4 = u32::wire(m.procedure);
        let ghost w5 = OpaqueAuth::wire(m.credential);
        let ghost w6 = OpaqueAuth::wire(m.verifier);
        let ghost w7 = T::wire(m.call_args);
        let _ = self.rpc_version.encode(out);
        let _ = self.program.encode(out);
        proof {
            lemma_concat_assoc(old(out)@, w1, w2);
        }
        let _ = self.version.encode(out);
        proof {
            lemma_concat_assoc(old(out)@, w1 + w2, w3);
        }
        let _ = self.procedure.encode(out);
        proof {
            lemma_concat_assoc(old(out)@, w1 + w2 + w3, w4);
        }
        self.credential.encode(out)?;
        proof {
            lemma_concat_assoc(old(out)@, w1 + w2 + w3 + w4, w5);
        }
        self.verifier.encode(out)?;
        proof {
            lemma_concat_assoc(old(out)@, w1 + w2 + w3 + w4 + w5, w6);
        }
        self.call_args.encode(out)?;
        proof {
            lemma_concat_assoc(old(out)@, w1 + w2 + w3 + w4 + w5 + w6, w7);
        }
        Ok(())
    }

    fn decode<'a>(input: &'a [u8]) -> (r: Result<(CallBody<T>, &'a [u8]), XdrError>) {
        proof {
            reveal(<CallBody<_> as Xdr>::model);
            reveal(<CallBody<_> as Xdr>::parse);
        }
        let (rpc_version, cur) = u32::decode(input)?;
        let (program, cur) = u32::decode(cur)?;
        let (version, cur) = u32::decode(cur)?;
        let (procedure, cur) = u32::decode(cur)?;
        let (credential, cur) = OpaqueAuth::decode(cur)?;
        let (verifier, cur) = OpaqueAuth::decode(cur)?;
        let (call_args, cur) = T::decode(cur)?;
        Ok(
            (
                CallBody {
                    rpc_version,
                    program,
                    version,
                    procedure,
                    credential,
                    verifier,
                    call_args,
                },
                cur,
            ),
        )
    }
}

/// What became of a call that was accepted.
#[derive(Clone, Debug, PartialEq, Eq, PartialOrd, Ord)]
pub enum AcceptedReplyBody<T> {
    Success(T),
    ProgramUnavailable,
    ProgramMismatch { low: u32, high: u32 },
    ProcedureUnavailable,
    GarbageArguments,
    SystemError,
}

/// What a [`AcceptedReplyBody`] stands for.
pub enum AcceptedReplyBodyModel<M> {
    Success(M),
    ProgramUnavailable,
    ProgramMismatch { low: u32, high: u32 },
    ProcedureUnavailable,
    GarbageArguments,
    SystemError,
}

impl<T: Xdr> AcceptedReplyBody<T> {
    /// The discriminant that leads the encoding of a value.
    pub open spec fn tag(m: AcceptedReplyBodyModel<T::Model>) -> u32 {
        match m {
            AcceptedReplyBodyModel::Success(..) => 0,
            AcceptedReplyBodyModel::ProgramUnavailable => 1,
            AcceptedReplyBodyModel::ProgramMismatch { .. } => 2,
            AcceptedReplyBodyModel::ProcedureUnavailable => 3,
            AcceptedReplyBodyModel::GarbageArguments => 4,
            AcceptedReplyBodyModel::SystemError => 5,
        }
    }

    /// What follows the discriminant in the encoding of a value.
    #[verifier::opaque]
    pub open spec fn wire_payload(m: AcceptedReplyBodyModel<T::Model>) -> Seq<u8> {
        match m {
            AcceptedReplyBodyModel::Success(f0) => T::wire(f0),
            AcceptedReplyBodyModel::ProgramUnavailable => Seq::<u8>::empty(),
            AcceptedReplyBodyModel::ProgramMismatch { low, high } => {
                u32::wire(low) + u32::wire(high)
            },
            AcceptedReplyBodyModel::ProcedureUnavailable => Seq::<u8>::empty(),
            AcceptedReplyBodyModel::GarbageArguments => Seq::<u8>::empty(),
            AcceptedReplyBodyModel::SystemError => Seq::<u8>::empty(),
        }
    }

    /// The value with the discriminant `tag` whose payload is at the front of `s`.
    #[verifier::opaque]
    pub open spec fn parse_payload(
        tag: u32,
        s: Seq<u8>,
    ) -> Result<(AcceptedReplyBodyModel<T::Model>, Seq<u8>), XdrError> {
        if tag == 0 {
            match T::parse(s) {
                Err(e) => Err(e),
                Ok((f0, s1)) => Ok((AcceptedReplyBodyModel::Success(f0), s1)),
            }
        } else if tag == 1 {
            Ok((AcceptedReplyBodyModel::ProgramUnavailable, s))
        } else if tag == 2 {
            match u32::parse(s) {
                Err(e) => Err(e),
                Ok((low, s1)) => match u32::parse(s1) {
                    Err(e) => Err(e),
                    Ok((high, s2)) => {
                        Ok((AcceptedReplyBodyModel::ProgramMismatch { low, high }, s2))
                    },
                },
            }
        } else if tag == 3 {
            Ok((AcceptedReplyBodyModel::ProcedureUnavailable, s))
        } else if tag == 4 {
            Ok((AcceptedReplyBodyModel::GarbageArguments, s))
        } else if tag == 5 {
            Ok((AcceptedReplyBodyModel::SystemError, s))
        } else {
            Err(XdrError::BadDiscriminant("AcceptedReplyBody", tag))
        }
    }

    pub proof fn lemma_payload_round_trip(m: AcceptedReplyBodyModel<T::Model>, rest: Seq<u8>)
        requires
            <AcceptedReplyBody<T> as Xdr>::wf(m),
        ensures
            Self::parse_payload(Self::tag(m), Self::wire_payload(m) + rest)
                == Ok::<(AcceptedReplyBodyModel<T::Model>, Seq<u8>), XdrError>((m, rest)),
    {
        reveal(<AcceptedReplyBody<_> as Xdr>::wf);
        reveal(AcceptedReplyBody::<_>::wire_payload);
        reveal(AcceptedReplyBody::<_>::parse_payload);
        match m {
            AcceptedReplyBodyModel::Success(f0) => {
                T::lemma_round_trip(f0, rest);
            },
            AcceptedReplyBodyModel::ProgramUnavailable => {
                assert(Seq::<u8>::empty() + rest =~= rest);
            },
            AcceptedReplyBodyModel::ProgramMismatch { low, high } => {
                let w1 = u32::wire(low);
                let w2 = u32::wire(high);
                let r2 = rest;
                let r1 = w2 + r2;
                lemma_concat_assoc(w1, w2, r2);
                u32::lemma_round_trip(low, r1);
                u32::lemma_round_trip(high, r2);
            },
            AcceptedReplyBodyModel::ProcedureUnavailable => {
                assert(Seq::<u8>::empty() + rest =~= rest);
            },
            AcceptedReplyBodyModel::GarbageArguments => {
                assert(Seq::<u8>::empty() + rest =~= rest);
            },
            AcceptedReplyBodyModel::SystemError => {
                assert(Seq::<u8>::empty() + rest =~= rest);
            },
        }
    }

    /// The encoding of a value begins with its discriminant, big-endian.
    pub proof fn lemma_wire_leads_with_tag(m: AcceptedReplyBodyModel<T::Model>)
        ensures
            <AcceptedReplyBody<T> as Xdr>::wire(m).len() >= 4,
            <AcceptedReplyBody<T> as Xdr>::wire(m).take(4) == wire_u32(Self::tag(m)),
    {
        reveal(<AcceptedReplyBody<_> as Xdr>::wire);
        reveal(wire_u32);
        assert((wire_u32(Self::tag(m)) + Self::wire_payload(m)).take(4) =~= wire_u32(Self::tag(m)));
    }

    /// The discriminant of a value.
    pub fn tag_of(&self) -> (t: u32)
        ensures
            t == Self::tag(self.model()),
    {
        proof {
            reveal(<AcceptedReplyBody<_> as Xdr>::model);
        }
        match self {
            AcceptedReplyBody::Success(..) => 0,
            AcceptedReplyBody::ProgramUnavailable => 1,
            AcceptedReplyBody::ProgramMismatch { .. } => 2,
            AcceptedReplyBody::ProcedureUnavailable => 3,
            AcceptedReplyBody::GarbageArguments => 4,
            AcceptedReplyBody::SystemError => 5,
        }
    }

    /// Appends what follows the discriminant in the encoding of `self`.
    pub fn encode_payload(&self, out: &mut Vec<u8>) -> (r: Result<(), EncodeError>)
        ensures
            r is Ok <==> <AcceptedReplyBody<T> as Xdr>::wf(self.model()),
            r is Ok ==> final(out)@ == old(out)@ + Self::wire_payload(self.model()),
    {
        proof {
            reveal(<AcceptedReplyBody<_> as Xdr>::model);
            reveal(<AcceptedReplyBody<_> as Xdr>::wf);
            reveal(AcceptedReplyBody::<_>::wire_payload);
        }
        match self {
            AcceptedReplyBody::Success(f0) => {
                f0.encode(out)?;
            },
            AcceptedReplyBody::ProgramUnavailable => {
                assert(out@ =~= old(out)@ + Seq::<u8>::empty());
            },
            AcceptedReplyBody::ProgramMismatch { low, high } => {
                let ghost w1 = u32::wire(low.model());
                let ghost w2 = u32::wire(high.model());
                let _ = low.encode(out);
                let _ = high.encode(out);
                proof {
                    lemma_concat_assoc(old(out)@, w1, w2);
                }
            },
            AcceptedReplyBody::ProcedureUnavailable => {
                assert(out@ =~= old(out)@ + Seq::<u8>::empty());
            },
            AcceptedReplyBody::GarbageArguments => {
                assert(out@ =~= old(out)@ + Seq::<u8>::empty());
            },
            AcceptedReplyBody::SystemError => {
                assert(out@ =~= old(out)@ + Seq::<u8>::empty());
            },
        }
        Ok(())
    }

    /// Decodes the payload of the value with the discriminant `tag`.
    pub fn decode_payload<'a>(
        tag: u32,
        input: &'a [u8],
    ) -> (r: Result<(AcceptedReplyBody<T>, &'a [u8]), XdrError>)
        ensures
            match r {
                Ok((v, rest)) => {
                    Self::parse_payload(tag, input@)
                        == Ok::<(AcceptedReplyBodyModel<T::Model>, Seq<u8>), XdrError>(
                            (v.model(), rest@),
                        )
                },
                Err(e) => {
                    Self::parse_payload(tag, input@)
                        == Err::<(AcceptedReplyBodyModel<T::Model>, Seq<u8>), XdrError>(e)
                },
            },
            r matches Ok((v, _)) ==> v.canonical(),
    {
        proof {
            reveal(<AcceptedReplyBody<_> as Xdr>::model);
            reveal(AcceptedReplyBody::<_>::parse_payload);
        }
        if tag == 0 {
            let (f0, cur) = T::decode(input)?;
            Ok((AcceptedReplyBody::Success(f0), cur))
        } else if tag == 1 {
            Ok((AcceptedReplyBody::ProgramUnavailable, input))
        } else if tag == 2 {
            let (low, cur) = u32::decode(input)?;
            let (high, cur) = u32::decode(cur)?;
            Ok((AcceptedReplyBody::ProgramMismatch { low, high }, cur))
        } else if tag == 3 {
            Ok((AcceptedReplyBody::ProcedureUnavailable, input))
        } else if tag == 4 {
            Ok((AcceptedReplyBody::GarbageArguments, input))
        } else if tag == 5 {
            Ok((AcceptedReplyBody::SystemError, input))
        } else {
            Err(XdrError::BadDiscriminant("AcceptedReplyBody", tag))
        }
    }
}

impl<T: Xdr> Xdr for AcceptedReplyBody<T> {
    type Model = AcceptedReplyBodyModel<T::Model>;

    open spec fn canonical(&self) -> bool {
        match self {
            AcceptedReplyBody::Success(v) => v.canonical(),
            _ => true,
        }
    }

    #[verifier::opaque]
    open spec fn model(&self) -> AcceptedReplyBodyModel<T::Model> {
        match self {
            AcceptedReplyBody::Success(f0) => AcceptedReplyBodyModel::Success(f0.model()),
            AcceptedReplyBody::ProgramUnavailable => AcceptedReplyBodyModel::ProgramUnavailable,
            AcceptedReplyBody::ProgramMismatch { low, high } => {
                AcceptedReplyBodyModel::ProgramMismatch { low: low.model(), high: high.model() }
            },
            AcceptedReplyBody::ProcedureUnavailable => AcceptedReplyBodyModel::ProcedureUnavailable,
            AcceptedReplyBody::GarbageArguments => AcceptedReplyBodyModel::GarbageArguments,
            AcceptedReplyBody::SystemError => AcceptedReplyBodyModel::SystemError,
        }
    }

    #[verifier::opaque]
    open spec fn wf(m: AcceptedReplyBodyModel<T::Model>) -> bool {
        match m {
            AcceptedReplyBodyModel::Success(f0) => T::wf(f0),
            AcceptedReplyBodyModel::ProgramUnavailable => true,
            AcceptedReplyBodyModel::ProgramMismatch { .. } => true,
            AcceptedReplyBodyModel::ProcedureUnavailable => true,
            AcceptedReplyBodyModel::GarbageArguments => true,
            AcceptedReplyBodyModel::SystemError => true,
        }
    }

    #[verifier::opaque]
    open spec fn wire(m: AcceptedReplyBodyModel<T::Model>) -> Seq<u8> {
        wire_u32(Self::tag(m)) + Self::wire_payload(m)
    }

    #[verifier::opaque]
    open spec fn parse(
        s: Seq<u8>,
    ) -> Result<(AcceptedReplyBodyModel<T::Model>, Seq<u8>), XdrError> {
        match parse_u32(s) {
            Ok((tag, r)) => Self::parse_payload(tag, r),
            Err(e) => Err(e),
        }
    }

    proof fn lemma_round_trip(m: AcceptedReplyBodyModel<T::Model>, rest: Seq<u8>) {
        reveal(<AcceptedReplyBody<_> as Xdr>::wire);
        reveal(<AcceptedReplyBody<_> as Xdr>::parse);
        lemma_concat_assoc(wire_u32(Self::tag(m)), Self::wire_payload(m), rest);
        lemma_u32_round_trip(Self::tag(m), Self::wire_payload(m) + rest);
        Self::lemma_payload_round_trip(m, rest);
    }

    fn encode(&self, out: &mut Vec<u8>) -> (r: Result<(), EncodeError>) {
        proof {
            reveal(<AcceptedReplyBody<_> as Xdr>::wire);
        }
        let tag = self.tag_of();
        let _ = tag.encode(out);
        self.encode_payload(out)?;
        proof {
            lemma_concat_assoc(old(out)@, wire_u32(tag), Self::wire_payload(self.model()));
        }
        Ok(())
    }

    fn decode<'a>(input: &'a [u8]) -> (r: Result<(AcceptedReplyBody<T>, &'a [u8]), XdrError>) {
        proof {
            reveal(<AcceptedReplyBody<_> as Xdr>::parse);
        }
        let (tag, cur) = u32::decode(input)?;
        Self::decode_payload(tag, cur)
    }
}

#[derive(Clone, Debug, PartialEq, Eq, PartialOrd, Ord)]
pub struct AcceptedReply<T> {
    pub verifier: OpaqueAuth,
    pub body: AcceptedReplyBody<T>,
}

/// What a [`AcceptedReply`] stands for.
pub struct AcceptedReplyModel<M> {
    pub verifier: OpaqueAuthModel,
    pub body: AcceptedReplyBodyModel<M>,
}

impl<T: Xdr> Xdr for AcceptedReply<T> {
    type Model = AcceptedReplyModel<T::Model>;

    open spec fn canonical(&self) -> bool {
        self.body.canonical()
    }

    #[verifier::opaque]
    open spec fn model(&self) -> AcceptedReplyModel<T::Model> {
        AcceptedReplyModel { verifier: self.verifier.model(), body: self.body.model() }
    }

    #[verifier::opaque]
    open spec fn wf(m: AcceptedReplyModel<T::Model>) -> bool {
        &&& OpaqueAuth::wf(m.verifier)
        &&& AcceptedReplyBody::<T>::wf(m.body)
    }

    #[verifier::opaque]
    open spec fn wire(m: AcceptedReplyModel<T::Model>) -> Seq<u8> {
        OpaqueAuth::wire(m.verifier) + AcceptedReplyBody::<T>::wire(m.body)
    }

    #[verifier::opaque]
    open spec fn parse(s: Seq<u8>) -> Result<(AcceptedReplyModel<T::Model>, Seq<u8>), XdrError> {
        match OpaqueAuth::parse(s) {
            Err(e) => Err(e),
            Ok((verifier, s1)) => match AcceptedReplyBody::<T>::parse(s1) {
                Err(e) => Err(e),
                Ok((body, s2)) => Ok((AcceptedReplyModel { verifier, body }, s2)),
            },
        }
    }

    proof fn lemma_round_trip(m: AcceptedReplyModel<T::Model>, rest: Seq<u8>) {
        reveal(<AcceptedReply<_> as Xdr>::wf);
        reveal(<AcceptedReply<_> as Xdr>::wire);
        reveal(<AcceptedReply<_> as Xdr>::parse);
        let w1 = OpaqueAuth::wire(m.verifier);
        let w2 = AcceptedReplyBody::<T>::wire(m.body);
        let r2 = rest;
        let r1 = w2 + r2;
        lemma_concat_assoc(w1, w2, r2);
        OpaqueAuth::lemma_round_trip(m.verifier, r1);
        AcceptedReplyBody::<T>::lemma_round_trip(m.body, r2);
    }

    fn encode(&self, out: &mut Vec<u8>) -> (r: Result<(), EncodeError>) {
        proof {
            reveal(<AcceptedReply<_> as Xdr>::model);
            reveal(<AcceptedReply<_> as Xdr>::wf);
            reveal(<AcceptedReply<_> as Xdr>::wire);
        }
        let ghost m = self.model();
        let ghost w1 = OpaqueAuth::wire(m.verifier);
        let ghost w2 = AcceptedReplyBody::<T>::wire(m.body);
        self.verifier.encode(out)?;
        self.body.encode(out)?;
        proof {
            lemma_concat_assoc(old(out)@, w1, w2);
        }
        Ok(())
    }

    fn decode<'a>(input: &'a [u8]) -> (r: Result<(AcceptedReply<T>, &'a [u8]), XdrError>) {
        proof {
            reveal(<AcceptedReply<_> as Xdr>::model);
            reveal(<AcceptedReply<_> as Xdr>::parse);
        }
        let (verifier, cur) = OpaqueAuth::decode(input)?;
        let (body, cur) = AcceptedReplyBody::<T>::decode(cur)?;
        Ok((AcceptedReply { verifier, body }, cur))
    }
}

/// The flavors of authentication.
#[derive(Clone, Debug, PartialEq, Eq, PartialOrd, Ord)]
pub enum AuthFlavor {
    Null,
    Sys,
    Short,
    Dh,
    RpcSecGss,
}

impl AuthFlavor {
    /// The discriminant that leads the encoding of a value.
    pub open spec fn tag(m: AuthFlavor) -> u32 {
        match m {
            AuthFlavor::Null => 0,
            AuthFlavor::Sys => 1,
            AuthFlavor::Short => 2,
            AuthFlavor::Dh => 3,
            AuthFlavor::RpcSecGss => 6,
        }
    }

    /// What follows the discriminant in the encoding of a value.
    #[verifier::opaque]
    pub open spec fn wire_payload(m: AuthFlavor) -> Seq<u8> {
        match m {
            AuthFlavor::Null => Seq::<u8>::empty(),
            AuthFlavor::Sys => Seq::<u8>::empty(),
            AuthFlavor::Short => Seq::<u8>::empty(),
            AuthFlavor::Dh => Seq::<u8>::empty(),
            AuthFlavor::RpcSecGss => Seq::<u8>::empty(),
        }
    }

    /// The value with the discriminant `tag` whose payload is at the front of `s`.
    #[verifier::opaque]
    pub open spec fn parse_payload(
        tag: u32,
        s: Seq<u8>,
    ) -> Result<(AuthFlavor, Seq<u8>), XdrError> {
        if tag == 0 {
            Ok((AuthFlavor::Null, s))
        } else if tag == 1 {
            Ok((AuthFlavor::Sys, s))
        } else if tag == 2 {
            Ok((AuthFlavor::Short, s))
        } else if tag == 3 {
            Ok((AuthFlavor::Dh, s))
        } else if tag == 6 {
            Ok((AuthFlavor::RpcSecGss, s))
        } else {
            Err(XdrError::BadDiscriminant("AuthFlavor", tag))
        }
    }

    pub proof fn lemma_payload_round_trip(m: AuthFlavor, rest: Seq<u8>)
        requires
            <AuthFlavor as Xdr>::wf(m),
        ensures
            Self::parse_payload(Self::tag(m), Self::wire_payload(m) + rest)
                == Ok::<(AuthFlavor, Seq<u8>), XdrError>((m, rest)),
    {
        reveal(AuthFlavor::wire_payload);
        reveal(AuthFlavor::parse_payload);
        match m {
            AuthFlavor::Null => {
                assert(Seq::<u8>::empty() + rest =~= rest);
            },
            AuthFlavor::Sys => {
                assert(Seq::<u8>::empty() + rest =~= rest);
            },
            AuthFlavor::Short => {
                assert(Seq::<u8>::empty() + rest =~= rest);
            },
            AuthFlavor::Dh => {
                assert(Seq::<u8>::empty() + rest =~= rest);
            },
            AuthFlavor::RpcSecGss => {
                assert(Seq::<u8>::empty() + rest =~= rest);
            },
        }
    }

    /// The encoding of a value begins with its discriminant, big-endian.
    pub proof fn lemma_wire_leads_with_tag(m: AuthFlavor)
        ensures
            <AuthFlavor as Xdr>::wire(m).len() >= 4,
            <AuthFlavor as Xdr>::wire(m).take(4) == wire_u32(Self::tag(m)),
    {
        reveal(<AuthFlavor as Xdr>::wire);
        reveal(wire_u32);
        assert((wire_u32(Self::tag(m)) + Self::wire_payload(m)).take(4) =~= wire_u32(Self::tag(m)));
    }

    /// The discriminant of a value.
    pub fn tag_of(&self) -> (t: u32)
        ensures
            t == Self::tag(self.model()),
    {
        match self {
            AuthFlavor::Null => 0,
            AuthFlavor::Sys => 1,
            AuthFlavor::Short => 2,
            AuthFlavor::Dh => 3,
            AuthFlavor::RpcSecGss => 6,
        }
    }

    /// Appends what follows the discriminant in the encoding of `self`.
    pub fn encode_payload(&self, out: &mut Vec<u8>) -> (r: Result<(), EncodeError>)
        ensures
            r is Ok <==> <AuthFlavor as Xdr>::wf(self.model()),
            r is Ok ==> final(out)@ == old(out)@ + Self::wire_payload(self.model()),
    {
        proof {
            reveal(AuthFlavor::wire_payload);
        }
        match self {
            AuthFlavor::Null => {
                assert(out@ =~= old(out)@ + Seq::<u8>::empty());
            },
            AuthFlavor::Sys => {
                assert(out@ =~= old(out)@ + Seq::<u8>::empty());
            },
            AuthFlavor::Short => {
                assert(out@ =~= old(out)@ + Seq::<u8>::empty());
            },
            AuthFlavor::Dh => {
                assert(out@ =~= old(out)@ + Seq::<u8>::empty());
            },
            AuthFlavor::RpcSecGss => {
                assert(out@ =~= old(out)@ + Seq::<u8>::empty());
            },
        }
        Ok(())
    }

    /// Decodes the payload of the value with the discriminant `tag`.
    pub fn decode_payload<'a>(
        tag: u32,
        input: &'a [u8],
    ) -> (r: Result<(AuthFlavor, &'a [u8]), XdrError>)
        ensures
            match r {
                Ok((v, rest)) => {
                    Self::parse_payload(tag, input@)
                        == Ok::<(AuthFlavor, Seq<u8>), XdrError>((v.model(), rest@))
                },
                Err(e) => {
                    Self::parse_payload(tag, input@) == Err::<(AuthFlavor, Seq<u8>), XdrError>(e)
                },
            },
    {
        proof {
            reveal(AuthFlavor::parse_payload);
        }
        if tag == 0 {
            Ok((AuthFlavor::Null, input))
        } else if tag == 1 {
            Ok((AuthFlavor::Sys, input))
        } else if tag == 2 {
            Ok((AuthFlavor::Short, input))
        } else if tag == 3 {
            Ok((AuthFlavor::Dh, input))
        } else if tag == 6 {
            Ok((AuthFlavor::RpcSecGss, input))
        } else {
            Err(XdrError::BadDiscriminant("AuthFlavor", tag))
        }
    }
}

impl Xdr for AuthFlavor {
    type Model = AuthFlavor;

    open spec fn model(&self) -> AuthFlavor {
        *self
    }

    open spec fn wf(m: AuthFlavor) -> bool {
        true
    }

    #[verifier::opaque]
    open spec fn wire(m: AuthFlavor) -> Seq<u8> {
        wire_u32(Self::tag(m)) + Self::wire_payload(m)
    }

    #[verifier::opaque]
    open spec fn parse(s: Seq<u8>) -> Result<(AuthFlavor, Seq<u8>), XdrError> {
        match parse_u32(s) {
            Ok((tag, r)) => Self::parse_payload(tag, r),
            Err(e) => Err(e),
        }
    }

    proof fn lemma_round_trip(m: AuthFlavor, rest: Seq<u8>) {
        reveal(<AuthFlavor as Xdr>::wire);
        reveal(<AuthFlavor as Xdr>::parse);
        lemma_concat_assoc(wire_u32(Self::tag(m)), Self::wire_payload(m), rest);
        lemma_u32_round_trip(Self::tag(m), Self::wire_payload(m) + rest);
        Self::lemma_payload_round_trip(m, rest);
    }

    fn encode(&self, out: &mut Vec<u8>) -> (r: Result<(), EncodeError>) {
        proof {
            reveal(<AuthFlavor as Xdr>::wire);
        }
        let tag = self.tag_of();
        let _ = tag.encode(out);
        self.encode_payload(out)?;
        proof {
            lemma_concat_assoc(old(out)@, wire_u32(tag), Self::wire_payload(self.model()));
        }
        Ok(())
    }

    fn decode<'a>(input: &'a [u8]) -> (r: Result<(AuthFlavor, &'a [u8]), XdrError>) {
        proof {
            reveal(<AuthFlavor as Xdr>::parse);
        }
        let (tag, cur) = u32::decode(input)?;
        Self::decode_payload(tag, cur)
    }
}

#[derive(Clone, Copy, Debug, PartialEq, Eq, PartialOrd, Ord)]
pub struct Uid(pub u32);

impl Xdr for Uid {
    type Model = Uid;

    open spec fn model(&self) -> Uid {
        *self
    }

    open spec fn wf(m: Uid) -> bool {
        true
    }

    #[verifier::opaque]
    open spec fn wire(m: Uid) -> Seq<u8> {
        u32::wire(m.0)
    }

    #[verifier::opaque]
    open spec fn parse(s: Seq<u8>) -> Result<(Uid, Seq<u8>), XdrError> {
        match u32::parse(s) {
            Err(e) => Err(e),
            Ok((f0, s1)) => Ok((Uid(f0), s1)),
        }
    }

    proof fn lemma_round_trip(m: Uid, rest: Seq<u8>) {
        reveal(<Uid as Xdr>::wire);
        reveal(<Uid as Xdr>::parse);
        u32::lemma_round_trip(m.0, rest);
    }

    fn encode(&self, out: &mut Vec<u8>) -> (r: Result<(), EncodeError>) {
        proof {
            reveal(<Uid as Xdr>::wire);
        }
        let _ = self.0.encode(out);
        Ok(())
    }

    fn decode<'a>(input: &'a [u8]) -> (r: Result<(Uid, &'a [u8]), XdrError>) {
        proof {
            reveal(<Uid as Xdr>::parse);
        }
        let (f0, cur) = u32::decode(input)?;
        Ok((Uid(f0), cur))
    }
}

#[derive(Clone, Copy, Debug, PartialEq, Eq, PartialOrd, Ord)]
pub struct Gid(pub u32);

impl Xdr for Gid {
    type Model = Gid;

    open spec fn model(&self) -> Gid {
        *self
    }

    open spec fn wf(m: Gid) -> bool {
        true
    }

    #[verifier::opaque]
    open spec fn wire(m: Gid) -> Seq<u8> {
        u32::wire(m.0)
    }

    #[verifier::opaque]
    open spec fn parse(s: Seq<u8>) -> Result<(Gid, Seq<u8>), XdrError> {
        match u32::parse(s) {
            Err(e) => Err(e),
            Ok((f0, s1)) => Ok((Gid(f0), s1)),
        }
    }

    proof fn lemma_round_trip(m: Gid, rest: Seq<u8>) {
        reveal(<Gid as Xdr>::wire);
        reveal(<Gid as Xdr>::parse);
        u32::lemma_round_trip(m.0, rest);
    }

    fn encode(&self, out: &mut Vec<u8>) -> (r: Result<(), EncodeError>) {
        proof {
            reveal(<Gid as Xdr>::wire);
        }
        let _ = self.0.encode(out);
        Ok(())
    }

    fn decode<'a>(input: &'a [u8]) -> (r: Result<(Gid, &'a [u8]), XdrError>) {
        proof {
            reveal(<Gid as Xdr>::parse);
        }
        let (f0, cur) = u32::decode(input)?;
        Ok((Gid(f0), cur))
    }
}

/// What a credential of the flavor `Sys` says of the caller.
#[derive(Clone, Debug, PartialEq, Eq, PartialOrd, Ord)]
pub struct AuthSysParameters {
    pub stamp: i32,
    pub machine_name: String,
    pub uid: Uid,
    pub gid: Gid,
    pub gids: Vec<Gid>,
}

/// What a [`AuthSysParameters`] stands for.
pub struct AuthSysParametersModel {
    pub stamp: i32,
    pub machine_name: Seq<char>,
    pub uid: Uid,
    pub gid: Gid,
    pub gids: Seq<Gid>,
}

impl Xdr for AuthSysParameters {
    type Model = AuthSysParametersModel;

    #[verifier::opaque]
    open spec fn model(&self) -> AuthSysParametersModel {
        AuthSysParametersModel {
            stamp: self.stamp.model(),
            machine_name: self.machine_name.model(),
            uid: self.uid.model(),
            gid: self.gid.model(),
            gids: self.gids.model(),
        }
    }

    #[verifier::opaque]
    open spec fn wf(m: AuthSysParametersModel) -> bool {
        &&& String::wf(m.machine_name)
        &&& Uid::wf(m.uid)
        &&& Gid::wf(m.gid)
        &&& Vec::<Gid>::wf(m.gids)
    }

    #[verifier::opaque]
    open spec fn wire(m: AuthSysParametersModel) -> Seq<u8> {
        i32::wire(m.stamp)
            + String::wire(m.machine_name)
            + Uid::wire(m.uid)
            + Gid::wire(m.gid)
            + Vec::<Gid>::wire(m.gids)
    }

    #[verifier::opaque]
    open spec fn parse(s: Seq<u8>) -> Result<(AuthSysParametersModel, Seq<u8>), XdrError> {
        match i32::parse(s) {
            Err(e) => Err(e),
            Ok((stamp, s1)) => match String::parse(s1) {
                Err(e) => Err(e),
                Ok((machine_name, s2)) => match Uid::parse(s2) {
                    Err(e) => Err(e),
                    Ok((uid, s3)) => match Gid::parse(s3) {
                        Err(e) => Err(e),
                        Ok((gid, s4)) => match Vec::<Gid>::parse(s4) {
                            Err(e) => Err(e),
                            Ok((gids, s5)) => {
                                Ok(
                                    (
                                        AuthSysParametersModel {
                                            stamp,
                                            machine_name,
                                            uid,
                                            gid,
                                            gids,
                                        },
                                        s5,
                                    ),
                                )
                            },
                        },
                    },
                },
            },
        }
    }

    proof fn lemma_round_trip(m: AuthSysParametersModel, rest: Seq<u8>) {
        reveal(<AuthSysParameters as Xdr>::wf);
        reveal(<AuthSysParameters as Xdr>::wire);
        reveal(<AuthSysParameters as Xdr>::parse);
        let w1 = i32::wire(m.stamp);
        let w2 = String::wire(m.machine_name);
        let w3 = Uid::wire(m.uid);
        let w4 = Gid::wire(m.gid);
        let w5 = Vec::<Gid>::wire(m.gids);
        let r5 = rest;
        let r4 = w5 + r5;
        let r3 = w4 + r4;
        let r2 = w3 + r3;
        let r1 = w2 + r2;
        lemma_concat_assoc(w1 + w2 + w3 + w4, w5, r5);
        lemma_concat_assoc(w1 + w2 + w3, w4, r4);
        lemma_concat_assoc(w1 + w2, w3, r3);
        lemma_concat_assoc(w1, w2, r2);
        i32::lemma_round_trip(m.stamp, r1);
        String::lemma_round_trip(m.machine_name, r2);
        Uid::lemma_round_trip(m.uid, r3);
        Gid::lemma_round_trip(m.gid, r4);
        Vec::<Gid>::lemma_round_trip(m.gids, r5);
    }

    fn encode(&self, out: &mut Vec<u8>) -> (r: Result<(), EncodeError>) {
        proof {
            reveal(<AuthSysParameters as Xdr>::model);
            reveal(<AuthSysParameters as Xdr>::wf);
            reveal(<AuthSysParameters as Xdr>::wire);
        }
        let ghost m = self.model();
        let ghost w1 = i32::wire(m.stamp);
        let ghost w2 = String::wire(m.machine_name);
        let ghost w3 = Uid::wire(m.uid);
        let ghost w4 = Gid::wire(m.gid);
        let ghost w5 = Vec::<Gid>::wire(m.gids);
        let _ = self.stamp.encode(out);
        self.machine_name.encode(out)?;
        proof {
            lemma_concat_assoc(old(out)@, w1, w2);
        }
        self.uid.encode(out)?;
        proof {
            lemma_concat_assoc(old(out)@, w1 + w2, w3);
        }
        self.gid.encode(out)?;
        proof {
            lemma_concat_assoc(old(out)@, w1 + w2 + w3, w4);
        }
        self.gids.encode(out)?;
        proof {
            lemma_concat_assoc(old(out)@, w1 + w2 + w3 + w4, w5);
        }
        Ok(())
    }

    fn decode<'a>(input: &'a [u8]) -> (r: Result<(AuthSysParameters, &'a [u8]), XdrError>) {
        proof {
            reveal(<AuthSysParameters as Xdr>::model);
            reveal(<AuthSysParameters as Xdr>::parse);
        }
        let (stamp, cur) = i32::decode(input)?;
        let (machine_name, cur) = String::decode(cur)?;
        let (uid, cur) = Uid::decode(cur)?;
        let (gid, cur) = Gid::decode(cur)?;
        let (gids, cur) = Vec::<Gid>::decode(cur)?;
        Ok((AuthSysParameters { stamp, machine_name, uid, gid, gids }, cur))
    }
}

impl AuthSysParameters {
    /// A credential body is opaque data: the encoding of parameters that can
    /// be encoded at all is short enough for it only if it fits in 32 bits,
    /// which the encoding of the parameters of this client does.
    pub proof fn lemma_wire_fits(m: AuthSysParametersModel)
        requires
            m.machine_name.len() <= 255,
            m.gids.len() <= 16,
            is_ascii_chars(m.machine_name),
        ensures
            wf_opaque(AuthSysParameters::wire(m)),
    {
        reveal(<AuthSysParameters as Xdr>::wire);
        reveal(<Uid as Xdr>::wire);
        reveal(<Gid as Xdr>::wire);
        reveal(wire_u32);
        reveal(wire_opaque);
        reveal(wire_fixed);
        is_ascii_chars_encode_utf8(m.machine_name);
        lemma_gids_len(m.gids);
    }
}

/// The encoding of `n` group identifiers takes `4 * n` octets.
pub proof fn lemma_gids_len(gids: Seq<Gid>)
    ensures
        wire_each::<Gid>(gids).len() == 4 * gids.len(),
        Vec::<Gid>::wire(gids).len() == 4 + 4 * gids.len(),
    decreases gids.len(),
{
    reveal(wire_each);
    reveal(<Gid as Xdr>::wire);
    reveal(wire_u32);
    if gids.len() > 0 {
        lemma_gids_len(gids.drop_first());
    }
}

/// A credential or verifier: a flavor and a body that only the flavor explains.
#[derive(Clone, Debug, PartialEq, Eq, PartialOrd, Ord)]
pub struct OpaqueAuth {
    pub flavor: AuthFlavor,
    pub body: Vec<u8>,
}

/// What a [`OpaqueAuth`] stands for.
pub struct OpaqueAuthModel {
    pub flavor: AuthFlavor,
    pub body: Seq<u8>,
}

impl Xdr for OpaqueAuth {
    type Model = OpaqueAuthModel;

    #[verifier::opaque]
    open spec fn model(&self) -> OpaqueAuthModel {
        OpaqueAuthModel { flavor: self.flavor.model(), body: self.body@ }
    }

    #[verifier::opaque]
    open spec fn wf(m: OpaqueAuthModel) -> bool {
        &&& AuthFlavor::wf(m.flavor)
        &&& wf_opaque(m.body)
    }

    #[verifier::opaque]
    open spec fn wire(m: OpaqueAuthModel) -> Seq<u8> {
        AuthFlavor::wire(m.flavor) + wire_opaque(m.body)
    }

    #[verifier::opaque]
    open spec fn parse(s: Seq<u8>) -> Result<(OpaqueAuthModel, Seq<u8>), XdrError> {
        match AuthFlavor::parse(s) {
            Err(e) => Err(e),
            Ok((flavor, s1)) => match parse_opaque(s1) {
                Err(e) => Err(e),
                Ok((body, s2)) => Ok((OpaqueAuthModel { flavor, body }, s2)),
            },
        }
    }

    proof fn lemma_round_trip(m: OpaqueAuthModel, rest: Seq<u8>) {
        reveal(<OpaqueAuth as Xdr>::wf);
        reveal(<OpaqueAuth as Xdr>::wire);
        reveal(<OpaqueAuth as Xdr>::parse);
        let w1 = AuthFlavor::wire(m.flavor);
        let w2 = wire_opaque(m.body);
        let r2 = rest;
        let r1 = w2 + r2;
        lemma_concat_assoc(w1, w2, r2);
        AuthFlavor::lemma_round_trip(m.flavor, r1);
        lemma_opaque_round_trip(m.body, r2);
    }

    fn encode(&self, out: &mut Vec<u8>) -> (r: Result<(), EncodeError>) {
        proof {
            reveal(<OpaqueAuth as Xdr>::model);
            reveal(<OpaqueAuth as Xdr>::wf);
            reveal(<OpaqueAuth as Xdr>::wire);
        }
        let ghost m = self.model();
        let ghost w1 = AuthFlavor::wire(m.flavor);
        let ghost w2 = wire_opaque(m.body);
        self.flavor.encode(out)?;
        encode_opaque(self.body.as_slice(), out)?;
        proof {
            lemma_concat_assoc(old(out)@, w1, w2);
        }
        Ok(())
    }

    fn decode<'a>(input: &'a [u8]) -> (r: Result<(OpaqueAuth, &'a [u8]), XdrError>) {
        proof {
            reveal(<OpaqueAuth as Xdr>::model);
            reveal(<OpaqueAuth as Xdr>::parse);
        }
        let (flavor, cur) = AuthFlavor::decode(input)?;
        let (body, cur) = decode_opaque(cur)?;
        let body = copy_bytes(body);
        Ok((OpaqueAuth { flavor, body }, cur))
    }
}

impl OpaqueAuth {
    /// The credential that says nothing: flavor `Null`, empty body.
    pub fn none() -> (r: Self)
        ensures
            r.flavor == AuthFlavor::Null,
            r.body@ == Seq::<u8>::empty(),
    {
        let body: Vec<u8> = Vec::new();
        assert(body@ =~= Seq::<u8>::empty());
        OpaqueAuth { flavor: AuthFlavor::Null, body }
    }

    /// The credential of flavor `Sys` whose body is the encoding of `params`;
    /// fails when `params` has no encoding.
    pub fn auth_sys(params: AuthSysParameters) -> (r: Result<Self, EncodeError>)
        ensures
            r is Ok <==> AuthSysParameters::wf(params.model()),
            r is Ok ==> r->Ok_0.flavor == AuthFlavor::Sys && r->Ok_0.body@
                == AuthSysParameters::wire(
                params.model(),
            ),
    {
        let mut body: Vec<u8> = Vec::new();
        params.encode(&mut body)?;
        assert(body@ =~= AuthSysParameters::wire(params.model()));
        Ok(OpaqueAuth { flavor: AuthFlavor::Sys, body })
    }
}

#[derive(Clone, Debug, PartialEq, Eq, PartialOrd, Ord)]
pub enum AuthStat {
    AuthOk,
    BadCred,
    RejectedCred,
    BadVerf,
    RejectedVerf,
    TooWeak,
    InvalidResp,
    Failed,
}

impl AuthStat {
    /// The discriminant that leads the encoding of a value.
    pub open spec fn tag(m: AuthStat) -> u32 {
        match m {
            AuthStat::AuthOk => 0,
            AuthStat::BadCred => 1,
            AuthStat::RejectedCred => 2,
            AuthStat::BadVerf => 3,
            AuthStat::RejectedVerf => 4,
            AuthStat::TooWeak => 5,
            AuthStat::InvalidResp => 6,
            AuthStat::Failed => 7,
        }
    }

    /// What follows the discriminant in the encoding of a value.
    #[verifier::opaque]
    pub open spec fn wire_payload(m: AuthStat) -> Seq<u8> {
        match m {
            AuthStat::AuthOk => Seq::<u8>::empty(),
            AuthStat::BadCred => Seq::<u8>::empty(),
            AuthStat::RejectedCred => Seq::<u8>::empty(),
            AuthStat::BadVerf => Seq::<u8>::empty(),
            AuthStat::RejectedVerf => Seq::<u8>::empty(),
            AuthStat::TooWeak => Seq::<u8>::empty(),
            AuthStat::InvalidResp => Seq::<u8>::empty(),
            AuthStat::Failed => Seq::<u8>::empty(),
        }
    }

    /// The value with the discriminant `tag` whose payload is at the front of `s`.
    #[verifier::opaque]
    pub open spec fn parse_payload(tag: u32, s: Seq<u8>) -> Result<(AuthStat, Seq<u8>), XdrError> {
        if tag == 0 {
            Ok((AuthStat::AuthOk, s))
        } else if tag == 1 {
            Ok((AuthStat::BadCred, s))
        } else if tag == 2 {
            Ok((AuthStat::RejectedCred, s))
        } else if tag == 3 {
            Ok((AuthStat::BadVerf, s))
        } else if tag == 4 {
            Ok((AuthStat::RejectedVerf, s))
        } else if tag == 5 {
            Ok((AuthStat::TooWeak, s))
        } else if tag == 6 {
            Ok((AuthStat::InvalidResp, s))
        } else if tag == 7 {
            Ok((AuthStat::Failed, s))
        } else {
            Err(XdrError::BadDiscriminant("AuthStat", tag))
        }
    }

    pub proof fn lemma_payload_round_trip(m: AuthStat, rest: Seq<u8>)
        requires
            <AuthStat as Xdr>::wf(m),
        ensures
            Self::parse_payload(Self::tag(m), Self::wire_payload(m) + rest)
                == Ok::<(AuthStat, Seq<u8>), XdrError>((m, rest)),
    {
        reveal(AuthStat::wire_payload);
        reveal(AuthStat::parse_payload);
        match m {
            AuthStat::AuthOk => {
                assert(Seq::<u8>::empty() + rest =~= rest);
            },
            AuthStat::BadCred => {
                assert(Seq::<u8>::empty() + rest =~= rest);
            },
            AuthStat::RejectedCred => {
                assert(Seq::<u8>::empty() + rest =~= rest);
            },
            AuthStat::BadVerf => {
                assert(Seq::<u8>::empty() + rest =~= rest);
            },
            AuthStat::RejectedVerf => {
                assert(Seq::<u8>::empty() + rest =~= rest);
            },
            AuthStat::TooWeak => {
                assert(Seq::<u8>::empty() + rest =~= rest);
            },
            AuthStat::InvalidResp => {
                assert(Seq::<u8>::empty() + rest =~= rest);
            },
            AuthStat::Failed => {
                assert(Seq::<u8>::empty() + rest =~= rest);
            },
        }
    }

    /// The encoding of a value begins with its discriminant, big-endian.
    pub proof fn lemma_wire_leads_with_tag(m: AuthStat)
        ensures
            <AuthStat as Xdr>::wire(m).len() >= 4,
            <AuthStat as Xdr>::wire(m).take(4) == wire_u32(Self::tag(m)),
    {
        reveal(<AuthStat as Xdr>::wire);
        reveal(wire_u32);
        assert((wire_u32(Self::tag(m)) + Self::wire_payload(m)).take(4) =~= wire_u32(Self::tag(m)));
    }

    /// The discriminant of a value.
    pub fn tag_of(&self) -> (t: u32)
        ensures
            t == Self::tag(self.model()),
    {
        match self {
            AuthStat::AuthOk => 0,
            AuthStat::BadCred => 1,
            AuthStat::RejectedCred => 2,
            AuthStat::BadVerf => 3,
            AuthStat::RejectedVerf => 4,
            AuthStat::TooWeak => 5,
            AuthStat::InvalidResp => 6,
            AuthStat::Failed => 7,
        }
    }

    /// Appends what follows the discriminant in the encoding of `self`.
    pub fn encode_payload(&self, out: &mut Vec<u8>) -> (r: Result<(), EncodeError>)
        ensures
            r is Ok <==> <AuthStat as Xdr>::wf(self.model()),
            r is Ok ==> final(out)@ == old(out)@ + Self::wire_payload(self.model()),
    {
        proof {
            reveal(AuthStat::wire_payload);
        }
        match self {
            AuthStat::AuthOk => {
                assert(out@ =~= old(out)@ + Seq::<u8>::empty());
            },
            AuthStat::BadCred => {
                assert(out@ =~= old(out)@ + Seq::<u8>::empty());
            },
            AuthStat::RejectedCred => {
                assert(out@ =~= old(out)@ + Seq::<u8>::empty());
            },
            AuthStat::BadVerf => {
                assert(out@ =~= old(out)@ + Seq::<u8>::empty());
            },
            AuthStat::RejectedVerf => {
                assert(out@ =~= old(out)@ + Seq::<u8>::empty());
            },
            AuthStat::TooWeak => {
                assert(out@ =~= old(out)@ + Seq::<u8>::empty());
            },
            AuthStat::InvalidResp => {
                assert(out@ =~= old(out)@ + Seq::<u8>::empty());
            },
            AuthStat::Failed => {
                assert(out@ =~= old(out)@ + Seq::<u8>::empty());
            },
        }
        Ok(())
    }

    /// Decodes the payload of the value with the discriminant `tag`.
    pub fn decode_payload<'a>(
        tag: u32,
        input: &'a [u8],
    ) -> (r: Result<(AuthStat, &'a [u8]), XdrError>)
        ensures
            match r {
                Ok((v, rest)) => {
                    Self::parse_payload(tag, input@)
                        == Ok::<(AuthStat, Seq<u8>), XdrError>((v.model(), rest@))
                },
                Err(e) => {
                    Self::parse_payload(tag, input@) == Err::<(AuthStat, Seq<u8>), XdrError>(e)
                },
            },
    {
        proof {
            reveal(AuthStat::parse_payload);
        }
        if tag == 0 {
            Ok((AuthStat::AuthOk, input))
        } else if tag == 1 {
            Ok((AuthStat::BadCred, input))
        } else if tag == 2 {
            Ok((AuthStat::RejectedCred, input))
        } else if tag == 3 {
            Ok((AuthStat::BadVerf, input))
        } else if tag == 4 {
            Ok((AuthStat::RejectedVerf, input))
        } else if tag == 5 {
            Ok((AuthStat::TooWeak, input))
        } else if tag == 6 {
            Ok((AuthStat::InvalidResp, input))
        } else if tag == 7 {
            Ok((AuthStat::Failed, input))
        } else {
            Err(XdrError::BadDiscriminant("AuthStat", tag))
        }
    }
}

impl Xdr for AuthStat {
    type Model = AuthStat;

    open spec fn model(&self) -> AuthStat {
        *self
    }

    open spec fn wf(m: AuthStat) -> bool {
        true
    }

    #[verifier::opaque]
    open spec fn wire(m: AuthStat) -> Seq<u8> {
        wire_u32(Self::tag(m)) + Self::wire_payload(m)
    }

    #[verifier::opaque]
    open spec fn parse(s: Seq<u8>) -> Result<(AuthStat, Seq<u8>), XdrError> {
        match parse_u32(s) {
            Ok((tag, r)) => Self::parse_payload(tag, r),
            Err(e) => Err(e),
        }
    }

    proof fn lemma_round_trip(m: AuthStat, rest: Seq<u8>) {
        reveal(<AuthStat as Xdr>::wire);
        reveal(<AuthStat as Xdr>::parse);
        lemma_concat_assoc(wire_u32(Self::tag(m)), Self::wire_payload(m), rest);
        lemma_u32_round_trip(Self::tag(m), Self::wire_payload(m) + rest);
        Self::lemma_payload_round_trip(m, rest);
    }

    fn encode(&self, out: &mut Vec<u8>) -> (r: Result<(), EncodeError>) {
        proof {
            reveal(<AuthStat as Xdr>::wire);
        }
        let tag = self.tag_of();
        let _ = tag.encode(out);
        self.encode_payload(out)?;
        proof {
            lemma_concat_assoc(old(out)@, wire_u32(tag), Self::wire_payload(self.model()));
        }
        Ok(())
    }

    fn decode<'a>(input: &'a [u8]) -> (r: Result<(AuthStat, &'a [u8]), XdrError>) {
        proof {
            reveal(<AuthStat as Xdr>::parse);
        }
        let (tag, cur) = u32::decode(input)?;
        Self::decode_payload(tag, cur)
    }
}

/// Why a call was rejected.
#[derive(Clone, Debug, PartialEq, Eq, PartialOrd, Ord)]
pub enum RejectedReply {
    RpcMismatch { low: u32, high: u32 },
    AuthError(AuthStat),
}

impl RejectedReply {
    /// The discriminant that leads the encoding of a value.
    pub open spec fn tag(m: RejectedReply) -> u32 {
        match m {
            RejectedReply::RpcMismatch { .. } => 0,
            RejectedReply::AuthError(..) => 1,
        }
    }

    /// What follows the discriminant in the encoding of a value.
    #[verifier::opaque]
    pub open spec fn wire_payload(m: RejectedReply) -> Seq<u8> {
        match m {
            RejectedReply::RpcMismatch { low, high } => u32::wire(low) + u32::wire(high),
            RejectedReply::AuthError(f0) => AuthStat::wire(f0),
        }
    }

    /// The value with the discriminant `tag` whose payload is at the front of `s`.
    #[verifier::opaque]
    pub open spec fn parse_payload(
        tag: u32,
        s: Seq<u8>,
    ) -> Result<(RejectedReply, Seq<u8>), XdrError> {
        if tag == 0 {
            match u32::parse(s) {
                Err(e) => Err(e),
                Ok((low, s1)) => match u32::parse(s1) {
                    Err(e) => Err(e),
                    Ok((high, s2)) => Ok((RejectedReply::RpcMismatch { low, high }, s2)),
                },
            }
        } else if tag == 1 {
            match AuthStat::parse(s) {
                Err(e) => Err(e),
                Ok((f0, s1)) => Ok((RejectedReply::AuthError(f0), s1)),
            }
        } else {
            Err(XdrError::BadDiscriminant("RejectedReply", tag))
        }
    }

    pub proof fn lemma_payload_round_trip(m: RejectedReply, rest: Seq<u8>)
        requires
            <RejectedReply as Xdr>::wf(m),
        ensures
            Self::parse_payload(Self::tag(m), Self::wire_payload(m) + rest)
                == Ok::<(RejectedReply, Seq<u8>), XdrError>((m, rest)),
    {
        reveal(<RejectedReply as Xdr>::wf);
        reveal(RejectedReply::wire_payload);
        reveal(RejectedReply::parse_payload);
        match m {
            RejectedReply::RpcMismatch { low, high } => {
                let w1 = u32::wire(low);
                let w2 = u32::wire(high);
                let r2 = rest;
                let r1 = w2 + r2;
                lemma_concat_assoc(w1, w2, r2);
                u32::lemma_round_trip(low, r1);
                u32::lemma_round_trip(high, r2);
            },
            RejectedReply::AuthError(f0) => {
                AuthStat::lemma_round_trip(f0, rest);
            },
        }
    }

    /// The encoding of a value begins with its discriminant, big-endian.
    pub proof fn lemma_wire_leads_with_tag(m: RejectedReply)
        ensures
            <RejectedReply as Xdr>::wire(m).len() >= 4,
            <RejectedReply as Xdr>::wire(m).take(4) == wire_u32(Self::tag(m)),
    {
        reveal(<RejectedReply as Xdr>::wire);
        reveal(wire_u32);
        assert((wire_u32(Self::tag(m)) + Self::wire_payload(m)).take(4) =~= wire_u32(Self::tag(m)));
    }

    /// The discriminant of a value.
    pub fn tag_of(&self) -> (t: u32)
        ensures
            t == Self::tag(self.model()),
    {
        match self {
            RejectedReply::RpcMismatch { .. } => 0,
            RejectedReply::AuthError(..) => 1,
        }
    }

    /// Appends what follows the discriminant in the encoding of `self`.
    pub fn encode_payload(&self, out: &mut Vec<u8>) -> (r: Result<(), EncodeError>)
        ensures
            r is Ok <==> <RejectedReply as Xdr>::wf(self.model()),
            r is Ok ==> final(out)@ == old(out)@ + Self::wire_payload(self.model()),
    {
        proof {
            reveal(<RejectedReply as Xdr>::wf);
            reveal(RejectedReply::wire_payload);
        }
        match self {
            RejectedReply::RpcMismatch { low, high } => {
                let ghost w1 = u32::wire(low.model());
                let ghost w2 = u32::wire(high.model());
                let _ = low.encode(out);
                let _ = high.encode(out);
                proof {
                    lemma_concat_assoc(old(out)@, w1, w2);
                }
            },
            RejectedReply::AuthError(f0) => {
                f0.encode(out)?;
            },
        }
        Ok(())
    }

    /// Decodes the payload of the value with the discriminant `tag`.
    pub fn decode_payload<'a>(
        tag: u32,
        input: &'a [u8],
    ) -> (r: Result<(RejectedReply, &'a [u8]), XdrError>)
        ensures
            match r {
                Ok((v, rest)) => {
                    Self::parse_payload(tag, input@)
                        == Ok::<(RejectedReply, Seq<u8>), XdrError>((v.model(), rest@))
                },
                Err(e) => {
                    Self::parse_payload(tag, input@) == Err::<(RejectedReply, Seq<u8>), XdrError>(e)
                },
            },
    {
        proof {
            reveal(RejectedReply::parse_payload);
        }
        if tag == 0 {
            let (low, cur) = u32::decode(input)?;
            let (high, cur) = u32::decode(cur)?;
            Ok((RejectedReply::RpcMismatch { low, high }, cur))
        } else if tag == 1 {
            let (f0, cur) = AuthStat::decode(input)?;
            Ok((RejectedReply::AuthError(f0), cur))
        } else {
            Err(XdrError::BadDiscriminant("RejectedReply", tag))
        }
    }
}

impl Xdr for RejectedReply {
    type Model = RejectedReply;

    open spec fn model(&self) -> RejectedReply {
        *self
    }

    #[verifier::opaque]
    open spec fn wf(m: RejectedReply) -> bool {
        match m {
            RejectedReply::RpcMismatch { .. } => true,
            RejectedReply::AuthError(f0) => AuthStat::wf(f0),
        }
    }

    #[verifier::opaque]
    open spec fn wire(m: RejectedReply) -> Seq<u8> {
        wire_u32(Self::tag(m)) + Self::wire_payload(m)
    }

    #[verifier::opaque]
    open spec fn parse(s: Seq<u8>) -> Result<(RejectedReply, Seq<u8>), XdrError> {
        match parse_u32(s) {
            Ok((tag, r)) => Self::parse_payload(tag, r),
            Err(e) => Err(e),
        }
    }

    proof fn lemma_round_trip(m: RejectedReply, rest: Seq<u8>) {
        reveal(<RejectedReply as Xdr>::wire);
        reveal(<RejectedReply as Xdr>::parse);
        lemma_concat_assoc(wire_u32(Self::tag(m)), Self::wire_payload(m), rest);
        lemma_u32_round_trip(Self::tag(m), Self::wire_payload(m) + rest);
        Self::lemma_payload_round_trip(m, rest);
    }

    fn encode(&self, out: &mut Vec<u8>) -> (r: Result<(), EncodeError>) {
        proof {
            reveal(<RejectedReply as Xdr>::wire);
        }
        let tag = self.tag_of();
        let _ = tag.encode(out);
        self.encode_payload(out)?;
        proof {
            lemma_concat_assoc(old(out)@, wire_u32(tag), Self::wire_payload(self.model()));
        }
        Ok(())
    }

    fn decode<'a>(input: &'a [u8]) -> (r: Result<(RejectedReply, &'a [u8]), XdrError>) {
        proof {
            reveal(<RejectedReply as Xdr>::parse);
        }
        let (tag, cur) = u32::decode(input)?;
        Self::decode_payload(tag, cur)
    }
}

/// A reply: the call was accepted or rejected.
#[derive(Clone, Debug, PartialEq, Eq, PartialOrd, Ord)]
pub enum ReplyBody<T> {
    Accepted(AcceptedReply<T>),
    Denied(RejectedReply),
}

/// What a [`ReplyBody`] stands for.
pub enum ReplyBodyModel<M> {
    Accepted(AcceptedReplyModel<M>),
    Denied(RejectedReply),
}

impl<T: Xdr> ReplyBody<T> {
    /// The discriminant that leads the encoding of a value.
    pub open spec fn tag(m: ReplyBodyModel<T::Model>) -> u32 {
        match m {
            ReplyBodyModel::Accepted(..) => 0,
            ReplyBodyModel::Denied(..) => 1,
        }
    }

    /// What follows the discriminant in the encoding of a value.
    #[verifier::opaque]
    pub open spec fn wire_payload(m: ReplyBodyModel<T::Model>) -> Seq<u8> {
        match m {
            ReplyBodyModel::Accepted(f0) => AcceptedReply::<T>::wire(f0),
            ReplyBodyModel::Denied(f0) => RejectedReply::wire(f0),
        }
    }

    /// The value with the discriminant `tag` whose payload is at the front of `s`.
    #[verifier::opaque]
    pub open spec fn parse_payload(
        tag: u32,
        s: Seq<u8>,
    ) -> Result<(ReplyBodyModel<T::Model>, Seq<u8>), XdrError> {
        if tag == 0 {
            match AcceptedReply::<T>::parse(s) {
                Err(e) => Err(e),
                Ok((f0, s1)) => Ok((ReplyBodyModel::Accepted(f0), s1)),
            }
        } else if tag == 1 {
            match RejectedReply::parse(s) {
                Err(e) => Err(e),
                Ok((f0, s1)) => Ok((ReplyBodyModel::Denied(f0), s1)),
            }
        } else {
            Err(XdrError::BadDiscriminant("ReplyBody", tag))
        }
    }

    pub proof fn lemma_payload_round_trip(m: ReplyBodyModel<T::Model>, rest: Seq<u8>)
        requires
            <ReplyBody<T> as Xdr>::wf(m),
        ensures
            Self::parse_payload(Self::tag(m), Self::wire_payload(m) + rest)
                == Ok::<(ReplyBodyModel<T::Model>, Seq<u8>), XdrError>((m, rest)),
    {
        reveal(<ReplyBody<_> as Xdr>::wf);
        reveal(ReplyBody::<_>::wire_payload);
        reveal(ReplyBody::<_>::parse_payload);
        match m {
            ReplyBodyModel::Accepted(f0) => {
                AcceptedReply::<T>::lemma_round_trip(f0, rest);
            },
            ReplyBodyModel::Denied(f0) => {
                RejectedReply::lemma_round_trip(f0, rest);
            },
        }
    }

    /// The encoding of a value begins with its discriminant, big-endian.
    pub proof fn lemma_wire_leads_with_tag(m: ReplyBodyModel<T::Model>)
        ensures
            <ReplyBody<T> as Xdr>::wire(m).len() >= 4,
            <ReplyBody<T> as Xdr>::wire(m).take(4) == wire_u32(Self::tag(m)),
    {
        reveal(<ReplyBody<_> as Xdr>::wire);
        reveal(wire_u32);
        assert((wire_u32(Self::tag(m)) + Self::wire_payload(m)).take(4) =~= wire_u32(Self::tag(m)));
    }

    /// The discriminant of a value.
    pub fn tag_of(&self) -> (t: u32)
        ensures
            t == Self::tag(self.model()),
    {
        proof {
            reveal(<ReplyBody<_> as Xdr>::model);
        }
        match self {
            ReplyBody::Accepted(..) => 0,
            ReplyBody::Denied(..) => 1,
        }
    }

    /// Appends what follows the discriminant in the encoding of `self`.
    pub fn encode_payload(&self, out: &mut Vec<u8>) -> (r: Result<(), EncodeError>)
        ensures
            r is Ok <==> <ReplyBody<T> as Xdr>::wf(self.model()),
            r is Ok ==> final(out)@ == old(out)@ + Self::wire_payload(self.model()),
    {
        proof {
            reveal(<ReplyBody<_> as Xdr>::model);
            reveal(<ReplyBody<_> as Xdr>::wf);
            reveal(ReplyBody::<_>::wire_payload);
        }
        match self {
            ReplyBody::Accepted(f0) => {
                f0.encode(out)?;
            },
            ReplyBody::Denied(f0) => {
                f0.encode(out)?;
            },
        }
        Ok(())
    }

    /// Decodes the payload of the value with the discriminant `tag`.
    pub fn decode_payload<'a>(
        tag: u32,
        input: &'a [u8],
    ) -> (r: Result<(ReplyBody<T>, &'a [u8]), XdrError>)
        ensures
            match r {
                Ok((v, rest)) => {
                    Self::parse_payload(tag, input@)
                        == Ok::<(ReplyBodyModel<T::Model>, Seq<u8>), XdrError>((v.model(), rest@))
                },
                Err(e) => {
                    Self::parse_payload(tag, input@)
                        == Err::<(ReplyBodyModel<T::Model>, Seq<u8>), XdrError>(e)
                },
            },
            r matches Ok((v, _)) ==> v.canonical(),
    {
        proof {
            reveal(<ReplyBody<_> as Xdr>::model);
            reveal(ReplyBody::<_>::parse_payload);
        }
        if tag == 0 {
            let (f0, cur) = AcceptedReply::<T>::decode(input)?;
            Ok((ReplyBody::Accepted(f0), cur))
        } else if tag == 1 {
            let (f0, cur) = RejectedReply::decode(input)?;
            Ok((ReplyBody::Denied(f0), cur))
        } else {
            Err(XdrError::BadDiscriminant("ReplyBody", tag))
        }
    }
}

impl<T: Xdr> Xdr for ReplyBody<T> {
    type Model = ReplyBodyModel<T::Model>;

    open spec fn canonical(&self) -> bool {
        match self {
            ReplyBody::Accepted(v) => v.canonical(),
            ReplyBody::Denied(_) => true,
        }
    }

    #[verifier::opaque]
    open spec fn model(&self) -> ReplyBodyModel<T::Model> {
        match self {
            ReplyBody::Accepted(f0) => ReplyBodyModel::Accepted(f0.model()),
            ReplyBody::Denied(f0) => ReplyBodyModel::Denied(f0.model()),
        }
    }

    #[verifier::opaque]
    open spec fn wf(m: ReplyBodyModel<T::Model>) -> bool {
        match m {
            ReplyBodyModel::Accepted(f0) => AcceptedReply::<T>::wf(f0),
            ReplyBodyModel::Denied(f0) => RejectedReply::wf(f0),
        }
    }

    #[verifier::opaque]
    open spec fn wire(m: ReplyBodyModel<T::Model>) -> Seq<u8> {
        wire_u32(Self::tag(m)) + Self::wire_payload(m)
    }

    #[verifier::opaque]
    open spec fn parse(s: Seq<u8>) -> Result<(ReplyBodyModel<T::Model>, Seq<u8>), XdrError> {
        match parse_u32(s) {
            Ok((tag, r)) => Self::parse_payload(tag, r),
            Err(e) => Err(e),
        }
    }

    proof fn lemma_round_trip(m: ReplyBodyModel<T::Model>, rest: Seq<u8>) {
        reveal(<ReplyBody<_> as Xdr>::wire);
        reveal(<ReplyBody<_> as Xdr>::parse);
        lemma_concat_assoc(wire_u32(Self::tag(m)), Self::wire_payload(m), rest);
        lemma_u32_round_trip(Self::tag(m), Self::wire_payload(m) + rest);
        Self::lemma_payload_round_trip(m, rest);
    }

    fn encode(&self, out: &mut Vec<u8>) -> (r: Result<(), EncodeError>) {
        proof {
            reveal(<ReplyBody<_> as Xdr>::wire);
        }
        let tag = self.tag_of();
        let _ = tag.encode(out);
        self.encode_payload(out)?;
        proof {
            lemma_concat_assoc(old(out)@, wire_u32(tag), Self::wire_payload(self.model()));
        }
        Ok(())
    }

    fn decode<'a>(input: &'a [u8]) -> (r: Result<(ReplyBody<T>, &'a [u8]), XdrError>) {
        proof {
            reveal(<ReplyBody<_> as Xdr>::parse);
        }
        let (tag, cur) = u32::decode(input)?;
        Self::decode_payload(tag, cur)
    }
}

/// What a message is: a call or a reply.
#[derive(Clone, Debug, PartialEq, Eq, PartialOrd, Ord)]
pub enum MessageBody<T> {
    Call(CallBody<T>),
    Reply(ReplyBody<T>),
}

/// What a [`MessageBody`] stands for.
pub enum MessageBodyModel<M> {
    Call(CallBodyModel<M>),
    Reply(ReplyBodyModel<M>),
}

impl<T: Xdr> MessageBody<T> {
    /// The discriminant that leads the encoding of a value.
    pub open spec fn tag(m: MessageBodyModel<T::Model>) -> u32 {
        match m {
            MessageBodyModel::Call(..) => 0,
            MessageBodyModel::Reply(..) => 1,
        }
    }

    /// What follows the discriminant in the encoding of a value.
    #[verifier::opaque]
    pub open spec fn wire_payload(m: MessageBodyModel<T::Model>) -> Seq<u8> {
        match m {
            MessageBodyModel::Call(f0) => CallBody::<T>::wire(f0),
            MessageBodyModel::Reply(f0) => ReplyBody::<T>::wire(f0),
        }
    }

    /// The value with the discriminant `tag` whose payload is at the front of `s`.
    #[verifier::opaque]
    pub open spec fn parse_payload(
        tag: u32,
        s: Seq<u8>,
    ) -> Result<(MessageBodyModel<T::Model>, Seq<u8>), XdrError> {
        if tag == 0 {
            match CallBody::<T>::parse(s) {
                Err(e) => Err(e),
                Ok((f0, s1)) => Ok((MessageBodyModel::Call(f0), s1)),
            }
        } else if tag == 1 {
            match ReplyBody::<T>::parse(s) {
                Err(e) => Err(e),
                Ok((f0, s1)) => Ok((MessageBodyModel::Reply(f0), s1)),
            }
        } else {
            Err(XdrError::BadDiscriminant("MessageBody", tag))
        }
    }

    pub proof fn lemma_payload_round_trip(m: MessageBodyModel<T::Model>, rest: Seq<u8>)
        requires
            <MessageBody<T> as Xdr>::wf(m),
        ensures
            Self::parse_payload(Self::tag(m), Self::wire_payload(m) + rest)
                == Ok::<(MessageBodyModel<T::Model>, Seq<u8>), XdrError>((m, rest)),
    {
        reveal(<MessageBody<_> as Xdr>::wf);
        reveal(MessageBody::<_>::wire_payload);
        reveal(MessageBody::<_>::parse_payload);
        match m {
            MessageBodyModel::Call(f0) => {
                CallBody::<T>::lemma_round_trip(f0, rest);
            },
            MessageBodyModel::Reply(f0) => {
                ReplyBody::<T>::lemma_round_trip(f0, rest);
            },
        }
    }

    /// The encoding of a value begins with its discriminant, big-endian.
    pub proof fn lemma_wire_leads_with_tag(m: MessageBodyModel<T::Model>)
        ensures
            <MessageBody<T> as Xdr>::wire(m).len() >= 4,
            <MessageBody<T> as Xdr>::wire(m).take(4) == wire_u32(Self::tag(m)),
    {
        reveal(<MessageBody<_> as Xdr>::wire);
        reveal(wire_u32);
        assert((wire_u32(Self::tag(m)) + Self::wire_payload(m)).take(4) =~= wire_u32(Self::tag(m)));
    }

    /// The discriminant of a value.
    pub fn tag_of(&self) -> (t: u32)
        ensures
            t == Self::tag(self.model()),
    {
        proof {
            reveal(<MessageBody<_> as Xdr>::model);
        }
        match self {
            MessageBody::Call(..) => 0,
            MessageBody::Reply(..) => 1,
        }
    }

    /// Appends what follows the discriminant in the encoding of `self`.
    pub fn encode_payload(&self, out: &mut Vec<u8>) -> (r: Result<(), EncodeError>)
        ensures
            r is Ok <==> <MessageBody<T> as Xdr>::wf(self.model()),
            r is Ok ==> final(out)@ == old(out)@ + Self::wire_payload(self.model()),
    {
        proof {
            reveal(<MessageBody<_> as Xdr>::model);
            reveal(<MessageBody<_> as Xdr>::wf);
            reveal(MessageBody::<_>::wire_payload);
        }
        match self {
            MessageBody::Call(f0) => {
                f0.encode(out)?;
            },
            MessageBody::Reply(f0) => {
                f0.encode(out)?;
            },
        }
        Ok(())
    }

    /// Decodes the payload of the value with the discriminant `tag`.
    pub fn decode_payload<'a>(
        tag: u32,
        input: &'a [u8],
    ) -> (r: Result<(MessageBody<T>, &'a [u8]), XdrError>)
        ensures
            match r {
                Ok((v, rest)) => {
                    Self::parse_payload(tag, input@)
                        == Ok::<(MessageBodyModel<T::Model>, Seq<u8>), XdrError>((v.model(), rest@))
                },
                Err(e) => {
                    Self::parse_payload(tag, input@)
                        == Err::<(MessageBodyModel<T::Model>, Seq<u8>), XdrError>(e)
                },
            },
            r matches Ok((v, _)) ==> v.canonical(),
    {
        proof {
            reveal(<MessageBody<_> as Xdr>::model);
            reveal(MessageBody::<_>::parse_payload);
        }
        if tag == 0 {
            let (f0, cur) = CallBody::<T>::decode(input)?;
            Ok((MessageBody::Call(f0), cur))
        } else if tag == 1 {
            let (f0, cur) = ReplyBody::<T>::decode(input)?;
            Ok((MessageBody::Reply(f0), cur))
        } else {
            Err(XdrError::BadDiscriminant("MessageBody", tag))
        }
    }
}

impl<T: Xdr> Xdr for MessageBody<T> {
    type Model = MessageBodyModel<T::Model>;

    open spec fn canonical(&self) -> bool {
        match self {
            MessageBody::Call(v) => v.canonical(),
            MessageBody::Reply(v) => v.canonical(),
        }
    }

    #[verifier::opaque]
    open spec fn model(&self) -> MessageBodyModel<T::Model> {
        match self {
            MessageBody::Call(f0) => MessageBodyModel::Call(f0.model()),
            MessageBody::Reply(f0) => MessageBodyModel::Reply(f0.model()),
        }
    }

    #[verifier::opaque]
    open spec fn wf(m: MessageBodyModel<T::Model>) -> bool {
        match m {
            MessageBodyModel::Call(f0) => CallBody::<T>::wf(f0),
            MessageBodyModel::Reply(f0) => ReplyBody::<T>::wf(f0),
        }
    }

    #[verifier::opaque]
    open spec fn wire(m: MessageBodyModel<T::Model>) -> Seq<u8> {
        wire_u32(Self::tag(m)) + Self::wire_payload(m)
    }

    #[verifier::opaque]
    open spec fn parse(s: Seq<u8>) -> Result<(MessageBodyModel<T::Model>, Seq<u8>), XdrError> {
        match parse_u32(s) {
            Ok((tag, r)) => Self::parse_payload(tag, r),
            Err(e) => Err(e),
        }
    }

    proof fn lemma_round_trip(m: MessageBodyModel<T::Model>, rest: Seq<u8>) {
        reveal(<MessageBody<_> as Xdr>::wire);
        reveal(<MessageBody<_> as Xdr>::parse);
        lemma_concat_assoc(wire_u32(Self::tag(m)), Self::wire_payload(m), rest);
        lemma_u32_round_trip(Self::tag(m), Self::wire_payload(m) + rest);
        Self::lemma_payload_round_trip(m, rest);
    }

    fn encode(&self, out: &mut Vec<u8>) -> (r: Result<(), EncodeError>) {
        proof {
            reveal(<MessageBody<_> as Xdr>::wire);
        }
        let tag = self.tag_of();
        let _ = tag.encode(out);
        self.encode_payload(out)?;
        proof {
            lemma_concat_assoc(old(out)@, wire_u32(tag), Self::wire_payload(self.model()));
        }
        Ok(())
    }

    fn decode<'a>(input: &'a [u8]) -> (r: Result<(MessageBody<T>, &'a [u8]), XdrError>) {
        proof {
            reveal(<MessageBody<_> as Xdr>::parse);
        }
        let (tag, cur) = u32::decode(input)?;
        Self::decode_payload(tag, cur)
    }
}

impl<T: Xdr> Tagged for AcceptedReplyBody<T> {
    open spec fn discriminant(m: AcceptedReplyBodyModel<T::Model>) -> u32 {
        Self::tag(m)
    }

    proof fn lemma_leads_with_discriminant(m: AcceptedReplyBodyModel<T::Model>) {
        Self::lemma_wire_leads_with_tag(m);
    }
}

impl Tagged for AuthFlavor {
    open spec fn discriminant(m: AuthFlavor) -> u32 {
        Self::tag(m)
    }

    proof fn lemma_leads_with_discriminant(m: AuthFlavor) {
        Self::lemma_wire_leads_with_tag(m);
    }
}

impl Tagged for AuthStat {
    open spec fn discriminant(m: AuthStat) -> u32 {
        Self::tag(m)
    }

    proof fn lemma_leads_with_discriminant(m: AuthStat) {
        Self::lemma_wire_leads_with_tag(m);
    }
}

impl Tagged for RejectedReply {
    open spec fn discriminant(m: RejectedReply) -> u32 {
        Self::tag(m)
    }

    proof fn lemma_leads_with_discriminant(m: RejectedReply) {
        Self::lemma_wire_leads_with_tag(m);
    }
}

impl<T: Xdr> Tagged for ReplyBody<T> {
    open spec fn discriminant(m: ReplyBodyModel<T::Model>) -> u32 {
        Self::tag(m)
    }

    proof fn lemma_leads_with_discriminant(m: ReplyBodyModel<T::Model>) {
        Self::lemma_wire_leads_with_tag(m);
    }
}

impl<T: Xdr> Tagged for MessageBody<T> {
    open spec fn discriminant(m: MessageBodyModel<T::Model>) -> u32 {
        Self::tag(m)
    }

    proof fn lemma_leads_with_discriminant(m: MessageBodyModel<T::Model>) {
        Self::lemma_wire_leads_with_tag(m);
    }
}

} // verus!
