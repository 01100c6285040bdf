//! The Sun-RPC client: it frames each call as one record of one final
//! fragment, hands the record to a transport, reads the record of the reply
//! and takes the result out of it.

use crate::rpc::{
    AcceptedReply, AcceptedReplyBody, AcceptedReplyBodyModel, AuthFlavor, AuthSysParameters,
    AuthSysParametersModel, CallBody, CallBodyModel, Gid, Message, MessageBody, MessageBodyModel,
    MessageModel, OpaqueAuth, OpaqueAuthModel, ReplyBody, ReplyBodyModel, Uid, Xid,
};
use crate::xdr::{
    extend_bytes, lemma_concat_assoc, lemma_u32_round_trip, models, parse_u32, wf_each, wf_opaque,
    wire_u32, EncodeError, Xdr, XdrError,
};
use vstd::prelude::*;
use vstd::utf8::*;

verus! {

/// The error of an I/O operation of std. Nothing is known of its contents here.
#[verifier::external_type_specification]
#[verifier::external_body]
pub struct ExIoError(std::io::Error);

/// Why a call did not give a result.
#[derive(Debug)]
pub enum Error {
    /// The reply is not the encoding of a reply message.
    Deseralization(XdrError),
    /// The call has no encoding.
    Serialization(EncodeError),
    /// The transport failed.
    Io(std::io::Error),
    /// A fragment header that this client does not take: the record is longer
    /// than a fragment can say, or goes on in another fragment.
    Framing,
    /// Every transaction identifier has been used.
    XidExhausted,
    ProgramUnavailable,
    ProgramMismatch,
    ProcedureUnavailable,
    GarbageArguments,
    SystemError,
    UnexpectedReply,
}

/// A stream of octets to a server.
///
/// Nothing is assumed of a transport: whatever it hands back is checked.
pub trait Transport {
    /// Writes all of `bytes` to the stream.
    fn write_all(&mut self, bytes: &[u8]) -> Result<(), std::io::Error>;

    /// Reads the next `len` octets of the stream.
    fn read_exact(&mut self, len: usize) -> Result<Vec<u8>, std::io::Error>;
}

/// A transport together with a record of what was written to it and of what
/// was read from it, so that what a function sends can be stated, and how
/// its result follows from what it was answered: a write that the transport
/// accepts adds its octets to the one record, a read that it serves in full
/// adds what it handed over to the other, and nothing else changes the
/// records. A call that the transport fails is counted, so that a contract
/// can tell a result that the server decided from one that the transport
/// forced.
pub struct Link<X: Transport> {
    transport: X,
    record: Ghost<Seq<u8>>,
    answer: Ghost<Seq<u8>>,
    failed: Ghost<nat>,
}

impl<X: Transport> Link<X> {
    /// Every octet that was written through the link and accepted, in order.
    pub closed spec fn written(&self) -> Seq<u8> {
        self.record@
    }

    /// Every octet that was read through the link in a read that was served
    /// in full, in order.
    pub closed spec fn received(&self) -> Seq<u8> {
        self.answer@
    }

    /// How many calls through the link the transport has failed: a write
    /// that it refused, a read that it failed, or a read that gave another
    /// number of octets than was asked for.
    pub closed spec fn faults(&self) -> nat {
        self.failed@
    }

    /// A link to `transport`, through which nothing has been written or read
    /// yet.
    pub fn new(transport: X) -> (r: Self)
        ensures
            r.written() == Seq::<u8>::empty(),
            r.received() == Seq::<u8>::empty(),
            r.faults() == 0,
    {
        Link {
            transport,
            record: Ghost(Seq::empty()),
            answer: Ghost(Seq::empty()),
            failed: Ghost(0),
        }
    }

    /// The transport of the link.
    pub fn transport(&self) -> &X {
        &self.transport
    }

    /// The transport of the link, to be changed. What is written to it or
    /// read from it past the link is not recorded.
    pub fn transport_mut(&mut self) -> (r: &mut X)
        ensures
            final(self).written() == old(self).written(),
            final(self).received() == old(self).received(),
            final(self).faults() == old(self).faults(),
    {
        &mut self.transport
    }

    /// Writes all of `bytes` to the transport. A write that the transport
    /// refuses is a fault, and counts as nothing written.
    pub fn write_all(&mut self, bytes: &[u8]) -> (r: Result<(), std::io::Error>)
        ensures
            final(self).written() == if r is Ok {
                old(self).written() + bytes@
            } else {
                old(self).written()
            },
            final(self).received() == old(self).received(),
            final(self).faults() == if r is Ok {
                old(self).faults()
            } else {
                old(self).faults() + 1
            },
    {
        let r = self.transport.write_all(bytes);
        self.record = Ghost(
            if r is Ok {
                self.record@ + bytes@
            } else {
                self.record@
            },
        );
        self.failed = Ghost(
            if r is Ok {
                self.failed@
            } else {
                self.failed@ + 1
            },
        );
        r
    }

    /// Reads the next `len` octets of the transport. A read that fails, or
    /// gives another number of octets than `len`, is a fault, and counts as
    /// nothing read.
    pub fn read_exact(&mut self, len: usize) -> (r: Result<Vec<u8>, std::io::Error>)
        ensures
            final(self).written() == old(self).written(),
            final(self).received() == if read_in_full(r, len) {
                old(self).received() + r->Ok_0@
            } else {
                old(self).received()
            },
            final(self).faults() == if read_in_full(r, len) {
                old(self).faults()
            } else {
                old(self).faults() + 1
            },
    {
        let r = self.transport.read_exact(len);
        self.answer = Ghost(
            if read_in_full(r, len) {
                self.answer@ + r->Ok_0@
            } else {
                self.answer@
            },
        );
        self.failed = Ghost(
            if read_in_full(r, len) {
                self.failed@
            } else {
                self.failed@ + 1
            },
        );
        r
    }

    /// What was read through the link between the states `self` and `after`
    /// of it.
    pub open spec fn read_until(&self, after: &Link<X>) -> Seq<u8> {
        after.received().skip(self.received().len() as int)
    }
}

/// Whether a read of `len` octets gave that many.
pub open spec fn read_in_full(r: Result<Vec<u8>, std::io::Error>, len: usize) -> bool {
    r matches Ok(bytes) && bytes@.len() == len
}

/// Whether nothing passed through a link between the states `before` and
/// `after` of it, and the transport failed no call.
pub open spec fn quiet<X: Transport>(before: &Link<X>, after: &Link<X>) -> bool {
    &&& after.written() == before.written()
    &&& after.received() == before.received()
    &&& after.faults() == before.faults()
}

pub const PORT_MAPPER: u32 = 100000;

pub const PORT_MAPPER_PORT: u16 = 111;

pub const NULL_PROCEDURE: u32 = 0;

/// The greatest number of octets that one fragment can hold.
pub const MAX_FRAGMENT: u32 = 0x7fff_ffff;

/// The header of a final fragment of `len` octets: the length in the low 31
/// bits, and the high bit set.
pub open spec fn final_header(len: nat) -> u32 {
    (len + 0x8000_0000) as u32
}

/// Whether a fragment header marks the last fragment of a record.
pub open spec fn is_final(header: u32) -> bool {
    header >= 0x8000_0000
}

/// The number of payload octets that a fragment header announces.
pub open spec fn payload_len(header: u32) -> nat {
    (header % 0x8000_0000) as nat
}

/// A record of one final fragment: the header, then the payload.
pub open spec fn wire_record(payload: Seq<u8>) -> Seq<u8> {
    wire_u32(final_header(payload.len())) + payload
}

/// The payload of the final fragment at the front of `s`, and what follows it.
pub open spec fn parse_record(s: Seq<u8>) -> Result<(Seq<u8>, Seq<u8>), Error> {
    match parse_u32(s) {
        Err(e) => Err(Error::Deseralization(e)),
        Ok((header, r)) => if !is_final(header) {
            Err(Error::Framing)
        } else if r.len() < payload_len(header) {
            Err(Error::Deseralization(XdrError::Truncated))
        } else {
            Ok((r.take(payload_len(header) as int), r.skip(payload_len(header) as int)))
        },
    }
}

/// In the header of a record the high bit is 1 and the low 31 bits are the
/// length of the payload.
pub proof fn lemma_final_header(len: nat)
    requires
        len <= MAX_FRAGMENT,
    ensures
        final_header(len) >> 31 == 1,
        final_header(len) & 0x7fff_ffff == len,
        is_final(final_header(len)),
        payload_len(final_header(len)) == len,
{
    let h = final_header(len);
    assert(h >= 0x8000_0000u32 ==> (h >> 31 == 1 && h & 0x7fff_ffff == h - 0x8000_0000u32))
        by (bit_vector);
}

/// Taking a record apart gives back the payload it was made of.
pub proof fn lemma_record_round_trip(payload: Seq<u8>, rest: Seq<u8>)
    requires
        payload.len() <= MAX_FRAGMENT,
    ensures
        parse_record(wire_record(payload) + rest) == Ok::<(Seq<u8>, Seq<u8>), Error>(
            (payload, rest),
        ),
{
    let h = final_header(payload.len());
    lemma_concat_assoc(wire_u32(h), payload, rest);
    lemma_u32_round_trip(h, payload + rest);
    assert((payload + rest).take(payload.len() as int) =~= payload);
    assert((payload + rest).skip(payload.len() as int) =~= rest);
}

/// The header of a final fragment of `len` octets, where a fragment can hold
/// that many.
pub fn fragment_header(len: usize) -> (r: Option<u32>)
    ensures
        r == if len <= MAX_FRAGMENT {
            Some(final_header(len as nat))
        } else {
            None
        },
{
    if len <= MAX_FRAGMENT as usize {
        Some(len as u32 + 0x8000_0000)
    } else {
        None
    }
}

/// The record that carries `payload`; fails when no fragment can hold it.
pub fn encode_fragment(payload: &[u8]) -> (r: Result<Vec<u8>, Error>)
    ensures
        match r {
            Ok(record) => payload@.len() <= MAX_FRAGMENT && record@ == wire_record(payload@),
            Err(e) => payload@.len() > MAX_FRAGMENT && e == Error::Framing,
        },
{
    match fragment_header(payload.len()) {
        Some(header) => {
            let mut record: Vec<u8> = Vec::new();
            let _ = header.encode(&mut record);
            extend_bytes(&mut record, payload);
            assert(record@ =~= wire_record(payload@));
            Ok(record)
        },
        None => Err(Error::Framing),
    }
}

/// What a fragment header says: the number of payload octets, if the
/// fragment is the last of its record.
pub fn decode_header(header: u32) -> (r: Result<usize, Error>)
    ensures
        match r {
            Ok(len) => is_final(header) && len == payload_len(header),
            Err(e) => !is_final(header) && e == Error::Framing,
        },
{
    if header >= 0x8000_0000 {
        Ok((header - 0x8000_0000) as usize)
    } else {
        Err(Error::Framing)
    }
}

/// Takes the payload of the final fragment off the front of `input`.
pub fn decode_fragment<'a>(input: &'a [u8]) -> (r: Result<(&'a [u8], &'a [u8]), Error>)
    ensures
        match r {
            Ok((payload, rest)) => parse_record(input@) == Ok::<(Seq<u8>, Seq<u8>), Error>(
                (payload@, rest@),
            ),
            Err(e) => parse_record(input@) == Err::<(Seq<u8>, Seq<u8>), Error>(e),
        },
{
    match u32::decode(input) {
        Err(e) => Err(Error::Deseralization(e)),
        Ok((header, r)) => {
            let len = decode_header(header)?;
            if r.len() < len {
                return Err(Error::Deseralization(XdrError::Truncated));
            }
            let payload = vstd::slice::slice_subrange(r, 0, len);
            let rest = vstd::slice::slice_subrange(r, len, r.len());
            assert(payload@ =~= r@.take(len as int));
            assert(rest@ =~= r@.skip(len as int));
            Ok((payload, rest))
        },
    }
}


/// The version of the RPC protocol that calls are made in.
pub const RPC_VERSION: u32 = 2;

/// The version of the program that calls are made to.
pub const PROGRAM_VERSION: u32 = 4;

/// What the credential of every call says of the caller.
pub open spec fn caller_model() -> AuthSysParametersModel {
    AuthSysParametersModel {
        stamp: 0,
        machine_name: "test-machine"@,
        uid: Uid(0),
        gid: Gid(0),
        gids: seq![Gid(0)],
    }
}

/// The message that calls `procedure` of `program` with the arguments `args`
/// under the transaction identifier `xid`.
pub open spec fn call_model<M>(xid: u32, program: u32, procedure: u32, args: M) -> MessageModel<M> {
    MessageModel {
        xid: Xid(xid),
        body: MessageBodyModel::Call(
            CallBodyModel {
                rpc_version: RPC_VERSION,
                program,
                version: PROGRAM_VERSION,
                procedure,
                credential: OpaqueAuthModel {
                    flavor: AuthFlavor::Sys,
                    body: AuthSysParameters::wire(caller_model()),
                },
                verifier: OpaqueAuthModel { flavor: AuthFlavor::Null, body: Seq::empty() },
                call_args: args,
            },
        ),
    }
}

/// What a reply message gives its caller: the result of an accepted and
/// successful call, or why there is none.
pub open spec fn reply_of<M>(m: MessageModel<M>) -> Result<M, Error> {
    match m.body {
        MessageBodyModel::Reply(ReplyBodyModel::Accepted(accepted)) => match accepted.body {
            AcceptedReplyBodyModel::Success(v) => Ok(v),
            AcceptedReplyBodyModel::ProgramUnavailable => Err(Error::ProgramUnavailable),
            AcceptedReplyBodyModel::ProgramMismatch { .. } => Err(Error::ProgramMismatch),
            AcceptedReplyBodyModel::ProcedureUnavailable => Err(Error::ProcedureUnavailable),
            AcceptedReplyBodyModel::GarbageArguments => Err(Error::GarbageArguments),
            AcceptedReplyBodyModel::SystemError => Err(Error::SystemError),
        },
        _ => Err(Error::UnexpectedReply),
    }
}

/// What the payload of a reply record gives its caller. Octets after the
/// message are let pass.
pub open spec fn reply_of_payload<T: Xdr>(payload: Seq<u8>) -> Result<T::Model, Error> {
    match Message::<T>::parse(payload) {
        Err(e) => Err(Error::Deseralization(e)),
        Ok((m, _)) => reply_of(m),
    }
}

/// What the record of a reply gives its caller.
pub open spec fn reply_of_record<T: Xdr>(record: Seq<u8>) -> Result<T::Model, Error> {
    match parse_record(record) {
        Err(e) => Err(e),
        Ok((payload, _)) => reply_of_payload::<T>(payload),
    }
}

/// What the caller of every call says of itself.
pub fn caller() -> (r: AuthSysParameters)
    ensures
        r.model() == caller_model(),
        AuthSysParameters::wf(r.model()),
        wf_opaque(AuthSysParameters::wire(caller_model())),
{
    let mut gids: Vec<Gid> = Vec::new();
    gids.push(Gid(0));
    let r = AuthSysParameters {
        stamp: 0,
        machine_name: "test-machine".to_owned(),
        uid: Uid(0),
        gid: Gid(0),
        gids,
    };
    proof {
        reveal(<AuthSysParameters as Xdr>::model);
        reveal(<AuthSysParameters as Xdr>::wf);
        reveal_strlit("test-machine");
        assert(models(r.gids@) =~= seq![Gid(0)]);
        let name = "test-machine"@;
        assert(is_ascii_chars(name));
        is_ascii_chars_encode_utf8(name);
        assert(wf_each::<Gid>(seq![Gid(0)]));
        AuthSysParameters::lemma_wire_fits(caller_model());
    }
    r
}

/// What a reply message gives its caller.
pub fn accepted_result<T: Xdr>(message: Message<T>) -> (r: Result<T, Error>)
    ensures
        match r {
            Ok(v) => reply_of(message.model()) == Ok::<T::Model, Error>(v.model()),
            Err(e) => reply_of(message.model()) == Err::<T::Model, Error>(e),
        },
        message.canonical() ==> (r matches Ok(v) ==> v.canonical()),
{
    proof {
        reveal(<Message<_> as Xdr>::model);
        reveal(<MessageBody<_> as Xdr>::model);
        reveal(<ReplyBody<_> as Xdr>::model);
        reveal(<AcceptedReply<_> as Xdr>::model);
        reveal(<AcceptedReplyBody<_> as Xdr>::model);
    }
    match message.body {
        MessageBody::Reply(ReplyBody::Accepted(accepted)) => match accepted.body {
            AcceptedReplyBody::Success(v) => Ok(v),
            AcceptedReplyBody::ProgramUnavailable => Err(Error::ProgramUnavailable),
            AcceptedReplyBody::ProgramMismatch { .. } => Err(Error::ProgramMismatch),
            AcceptedReplyBody::ProcedureUnavailable => Err(Error::ProcedureUnavailable),
            AcceptedReplyBody::GarbageArguments => Err(Error::GarbageArguments),
            AcceptedReplyBody::SystemError => Err(Error::SystemError),
        },
        _ => Err(Error::UnexpectedReply),
    }
}

/// What the payload of a reply record gives its caller: a result is the
/// canonical value that stands for what the payload carries.
pub fn reply_from_payload<T: Xdr>(payload: &[u8]) -> (r: Result<T, Error>)
    ensures
        match r {
            Ok(v) => reply_of_payload::<T>(payload@) == Ok::<T::Model, Error>(v.model())
                && v.canonical(),
            Err(e) => reply_of_payload::<T>(payload@) == Err::<T::Model, Error>(e),
        },
{
    match Message::<T>::decode(payload) {
        Err(e) => Err(Error::Deseralization(e)),
        Ok((message, _)) => accepted_result(message),
    }
}

/// The state of a client of one program: the transaction identifier of its
/// next call.
pub struct RpcClient {
    xid: Xid,
    program: u32,
}

/// Whether the call of `procedure` of `program` with `args` under the
/// transaction identifier `xid` has a record to send: the identifiers are
/// not used up, the arguments have an encoding, and the message fits into one
/// fragment.
pub open spec fn has_record<T: Xdr>(
    xid: u32,
    program: u32,
    procedure: u32,
    args: T::Model,
) -> bool {
    &&& xid < u32::MAX
    &&& T::wf(args)
    &&& Message::<T>::wire(call_model(xid, program, procedure, args)).len() <= MAX_FRAGMENT
}

/// The error of a call that has no record to send.
pub open spec fn refusal<T: Xdr>(xid: u32, args: T::Model) -> Error {
    if xid == u32::MAX {
        Error::XidExhausted
    } else if !T::wf(args) {
        Error::Serialization(EncodeError)
    } else {
        Error::Framing
    }
}

/// What sending a call does between the states `before` and `after` of the
/// link. A call without a record is refused and nothing passes. Otherwise
/// the record is written, whole and alone, and the result is `Ok`, unless
/// the transport refuses the write: that is one fault, nothing counts as
/// written, and the result is the error of the transport.
pub open spec fn call_sent<T: Xdr, X: Transport>(
    xid: u32,
    program: u32,
    procedure: u32,
    args: T::Model,
    before: &Link<X>,
    after: &Link<X>,
    r: Result<(), Error>,
) -> bool {
    if !has_record::<T>(xid, program, procedure, args) {
        quiet(before, after) && r == Err::<(), Error>(refusal::<T>(xid, args))
    } else if after.faults() == before.faults() {
        &&& r is Ok
        &&& after.written() == before.written() + wire_record(
            Message::<T>::wire(call_model(xid, program, procedure, args)),
        )
        &&& after.received() == before.received()
    } else {
        &&& r matches Err(Error::Io(_))
        &&& after.faults() == before.faults() + 1
        &&& after.written() == before.written()
        &&& after.received() == before.received()
    }
}

/// Whatever the call: when it has a record to send and the transport takes
/// the write, the call is sent, and exactly one final fragment is written
/// and nothing else: the four octets of a header whose high bit is 1 and
/// whose low 31 bits are the length of the message, and then the message.
pub proof fn lemma_request_framing<T: Xdr, X: Transport>(
    xid: u32,
    program: u32,
    procedure: u32,
    args: T::Model,
    before: &Link<X>,
    after: &Link<X>,
    r: Result<(), Error>,
)
    requires
        call_sent::<T, X>(xid, program, procedure, args, before, after, r),
        has_record::<T>(xid, program, procedure, args),
        after.faults() == before.faults(),
    ensures
        r is Ok,
        ({
            let message = Message::<T>::wire(call_model(xid, program, procedure, args));
            let header = final_header(message.len());
            &&& after.written() == before.written() + wire_u32(header) + message
            &&& header >> 31 == 1
            &&& header & 0x7fff_ffff == message.len()
        }),
{
    let message = Message::<T>::wire(call_model(xid, program, procedure, args));
    let header = final_header(message.len());
    lemma_final_header(message.len());
    assert(before.written() + (wire_u32(header) + message) =~= before.written() + wire_u32(header)
        + message);
}

/// Whether `s` is what is read of one record, and nothing more: the header
/// of a final fragment and exactly as many octets as it says; or, where the
/// header is not that of a final fragment, the four octets of the header
/// alone.
pub open spec fn one_record(s: Seq<u8>) -> bool {
    match parse_record(s) {
        Ok((_, rest)) => rest.len() == 0,
        Err(_) => s.len() == 4,
    }
}

/// What receiving a reply does between the states `before` and `after` of
/// the link. As long as the transport fails no call, exactly one record is
/// read, after what was read before, and the result is what that record
/// gives: the canonical value of the result that its reply carries, or the
/// error that says why it carries none. A call that the transport fails is one fault, and the
/// result is then an error of the transport or of the framing.
pub open spec fn reply_received<T: Xdr, X: Transport>(
    before: &Link<X>,
    after: &Link<X>,
    r: Result<T, Error>,
) -> bool {
    if after.faults() == before.faults() {
        &&& after.received() == before.received() + before.read_until(after)
        &&& one_record(before.read_until(after))
        &&& match r {
            Ok(v) => reply_of_record::<T>(before.read_until(after)) == Ok::<T::Model, Error>(
                v.model(),
            ) && v.canonical(),
            Err(e) => reply_of_record::<T>(before.read_until(after)) == Err::<T::Model, Error>(e),
        }
    } else {
        &&& after.faults() == before.faults() + 1
        &&& r matches Err(e) && (e is Io || e == Error::Framing)
    }
}

impl RpcClient {
    /// The transaction identifier of the next call.
    pub closed spec fn next_xid(&self) -> u32 {
        self.xid.0
    }

    /// The number of the program that calls are made to.
    pub closed spec fn program(&self) -> u32 {
        self.program
    }

    /// A client of `program` whose first call has the transaction identifier 1.
    pub fn new(program: u32) -> (r: Self)
        ensures
            r.next_xid() == 1,
            r.program() == program,
    {
        Self { xid: Xid(1), program }
    }

    /// The record of the next call: the message that calls `procedure` with
    /// `call_args`, framed as one final fragment.
    pub fn request_record<T: Xdr>(
        &self,
        procedure: u32,
        call_args: T,
    ) -> (r: Result<Vec<u8>, Error>)
        ensures
            match r {
                Ok(record) => {
                    let m = call_model(
                        self.next_xid(),
                        self.program(),
                        procedure,
                        call_args.model(),
                    );
                    &&& T::wf(call_args.model())
                    &&& Message::<T>::wire(m).len() <= MAX_FRAGMENT
                    &&& record@ == wire_record(Message::<T>::wire(m))
                },
                Err(e) => {
                    let m = call_model(
                        self.next_xid(),
                        self.program(),
                        procedure,
                        call_args.model(),
                    );
                    if T::wf(call_args.model()) {
                        Message::<T>::wire(m).len() > MAX_FRAGMENT && e == Error::Framing
                    } else {
                        e == Error::Serialization(EncodeError)
                    }
                },
            },
    {
        let ghost args = call_args.model();
        let credential = match OpaqueAuth::auth_sys(caller()) {
            Ok(c) => c,
            Err(e) => {
                return Err(Error::Serialization(e));
            },
        };
        let message = Message {
            xid: Xid(self.xid.0),
            body: MessageBody::Call(
                CallBody {
                    rpc_version: RPC_VERSION,
                    program: self.program,
                    version: PROGRAM_VERSION,
                    procedure,
                    credential,
                    verifier: OpaqueAuth::none(),
                    call_args,
                },
            ),
        };
        proof {
            reveal(<Message<_> as Xdr>::model);
            reveal(<Message<_> as Xdr>::wf);
            reveal(<MessageBody<_> as Xdr>::model);
            reveal(<MessageBody<_> as Xdr>::wf);
            reveal(<CallBody<_> as Xdr>::model);
            reveal(<CallBody<_> as Xdr>::wf);
            reveal(<OpaqueAuth as Xdr>::model);
            reveal(<OpaqueAuth as Xdr>::wf);
            assert(message.model() == call_model(
                self.next_xid(),
                self.program(),
                procedure,
                args,
            ));
            assert(Message::<T>::wf(message.model()) == T::wf(args));
        }
        let mut payload: Vec<u8> = Vec::new();
        match message.encode(&mut payload) {
            Ok(()) => {},
            Err(e) => {
                return Err(Error::Serialization(e));
            },
        }
        assert(payload@ =~= Message::<T>::wire(message.model()));
        encode_fragment(payload.as_slice())
    }

    /// Sends the next call, of `procedure` with `call_args`: its record, whole
    /// and alone, is written to the transport; then the client moves on to the
    /// next transaction identifier. Nothing is sent and nothing changes when
    /// the call has no record or the transaction identifiers are used up;
    /// nothing changes when the transport does not accept the record.
    pub fn send_request<T: Xdr, X: Transport>(
        &mut self,
        transport: &mut Link<X>,
        procedure: u32,
        call_args: T,
    ) -> (r: Result<(), Error>)
        ensures
            final(self).program() == old(self).program(),
            final(self).next_xid() == if r is Ok {
                old(self).next_xid() + 1
            } else {
                old(self).next_xid() as int
            },
            r is Ok ==> final(transport).written() == old(transport).written() + wire_record(
                Message::<T>::wire(
                    call_model(
                        old(self).next_xid(),
                        old(self).program(),
                        procedure,
                        call_args.model(),
                    ),
                ),
            ),
            r is Err ==> final(transport).written() == old(transport).written(),
            final(transport).received() == old(transport).received(),
            old(self).next_xid() == u32::MAX ==> r == Err::<(), Error>(Error::XidExhausted),
            old(self).next_xid() < u32::MAX && !T::wf(call_args.model()) ==> r == Err::<(), Error>(
                Error::Serialization(EncodeError),
            ),
            old(self).next_xid() < u32::MAX && T::wf(call_args.model()) && Message::<T>::wire(
                call_model(old(self).next_xid(), old(self).program(), procedure, call_args.model()),
            ).len() > MAX_FRAGMENT ==> r == Err::<(), Error>(Error::Framing),
            call_sent::<T, X>(
                old(self).next_xid(),
                old(self).program(),
                procedure,
                call_args.model(),
                old(transport),
                final(transport),
                r,
            ),
    {
        if self.xid.0 == u32::MAX {
            return Err(Error::XidExhausted);
        }
        let record = self.request_record(procedure, call_args)?;
        match transport.write_all(record.as_slice()) {
            Ok(()) => {},
            Err(e) => {
                return Err(Error::Io(e));
            },
        }
        self.xid = Xid(self.xid.0 + 1);
        Ok(())
    }

    /// Reads the record of a reply and takes the result out of it. Whatever
    /// the transport hands over is held against the fragment header first.
    pub fn receive_reply<T: Xdr, X: Transport>(
        &mut self,
        transport: &mut Link<X>,
    ) -> (r: Result<T, Error>)
        ensures
            final(self).program() == old(self).program(),
            final(self).next_xid() == old(self).next_xid(),
            final(transport).written() == old(transport).written(),
            old(transport).received().is_prefix_of(final(transport).received()),
            match r {
                Ok(v) => reply_of_record::<T>(old(transport).read_until(final(transport)))
                    == Ok::<T::Model, Error>(v.model()),
                Err(e) => e is Io || e == Error::Framing || reply_of_record::<T>(
                    old(transport).read_until(final(transport)),
                ) == Err::<T::Model, Error>(e),
            },
            reply_received::<T, X>(old(transport), final(transport), r),
    {
        let ghost before = transport.received();
        proof {
            assert(before.skip(before.len() as int) =~= Seq::<u8>::empty());
            reveal(parse_u32);
        }
        let head = match transport.read_exact(4) {
            Ok(b) => b,
            Err(e) => {
                return Err(Error::Io(e));
            },
        };
        if head.len() != 4 {
            return Err(Error::Framing);
        }
        let header = match u32::decode(head.as_slice()) {
            Ok((h, _)) => h,
            Err(e) => {
                return Err(Error::Framing);
            },
        };
        proof {
            assert((before + head@).skip(before.len() as int) =~= head@);
        }
        let len = decode_header(header)?;
        let payload = match transport.read_exact(len) {
            Ok(b) => b,
            Err(e) => {
                return Err(Error::Io(e));
            },
        };
        if payload.len() != len {
            return Err(Error::Framing);
        }
        proof {
            let delta = head@ + payload@;
            assert((before + head@ + payload@).skip(before.len() as int) =~= delta);
            assert(before + head@ + payload@ =~= before + delta);
            assert(delta.skip(4) =~= payload@);
            assert(payload@.take(len as int) =~= payload@);
            assert(payload@.skip(len as int) =~= Seq::<u8>::empty());
        }
        reply_from_payload::<T>(payload.as_slice())
    }
}

} // verus!
