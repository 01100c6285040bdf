//! The session client: the handshake that opens a session, the sequence
//! operation that leads every COMPOUND of it, and the file system methods,
//! each a COMPOUND of a few operations.
//!
//! What a method sends is stated over the models of its operations: the
//! record that it writes to the transport is the record of one COMPOUND whose
//! operations are the sequence operation of the session and then those that
//! the method is made of.
//!
//! What becomes of one COMPOUND is an [`exchange`]: whether it is sent, what
//! is written and read, and how the result follows from the record that was
//! read, as long as the transport fails no call. A method that sends several
//! is stated as a [`chain`] of them, with the results of all but the last as
//! the reason for the next.

use crate::args::{
    ClientOwner, ClientOwnerModel, CreateHow, CreateHowModel, CreateSessionArgs,
    CreateSessionArgsModel, ExchangeIdArgs, ExchangeIdArgsModel, GetAttrArgs, GetAttrArgsModel,
    LookUpArgs, LookUpArgsModel, OpenArgs, OpenArgsModel, OpenClaim, OpenClaimModel, OpenFlag,
    OpenFlagModel, PutFhArgs, PutFhArgsModel, ReadArgs, ReadArgsModel, ReadDirArgs,
    ReadDirArgsModel, ReclaimCompleteArgs, RemoveArgs, RemoveArgsModel, RenameArgs, RenameArgsModel,
    SequenceArgs, SequenceArgsModel, SetAttrArgs, SetAttrArgsModel, StateProtect, StateProtectModel,
    WriteArgs, WriteArgsModel,
};
use crate::attr::{FileAttributeId, FileAttributeModel, FileAttributes};
use crate::basic::{
    ChannelAttrs, ChannelAttrsModel, ClientId, Cookie, FileHandle, FileHandleModel, SequenceId,
    SessionId, SlotId, StableHow, StateId, StateIdModel, StateOwner, StateOwnerModel, Verifier,
};
use crate::bitmap::ascending;
use crate::compound::{
    compound_args, compound_failure, compound_tag, finish_compound, CompoundRequest, Error,
    ReturnSecond, MINOR_VERSION,
};
use crate::enum_map::{ids, lemma_ascending_distinct, lemma_id_injective, EnumId, EnumSet};
use crate::flags::{CreateSessionFlags, ExchangeIdFlags, ShareAccess, ShareDeny};
use crate::ops::{
    ArgOp, ArgOpModel, CompoundArgs, CompoundArgsModel, CompoundRes, CompoundResModel, ResOp,
    ResOpModel,
};
use crate::path::{components, path_components, texts};
use crate::requests::{GetFh, PutRootFh, SaveFh};
use crate::res::{
    CreateSessionRes, DirectoryEntry, ExchangeIdRes, GetAttrRes, GetFhRes, GetFhResModel,
    ReadDirRes, ReadRes, SetAttrRes, SetAttrStatusResult, SetAttrStatusResultModel, WriteRes,
};
use crate::rpc::Message;
use crate::status::StatusResult;
use crate::rpc_client::{
    call_model, has_record, one_record, quiet, refusal, reply_of_record, wire_record, Link,
    RpcClient, Transport,
};
use crate::xdr::{copy_bytes, lemma_u64_round_trip, models, wire_u32, wire_u64, zeros, Xdr};
use vstd::prelude::*;

verus! {

/// The program number of NFS.
pub const NFS: u32 = 100003;

/// The program number that callbacks of NFS are made to.
pub const NFS_CB: u32 = 0x40000000;

/// The port that NFS servers listen on.
pub const NFS_PORT: u16 = 2049;

/// The procedure of the program NFS that carries a COMPOUND.
pub const COMPOUND_PROCEDURE: u32 = 1;

/// What the COMPOUND of this client that carries the operations `ops` stands
/// for.
pub open spec fn compound_model(ops: Seq<ArgOpModel>) -> CompoundArgsModel {
    CompoundArgsModel { tag: compound_tag(), minor_version: MINOR_VERSION, arg_array: ops }
}

/// The record of the call that carries the operations `ops` as one COMPOUND to
/// `program` under the transaction identifier `xid`.
pub open spec fn compound_record(xid: u32, program: u32, ops: Seq<ArgOpModel>) -> Seq<u8> {
    wire_record(
        Message::<CompoundArgs>::wire(
            call_model(xid, program, COMPOUND_PROCEDURE, compound_model(ops)),
        ),
    )
}

/// Whether `bytes` is what was written to a transport between the states
/// `before` and `after` of it.
pub open spec fn wrote<X: Transport>(before: &Link<X>, after: &Link<X>, bytes: Seq<u8>) -> bool {
    after.written() == before.written() + bytes
}

/// Whether `r` is what the COMPOUND reply `reply` gives a request that left
/// `g` to remember: its result, when the reply and every result in it report
/// success and the results are those of the operations of the request; and
/// otherwise the failure of the reply.
pub open spec fn outcome<R: CompoundRequest>(
    reply: CompoundRes,
    g: R::Geometry,
    r: Result<R::Response, Error>,
) -> bool {
    match r {
        Ok(v) => {
            &&& compound_failure::<R>(reply.status, g, reply.res_array@) is None
            &&& R::yields(g, reply.res_array@, v)
            &&& reply.res_array@.len() == R::expected(g).len()
        },
        Err(e) => compound_failure::<R>(reply.status, g, reply.res_array@) == Some(e),
    }
}

/// Whether `r` is what a request got for an answer between the states
/// `before` and `after` of the transport: what was read is the record of a
/// reply that carries a COMPOUND reply, and `r` is what that reply gives the
/// request.
pub open spec fn answered<X: Transport, R: CompoundRequest>(
    request: R,
    before: &Link<X>,
    after: &Link<X>,
    r: Result<R::Response, Error>,
) -> bool {
    exists|reply: CompoundRes, g: R::Geometry|
        {
            &&& request.is_geometry(g)
            &&& #[trigger] outcome::<R>(reply, g, r)
            &&& reply_of_record::<CompoundRes>(before.read_until(after)) == Ok::<
                CompoundResModel,
                crate::rpc_client::Error,
            >(reply.model())
        }
}

/// Whether `r` is what a request got for an answer between the states
/// `before` and `after` of the transport, when it was sent after a prologue
/// that left `first` to remember (in a session: the sequence operation): what
/// was read is the record of a reply that carries a COMPOUND reply, and `r`
/// is what that reply gives the request after the prologue.
pub open spec fn replied<X: Transport, S: CompoundRequest, R: CompoundRequest>(
    first: S::Geometry,
    request: R,
    before: &Link<X>,
    after: &Link<X>,
    r: Result<R::Response, Error>,
) -> bool {
    exists|reply: CompoundRes, g: R::Geometry|
        {
            &&& request.is_geometry(g)
            &&& #[trigger] outcome::<ReturnSecond<S, R>>(reply, (first, g), r)
            &&& reply_of_record::<CompoundRes>(before.read_until(after)) == Ok::<
                CompoundResModel,
                crate::rpc_client::Error,
            >(reply.model())
        }
}

/// The COMPOUND reply that was read between the states `before` and `after`
/// of the transport, if a record with one was read.
pub open spec fn reply_read<X: Transport>(before: &Link<X>, after: &Link<X>) -> Result<
    CompoundResModel,
    crate::rpc_client::Error,
> {
    reply_of_record::<CompoundRes>(before.read_until(after))
}

/// Whether a COMPOUND reply reports success with `n` results.
pub open spec fn succeeded(m: CompoundResModel, n: int) -> bool {
    m.status == StatusResult::Success(()) && m.res_array.len() == n
}

/// Whether what was read between the states `before` and `after` of the
/// transport is the record of a COMPOUND reply that reports success with `n`
/// results, the last of which is `last`.
pub open spec fn answer_ends<X: Transport>(
    before: &Link<X>,
    after: &Link<X>,
    n: int,
    last: ResOpModel,
) -> bool {
    match reply_read(before, after) {
        Ok(m) => succeeded(m, n) && m.res_array[n - 1] == last,
        Err(_) => false,
    }
}

/// Whether `r` is what the record `record` of a reply gives a request that
/// left `g` to remember: what the COMPOUND reply in it gives the request, or
/// the error that says why the record carries none. The reply is the
/// canonical one that stands for what the record carries, so that the
/// failure of a lock operation holds a denied lock if and only if its status
/// is `Denied`.
pub open spec fn reply_gives<R: CompoundRequest>(
    g: R::Geometry,
    record: Seq<u8>,
    r: Result<R::Response, Error>,
) -> bool {
    match reply_of_record::<CompoundRes>(record) {
        Err(e) => r == Err::<R::Response, Error>(Error::SunRpc(e)),
        Ok(m) => exists|reply: CompoundRes| #[trigger]
            outcome::<R>(reply, g, r) && reply.model() == m && reply.canonical(),
    }
}

/// Whether `r` reports that the transport failed a call between the states
/// `before` and `after` of the link, while the COMPOUND with the record
/// `record` was sent or its reply was read: one fault, and at most the
/// record was written.
pub open spec fn link_failed<X: Transport, T>(
    before: &Link<X>,
    after: &Link<X>,
    record: Seq<u8>,
    sent: bool,
    r: Result<T, Error>,
) -> bool {
    &&& after.faults() == before.faults() + 1
    &&& r matches Err(Error::SunRpc(e)) && (e is Io || e == crate::rpc_client::Error::Framing)
    &&& wrote(
        before,
        after,
        if sent {
            record
        } else {
            Seq::empty()
        },
    )
    &&& before.received().is_prefix_of(after.received())
}

/// What one COMPOUND of the operations `ops` does between the states
/// `before` and `after` of the link, when the next transaction identifier
/// is `xid` before it and `next` after it, and the request left `g` to
/// remember.
///
/// A COMPOUND without a record is refused: nothing passes, and the
/// identifier stays. Otherwise the record is written, whole and alone, the
/// identifier moves on, exactly one record is then read, after what was read
/// before, and the result is what that record gives the request; unless the
/// transport fails a call, which is its one fault and the error.
pub open spec fn exchange<X: Transport, R: CompoundRequest>(
    g: R::Geometry,
    ops: Seq<ArgOpModel>,
    xid: u32,
    program: u32,
    next: u32,
    before: &Link<X>,
    after: &Link<X>,
    r: Result<R::Response, Error>,
) -> bool {
    let record = compound_record(xid, program, ops);
    if !has_record::<CompoundArgs>(xid, program, COMPOUND_PROCEDURE, compound_model(ops)) {
        &&& quiet(before, after)
        &&& next == xid
        &&& r == Err::<R::Response, Error>(
            Error::SunRpc(refusal::<CompoundArgs>(xid, compound_model(ops))),
        )
    } else if after.faults() == before.faults() {
        &&& wrote(before, after, record)
        &&& next == xid + 1
        &&& after.received() == before.received() + before.read_until(after)
        &&& one_record(before.read_until(after))
        &&& reply_gives::<R>(g, before.read_until(after), r)
    } else {
        link_failed(before, after, record, next == xid + 1, r) && (next == xid || next == xid + 1)
    }
}

/// A sequence of look-ups takes as many results as it has look-ups.
pub proof fn lemma_look_ups_expected(gs: Seq<()>)
    ensures
        crate::compound::flat_expected::<LookUpArgs>(gs).len() == gs.len(),
    decreases gs.len(),
{
    if gs.len() > 0 {
        lemma_look_ups_expected(gs.drop_last());
    }
}

/// The models of calls, one after the other, are the models of all of them.
pub proof fn lemma_models_concat<T: Xdr>(a: Seq<T>, b: Seq<T>)
    ensures
        models(a + b) == models(a) + models(b),
{
    assert(models(a + b) =~= models(a) + models(b));
}

/// A client that sends COMPOUNDs without a session.
pub struct ClientWithoutSession {
    rpc_client: RpcClient,
}

impl ClientWithoutSession {
    /// The transaction identifier of the next call.
    pub closed spec fn next_xid(&self) -> u32 {
        self.rpc_client.next_xid()
    }

    /// The number of the program that calls are made to.
    pub closed spec fn program(&self) -> u32 {
        self.rpc_client.program()
    }

    pub fn new(rpc_client: RpcClient) -> (r: Self)
        ensures
            r.next_xid() == rpc_client.next_xid(),
            r.program() == rpc_client.program(),
    {
        Self { rpc_client }
    }

    /// Sends `args` as one COMPOUND and takes its result out of the reply.
    ///
    /// The record of the COMPOUND is written to the transport, whole and
    /// alone; nothing is written when the request has no encoding. What the
    /// reply gives is decided by [`finish_compound`].
    pub fn do_compound<X: Transport, Args: CompoundRequest>(
        &mut self,
        transport: &mut Link<X>,
        args: Args,
    ) -> (r: Result<Args::Response, Error>)
        ensures
            final(self).program() == old(self).program(),
            r is Ok ==> final(self).next_xid() == old(self).next_xid() + 1,
            r is Ok ==> wrote(
                old(transport),
                final(transport),
                compound_record(
                    old(self).next_xid(),
                    old(self).program(),
                    models(args.arg_ops()),
                ),
            ),
            r is Err ==> wrote(old(transport), final(transport), Seq::empty()) || wrote(
                old(transport),
                final(transport),
                compound_record(
                    old(self).next_xid(),
                    old(self).program(),
                    models(args.arg_ops()),
                ),
            ),
            !(r matches Err(Error::SunRpc(_))) ==> answered(
                args,
                old(transport),
                final(transport),
                r,
            ),
            exists|g: Args::Geometry| #[trigger]
                args.is_geometry(g) && exchange::<X, Args>(
                    g,
                    models(args.arg_ops()),
                    old(self).next_xid(),
                    old(self).program(),
                    final(self).next_xid(),
                    old(transport),
                    final(transport),
                    r,
                ),
    {
        let (arg_array, geometry) = args.into_arg_array();
        let call_args = compound_args(arg_array);
        proof {
            reveal(<CompoundArgs as Xdr>::model);
            assert(call_args.model() == compound_model(models(args.arg_ops())));
        }
        match self.rpc_client.send_request(transport, COMPOUND_PROCEDURE, call_args) {
            Ok(()) => {},
            Err(e) => {
                return Err(Error::SunRpc(e));
            },
        }
        let compound_reply: CompoundRes = match self.rpc_client.receive_reply(transport) {
            Ok(reply) => reply,
            Err(e) => {
                return Err(Error::SunRpc(e));
            },
        };
        let ghost reply = compound_reply;
        let r = finish_compound::<Args>(compound_reply, &geometry);
        proof {
            assert(outcome::<Args>(reply, geometry, r));
        }
        r
    }
}

/// `rand::thread_rng().gen::<u64>()`: a number that the thread's random number
/// generator gives. Nothing is claimed of it.
#[verifier::external_body]
fn random_u64() -> u64 {
    rand::Rng::gen::<u64>(&mut rand::thread_rng())
}

/// The owner of a client whose identifier is the eight octets of `seed`, most
/// significant first, and whose verifier is 0.
pub fn client_owner_from(seed: u64) -> (r: ClientOwner)
    ensures
        r.verifier == Verifier(0),
        r.owner_id@ == wire_u64(seed),
{
    let mut owner_id: Vec<u8> = Vec::new();
    let _ = seed.encode(&mut owner_id);
    assert(owner_id@ =~= wire_u64(seed));
    ClientOwner { verifier: Verifier(0), owner_id }
}

/// The owner of a new client: eight octets drawn at random, and the verifier 0.
pub fn random_client_owner() -> (r: ClientOwner)
    ensures
        r.verifier == Verifier(0),
        r.owner_id@.len() == 8,
{
    let r = client_owner_from(random_u64());
    proof {
        lemma_u64_round_trip(0, Seq::empty());
        reveal(wire_u64);
        reveal(wire_u32);
    }
    r
}

/// What the anonymous state identifier stands for: all zeros.
pub open spec fn anonymous() -> StateIdModel {
    StateIdModel { sequence_id: 0, other: zeros(12) }
}

/// The operation that makes the file `handle` the current one.
pub open spec fn put_fh(handle: Seq<u8>) -> ArgOpModel {
    ArgOpModel::PutFh(PutFhArgsModel { object: FileHandleModel(handle) })
}

/// The operations of a read of `count` octets of the file `handle` from
/// `offset` on: the file is put, then read under the anonymous state
/// identifier.
pub open spec fn read_ops(handle: Seq<u8>, offset: u64, count: u32) -> Seq<ArgOpModel> {
    seq![
        put_fh(handle),
        ArgOpModel::Read(ReadArgsModel { state_id: anonymous(), offset, count }),
    ]
}

/// The operations of a write of `data` to the file `handle` at `offset`: the
/// file is put, then written under the anonymous state identifier, to reach
/// stable storage before the server answers.
pub open spec fn write_ops(handle: Seq<u8>, offset: u64, data: Seq<u8>) -> Seq<ArgOpModel> {
    seq![
        put_fh(handle),
        ArgOpModel::Write(
            WriteArgsModel { state_id: anonymous(), offset, stable: StableHow::FileSync, data },
        ),
    ]
}

/// The operations that take the entry `name` out of the directory `parent`.
pub open spec fn remove_ops(parent: Seq<u8>, name: Seq<char>) -> Seq<ArgOpModel> {
    seq![put_fh(parent), ArgOpModel::Remove(RemoveArgsModel { target: name })]
}

/// The operations that give the entry `old_name` of the directory `source`
/// the name `new_name` in the directory `target`: the source is put and
/// saved, then the target is put.
pub open spec fn rename_ops(
    source: Seq<u8>,
    target: Seq<u8>,
    old_name: Seq<char>,
    new_name: Seq<char>,
) -> Seq<ArgOpModel> {
    seq![
        put_fh(source),
        ArgOpModel::SaveFh,
        put_fh(target),
        ArgOpModel::Rename(RenameArgsModel { old_name, new_name }),
    ]
}

/// The operations that set the attributes `attrs` of the file `handle`, under
/// the anonymous state identifier.
pub open spec fn set_attr_ops(handle: Seq<u8>, attrs: Seq<FileAttributeModel>) -> Seq<ArgOpModel> {
    seq![
        put_fh(handle),
        ArgOpModel::SetAttr(SetAttrArgsModel { state_id: anonymous(), object_attributes: attrs }),
    ]
}

/// The operations that read the attributes `attrs` of the file `handle`.
pub open spec fn get_attr_ops(handle: Seq<u8>, attrs: Seq<FileAttributeId>) -> Seq<ArgOpModel> {
    seq![put_fh(handle), ArgOpModel::GetAttr(GetAttrArgsModel { attr_request: attrs })]
}

/// The operations that list the directory `handle` from `cookie` on: up to
/// 1000 octets of entries, with the attributes `attrs` of each.
pub open spec fn read_dir_ops(
    handle: Seq<u8>,
    cookie: Cookie,
    attrs: Seq<FileAttributeId>,
) -> Seq<ArgOpModel> {
    seq![
        put_fh(handle),
        ArgOpModel::ReadDir(
            ReadDirArgsModel {
                cookie,
                cookie_verifier: Verifier(0),
                directory_count: 1000,
                max_count: 1000,
                attr_request: attrs,
            },
        ),
    ]
}

/// The look-ups of the names `names`, in order.
pub open spec fn look_ups(names: Seq<Seq<char>>) -> Seq<ArgOpModel> {
    Seq::new(
        names.len(),
        |i: int| ArgOpModel::LookUp(LookUpArgsModel { object_name: names[i] }),
    )
}

/// The operations that find the file that `path` names: from the root, one
/// look-up for each component of the path, then the handle of what was found.
pub open spec fn look_up_ops(path: Seq<char>) -> Seq<ArgOpModel> {
    seq![ArgOpModel::PutRootFh] + look_ups(components(path)) + seq![ArgOpModel::GetFh]
}

/// The operations that create the file `name` in the directory `parent` for
/// the owner made of `client_id` and `owner_id`, and ask for its handle.
///
/// The file is opened for writing, denying nothing, created exclusively
/// under the verifier 0; the sequence number of the open is 0.
pub open spec fn create_ops(
    parent: Seq<u8>,
    name: Seq<char>,
    client_id: ClientId,
    owner_id: Seq<u8>,
) -> Seq<ArgOpModel> {
    seq![
        put_fh(parent),
        ArgOpModel::Open(
            OpenArgsModel {
                sequence_id: SequenceId(0),
                share_access: ShareAccess { bits: ShareAccess::WRITE },
                share_deny: ShareDeny { bits: ShareDeny::NONE },
                owner: StateOwnerModel { client_id, opaque: owner_id },
                open_how: OpenFlagModel::OpenCreate(
                    CreateHowModel::Exclusive { create_verifier: Verifier(0) },
                ),
                claim: OpenClaimModel::Null { file: name },
            },
        ),
        ArgOpModel::GetFh,
    ]
}

/// The operation that makes a client known to the server under the owner
/// `owner_id`: verifier 0, no flags, no state protection, no implementation
/// identifier.
pub open spec fn exchange_id_ops(owner_id: Seq<u8>) -> Seq<ArgOpModel> {
    seq![
        ArgOpModel::ExchangeId(
            ExchangeIdArgsModel {
                client_owner: ClientOwnerModel { verifier: Verifier(0), owner_id },
                flags: ExchangeIdFlags { bits: 0 },
                state_protect: StateProtectModel::Null,
                client_impl_id: None,
            },
        ),
    ]
}

/// A copy of a file handle.
pub fn clone_handle(handle: &FileHandle) -> (r: FileHandle)
    ensures
        r.0@ == handle.0@,
{
    FileHandle(copy_bytes(handle.0.as_slice()))
}

/// The request that opens a session for `client_owner`: no flags, no state
/// protection, no implementation identifier.
pub fn exchange_id_args(client_owner: ClientOwner) -> (r: ExchangeIdArgs)
    requires
        client_owner.verifier == Verifier(0),
    ensures
        r.client_owner == client_owner,
        models(r.arg_ops()) == exchange_id_ops(client_owner.owner_id@),
{
    let r = ExchangeIdArgs {
        client_owner,
        flags: ExchangeIdFlags::empty(),
        state_protect: StateProtect::Null,
        client_impl_id: None,
    };
    proof {
        reveal(<ArgOp as Xdr>::model);
        reveal(<ExchangeIdArgs as Xdr>::model);
        reveal(<ClientOwner as Xdr>::model);
        reveal(<StateProtect as Xdr>::model);
        assert(models(r.arg_ops()) =~= exchange_id_ops(client_owner.owner_id@));
    }
    r
}

/// The operation that creates the session of the client `client_id`: sequence
/// number 1, no flags, the channel attributes of this client, callbacks to
/// the callback program, no security parameters.
pub open spec fn create_session_ops(client_id: ClientId) -> Seq<ArgOpModel> {
    seq![
        ArgOpModel::CreateSession(
            CreateSessionArgsModel {
                client_id,
                sequence_id: SequenceId(1),
                flags: CreateSessionFlags { bits: 0 },
                fore_channel_attrs: fore_channel(),
                back_channel_attrs: back_channel(),
                program: NFS_CB,
                security_parameters: Seq::empty(),
            },
        ),
    ]
}

/// The operations that close the handshake: nothing is to be reclaimed, and
/// of the root the server is asked what it supports and how much it reads
/// and writes at once.
pub open spec fn root_attrs_ops() -> Seq<ArgOpModel> {
    seq![
        ArgOpModel::ReclaimComplete(ReclaimCompleteArgs { one_fs: false }),
        ArgOpModel::PutRootFh,
        ArgOpModel::GetAttr(
            GetAttrArgsModel {
                attr_request: seq![
                    FileAttributeId::SupportedAttrs,
                    FileAttributeId::MaxRead,
                    FileAttributeId::MaxWrite,
                ],
            },
        ),
    ]
}

/// The attributes that this client asks of the channel to the server.
pub open spec fn fore_channel() -> ChannelAttrsModel {
    ChannelAttrsModel {
        header_pad_size: 0,
        max_request_size: 1049620,
        max_response_size: 1049480,
        max_response_size_cached: 7584,
        max_operations: 16,
        max_requests: 64,
        rdma_ird: None,
    }
}

/// The attributes that this client asks of the channel from the server.
pub open spec fn back_channel() -> ChannelAttrsModel {
    ChannelAttrsModel {
        header_pad_size: 0,
        max_request_size: 4096,
        max_response_size: 4096,
        max_response_size_cached: 0,
        max_operations: 16,
        max_requests: 16,
        rdma_ird: None,
    }
}

/// The request that creates the session of the client `client_id`.
pub fn create_session_args(client_id: ClientId) -> (r: CreateSessionArgs)
    ensures
        models(r.arg_ops()) == create_session_ops(client_id),
{
    let r = CreateSessionArgs {
        client_id,
        sequence_id: SequenceId(1),
        flags: CreateSessionFlags::empty(),
        fore_channel_attrs: ChannelAttrs {
            header_pad_size: 0,
            max_request_size: 1049620,
            max_response_size: 1049480,
            max_response_size_cached: 7584,
            max_operations: 16,
            max_requests: 64,
            rdma_ird: None,
        },
        back_channel_attrs: ChannelAttrs {
            header_pad_size: 0,
            max_request_size: 4096,
            max_response_size: 4096,
            max_response_size_cached: 0,
            max_operations: 16,
            max_requests: 16,
            rdma_ird: None,
        },
        program: NFS_CB,
        security_parameters: Vec::new(),
    };
    proof {
        reveal(<ArgOp as Xdr>::model);
        reveal(<CreateSessionArgs as Xdr>::model);
        reveal(<ChannelAttrs as Xdr>::model);
        assert(r.security_parameters.model() =~= Seq::empty());
        assert(models(r.arg_ops()) =~= create_session_ops(client_id));
    }
    r
}

/// The request that closes the handshake: it says that nothing is to be
/// reclaimed, and asks of the root what the server supports and how much it
/// reads and writes at once.
pub fn root_attrs_request() -> (r: ReturnSecond<(ReclaimCompleteArgs, PutRootFh), GetAttrArgs>)
    ensures
        models(r.arg_ops()) == root_attrs_ops(),
{
    let mut attr_request: EnumSet<FileAttributeId> = EnumSet::new();
    let _ = attr_request.insert(FileAttributeId::SupportedAttrs);
    let _ = attr_request.insert(FileAttributeId::MaxRead);
    let _ = attr_request.insert(FileAttributeId::MaxWrite);
    let keys = attr_request.to_vec();
    proof {
        let want = seq![
            FileAttributeId::SupportedAttrs,
            FileAttributeId::MaxRead,
            FileAttributeId::MaxWrite,
        ];
        assert(want[0] == FileAttributeId::SupportedAttrs);
        assert(want[1] == FileAttributeId::MaxRead);
        assert(want[2] == FileAttributeId::MaxWrite);
        assert(Seq::<FileAttributeId>::empty().to_set() =~= Set::<FileAttributeId>::empty());
        assert(want.to_set() =~= Set::<FileAttributeId>::empty().insert(
            FileAttributeId::SupportedAttrs,
        ).insert(FileAttributeId::MaxRead).insert(FileAttributeId::MaxWrite));
        lemma_ascending_is_unique(keys@, want);
    }
    let r = ReturnSecond(
        (ReclaimCompleteArgs { one_fs: false }, PutRootFh),
        GetAttrArgs { attr_request },
    );
    proof {
        reveal(<ArgOp as Xdr>::model);
        reveal(<GetAttrArgs as Xdr>::model);
        assert(models(r.arg_ops()) =~= root_attrs_ops());
    }
    r
}

/// Two ascending sequences of identifiers that hold the same identifiers are
/// the same sequence.
pub proof fn lemma_ascending_is_unique(a: Seq<FileAttributeId>, b: Seq<FileAttributeId>)
    requires
        ascending(ids(a)),
        ascending(ids(b)),
        a.to_set() == b.to_set(),
    ensures
        a == b,
    decreases a.len(),
{
    lemma_ascending_distinct(a);
    lemma_ascending_distinct(b);
    a.unique_seq_to_set();
    b.unique_seq_to_set();
    if a.len() == 0 {
        assert(a =~= b);
    } else {
        let x = a.last();
        let y = b.last();
        assert(a.to_set().contains(x)) by {
            assert(a[a.len() - 1] == x);
        }
        assert(b.to_set().contains(y)) by {
            assert(b[b.len() - 1] == y);
        }
        assert(b.contains(x));
        assert(a.contains(y));
        let i = choose|i: int| 0 <= i < b.len() && b[i] == x;
        let j = choose|j: int| 0 <= j < a.len() && a[j] == y;
        if i < b.len() - 1 {
            assert(ids(b)[i] < ids(b)[b.len() - 1]);
        }
        if j < a.len() - 1 {
            assert(ids(a)[j] < ids(a)[a.len() - 1]);
        }
        lemma_id_injective(x, y);
        assert(x == y);
        let a0 = a.drop_last();
        let b0 = b.drop_last();
        assert(ids(a0) =~= ids(a).drop_last());
        assert(ids(b0) =~= ids(b).drop_last());
        assert forall|k: FileAttributeId| a0.to_set().contains(k) <==> b0.to_set().contains(k) by {
            if a0.contains(k) {
                let n = choose|n: int| 0 <= n < a0.len() && a0[n] == k;
                assert(a[n] == k);
                assert(a.to_set().contains(k));
                assert(b.contains(k));
                let m = choose|m: int| 0 <= m < b.len() && b[m] == k;
                assert(ids(a)[n] < ids(a)[a.len() - 1]);
                assert(b0[m] == k);
            }
            if b0.contains(k) {
                let n = choose|n: int| 0 <= n < b0.len() && b0[n] == k;
                assert(b[n] == k);
                assert(b.to_set().contains(k));
                assert(a.contains(k));
                let m = choose|m: int| 0 <= m < a.len() && a[m] == k;
                assert(ids(b)[n] < ids(b)[b.len() - 1]);
                assert(a0[m] == k);
            }
        }
        assert(a0.to_set() =~= b0.to_set());
        lemma_ascending_is_unique(a0, b0);
        assert(a =~= a0.push(x));
        assert(b =~= b0.push(y));
    }
}


/// What the handshake learns of the server from the attributes of its root:
/// the attributes it supports, and how many octets it reads and writes at
/// once. `None` where the server left one of them out.
pub open spec fn limits_of(attrs: FileAttributes) -> Option<(EnumSet<FileAttributeId>, u64, u64)> {
    match (
        attrs.payload_at::<EnumSet<FileAttributeId>>(FileAttributeId::SupportedAttrs),
        attrs.payload_at::<u64>(FileAttributeId::MaxRead),
        attrs.payload_at::<u64>(FileAttributeId::MaxWrite),
    ) {
        (Some(supported), Some(max_read), Some(max_write)) => Some(
            (supported, max_read, max_write),
        ),
        _ => None,
    }
}

/// What the handshake learns of the server from the attributes of its root.
pub fn session_limits(attrs: FileAttributes) -> (r: Option<(EnumSet<FileAttributeId>, u64, u64)>)
    ensures
        r == limits_of(attrs),
{
    let mut attrs = attrs;
    let max_read: u64 = match attrs.get_as::<u64>(FileAttributeId::MaxRead) {
        Some(v) => *v,
        None => {
            return None;
        },
    };
    let max_write: u64 = match attrs.get_as::<u64>(FileAttributeId::MaxWrite) {
        Some(v) => *v,
        None => {
            return None;
        },
    };
    match attrs.remove_as::<EnumSet<FileAttributeId>>(FileAttributeId::SupportedAttrs) {
        Some(supported) => Some((supported, max_read, max_write)),
        None => None,
    }
}

/// The request that reads `count` octets of the file `handle` from `offset`
/// on, under the anonymous state identifier.
pub fn read_request(handle: FileHandle, offset: u64, count: u32) -> (r: ReturnSecond<
    PutFhArgs,
    ReadArgs,
>)
    ensures
        models(r.arg_ops()) == read_ops(handle.0@, offset, count),
{
    let r = ReturnSecond(
        PutFhArgs { object: handle },
        ReadArgs { state_id: StateId::anonymous(), offset, count },
    );
    proof {
        reveal(<ArgOp as Xdr>::model);
        reveal(<PutFhArgs as Xdr>::model);
        reveal(<FileHandle as Xdr>::model);
        reveal(<ReadArgs as Xdr>::model);
        reveal(<StateId as Xdr>::model);
        assert(models(r.arg_ops()) =~= read_ops(handle.0@, offset, count));
    }
    r
}

/// The request that writes `data` to the file `handle` at `offset`, under the
/// anonymous state identifier, and asks that it reach stable storage.
pub fn write_request(handle: FileHandle, offset: u64, data: Vec<u8>) -> (r: ReturnSecond<
    PutFhArgs,
    WriteArgs,
>)
    ensures
        models(r.arg_ops()) == write_ops(handle.0@, offset, data@),
{
    let r = ReturnSecond(
        PutFhArgs { object: handle },
        WriteArgs { state_id: StateId::anonymous(), offset, stable: StableHow::FileSync, data },
    );
    proof {
        reveal(<ArgOp as Xdr>::model);
        reveal(<PutFhArgs as Xdr>::model);
        reveal(<FileHandle as Xdr>::model);
        reveal(<WriteArgs as Xdr>::model);
        reveal(<StateId as Xdr>::model);
        assert(models(r.arg_ops()) =~= write_ops(handle.0@, offset, data@));
    }
    r
}

/// The request that takes the entry `name` out of the directory `parent`.
pub fn remove_request(parent: FileHandle, name: &str) -> (r: ReturnSecond<PutFhArgs, RemoveArgs>)
    ensures
        models(r.arg_ops()) == remove_ops(parent.0@, name@),
{
    let r = ReturnSecond(PutFhArgs { object: parent }, RemoveArgs { target: name.to_owned() });
    proof {
        reveal(<ArgOp as Xdr>::model);
        reveal(<PutFhArgs as Xdr>::model);
        reveal(<FileHandle as Xdr>::model);
        reveal(<RemoveArgs as Xdr>::model);
        assert(models(r.arg_ops()) =~= remove_ops(parent.0@, name@));
    }
    r
}

/// The request that gives the entry `old_name` of the directory
/// `source_parent` the name `new_name` in the directory `target_parent`: the
/// source is put and saved, then the target is put.
pub fn rename_request(
    source_parent: FileHandle,
    target_parent: FileHandle,
    old_name: &str,
    new_name: &str,
) -> (r: ReturnSecond<(PutFhArgs, (SaveFh, PutFhArgs)), RenameArgs>)
    ensures
        models(r.arg_ops()) == rename_ops(source_parent.0@, target_parent.0@, old_name@, new_name@),
{
    let r = ReturnSecond(
        (PutFhArgs { object: source_parent }, (SaveFh, PutFhArgs { object: target_parent })),
        RenameArgs { old_name: old_name.to_owned(), new_name: new_name.to_owned() },
    );
    proof {
        reveal(<ArgOp as Xdr>::model);
        reveal(<PutFhArgs as Xdr>::model);
        reveal(<FileHandle as Xdr>::model);
        reveal(<RenameArgs as Xdr>::model);
        assert(models(r.arg_ops()) =~= rename_ops(
            source_parent.0@,
            target_parent.0@,
            old_name@,
            new_name@,
        ));
    }
    r
}

/// The request that sets the attributes `attrs` of the file `handle`, under
/// the anonymous state identifier.
pub fn set_attr_request(handle: FileHandle, attrs: FileAttributes) -> (r: ReturnSecond<
    PutFhArgs,
    SetAttrArgs,
>)
    ensures
        models(r.arg_ops()) == set_attr_ops(handle.0@, attrs.model()),
{
    let r = ReturnSecond(
        PutFhArgs { object: handle },
        SetAttrArgs { state_id: StateId::anonymous(), object_attributes: attrs },
    );
    proof {
        reveal(<ArgOp as Xdr>::model);
        reveal(<PutFhArgs as Xdr>::model);
        reveal(<FileHandle as Xdr>::model);
        reveal(<SetAttrArgs as Xdr>::model);
        reveal(<StateId as Xdr>::model);
        assert(models(r.arg_ops()) =~= set_attr_ops(handle.0@, attrs.model()));
    }
    r
}

/// The request that lists the directory `handle` from `cookie` on: up to 1000
/// octets of entries, with the attributes `attr_request` of each.
pub fn read_dir_request(
    handle: FileHandle,
    cookie: Cookie,
    attr_request: EnumSet<FileAttributeId>,
) -> (r: ReturnSecond<PutFhArgs, ReadDirArgs>)
    ensures
        models(r.arg_ops()) == read_dir_ops(handle.0@, cookie, attr_request@),
{
    let r = ReturnSecond(
        PutFhArgs { object: handle },
        ReadDirArgs {
            cookie,
            cookie_verifier: Verifier(0),
            directory_count: 1000,
            max_count: 1000,
            attr_request,
        },
    );
    proof {
        reveal(<ArgOp as Xdr>::model);
        reveal(<PutFhArgs as Xdr>::model);
        reveal(<FileHandle as Xdr>::model);
        reveal(<ReadDirArgs as Xdr>::model);
        assert(models(r.arg_ops()) =~= read_dir_ops(handle.0@, cookie, attr_request@));
    }
    r
}

/// The request that reads the attributes `attr_request` of the file `handle`.
pub fn get_attr_request(handle: FileHandle, attr_request: EnumSet<FileAttributeId>) -> (r:
    ReturnSecond<PutFhArgs, GetAttrArgs>)
    ensures
        models(r.arg_ops()) == get_attr_ops(handle.0@, attr_request@),
{
    let r = ReturnSecond(PutFhArgs { object: handle }, GetAttrArgs { attr_request });
    proof {
        reveal(<ArgOp as Xdr>::model);
        reveal(<PutFhArgs as Xdr>::model);
        reveal(<FileHandle as Xdr>::model);
        reveal(<GetAttrArgs as Xdr>::model);
        assert(models(r.arg_ops()) =~= get_attr_ops(handle.0@, attr_request@));
    }
    r
}

/// The request that creates the file `name` in the directory `parent` for
/// the owner made of `client_id` and `owner_id`, and asks for its handle.
///
/// The file is opened for writing, denying nothing, created exclusively
/// under the verifier 0; the sequence number of the open is 0.
pub fn create_file_request(
    parent: FileHandle,
    name: &str,
    client_id: ClientId,
    owner_id: Vec<u8>,
) -> (r: ReturnSecond<(PutFhArgs, OpenArgs), GetFh>)
    ensures
        models(r.arg_ops()) == create_ops(parent.0@, name@, client_id, owner_id@),
{
    let r = ReturnSecond(
        (
            PutFhArgs { object: parent },
            OpenArgs {
                sequence_id: SequenceId(0),
                share_access: ShareAccess { bits: ShareAccess::WRITE },
                share_deny: ShareDeny { bits: ShareDeny::NONE },
                owner: StateOwner { client_id, opaque: owner_id },
                open_how: OpenFlag::OpenCreate(
                    CreateHow::Exclusive { create_verifier: Verifier(0) },
                ),
                claim: OpenClaim::Null { file: name.to_owned() },
            },
        ),
        GetFh,
    );
    proof {
        reveal(<ArgOp as Xdr>::model);
        reveal(<PutFhArgs as Xdr>::model);
        reveal(<FileHandle as Xdr>::model);
        reveal(<OpenArgs as Xdr>::model);
        reveal(<StateOwner as Xdr>::model);
        reveal(<OpenFlag as Xdr>::model);
        reveal(<CreateHow as Xdr>::model);
        reveal(<OpenClaim as Xdr>::model);
        assert(models(r.arg_ops()) =~= create_ops(parent.0@, name@, client_id, owner_id@));
    }
    r
}

/// The request that finds the file that `path` names: from the root, one
/// look-up for each component of the path, then the handle of what was found.
pub fn look_up_request(path: &str) -> (r: ReturnSecond<(PutRootFh, Vec<LookUpArgs>), GetFh>)
    ensures
        models(r.arg_ops()) == look_up_ops(path@),
        r.0.1@.len() == components(path@).len(),
{
    let names = path_components(path);
    let mut list: Vec<LookUpArgs> = Vec::new();
    let mut i: usize = 0;
    while i < names.len()
        invariant
            i <= names@.len(),
            list@.len() == i,
            forall|j: int| 0 <= j < i ==> (#[trigger] list@[j]).object_name@ == names@[j]@,
        decreases names@.len() - i,
    {
        list.push(LookUpArgs { object_name: names[i].clone() });
        i += 1;
    }
    let r = ReturnSecond((PutRootFh, list), GetFh);
    proof {
        reveal(<ArgOp as Xdr>::model);
        reveal(<LookUpArgs as Xdr>::model);
        assert forall|j: int| 0 <= j < list@.len() implies (#[trigger] list@[j]).object_name@
            == components(path@)[j] by {
            assert(texts(names@)[j] == names@[j]@);
        }
        lemma_flat_look_ups(list@);
        assert(models(crate::compound::flat_ops(list@)) =~= look_ups(components(path@)));
        lemma_models_concat(seq![ArgOp::PutRootFh], crate::compound::flat_ops(list@));
        lemma_models_concat(
            seq![ArgOp::PutRootFh] + crate::compound::flat_ops(list@),
            seq![ArgOp::GetFh],
        );
        assert(models(seq![ArgOp::PutRootFh]) =~= seq![ArgOpModel::PutRootFh]);
        assert(models(seq![ArgOp::GetFh]) =~= seq![ArgOpModel::GetFh]);
    }
    r
}

/// The operations of a sequence of look-ups are the look-ups, one for one.
pub proof fn lemma_flat_look_ups(list: Seq<LookUpArgs>)
    ensures
        crate::compound::flat_ops(list) == Seq::new(list.len(), |i: int| ArgOp::LookUp(list[i])),
    decreases list.len(),
{
    if list.len() == 0 {
        assert(crate::compound::flat_ops(list) =~= Seq::new(
            list.len(),
            |i: int| ArgOp::LookUp(list[i]),
        ));
    } else {
        lemma_flat_look_ups(list.drop_last());
        assert(crate::compound::flat_ops(list) =~= Seq::new(
            list.len(),
            |i: int| ArgOp::LookUp(list[i]),
        ));
    }
}

/// What follows a read of a file from `offset` on that gave `len` octets:
/// the offset of the next read, or `None` when the file has ended.
///
/// A read that gives nothing and does not end the file would be repeated
/// for ever: it is an error, as is an offset beyond 64 bits.
pub open spec fn after_read(offset: u64, len: nat, eof: bool) -> Result<Option<u64>, Error> {
    if eof {
        Ok(None)
    } else if len == 0 {
        Err(Error::Stalled)
    } else if offset + len > u64::MAX {
        Err(Error::Unanswered)
    } else {
        Ok(Some((offset + len) as u64))
    }
}

/// What follows a read of a file from `offset` on that gave `len` octets.
pub fn read_step(offset: u64, len: usize, eof: bool) -> (r: Result<Option<u64>, Error>)
    ensures
        r == after_read(offset, len as nat, eof),
{
    if eof {
        Ok(None)
    } else if len == 0 {
        Err(Error::Stalled)
    } else if len as u64 > u64::MAX - offset {
        Err(Error::Unanswered)
    } else {
        Ok(Some(offset + len as u64))
    }
}

/// Where the chunk of a source of `len` octets that begins at `pos` ends,
/// when at most `max_write` octets are written at once.
pub open spec fn chunk_end(len: nat, pos: nat, max_write: u64) -> nat {
    if len - pos <= max_write {
        len
    } else {
        pos + max_write as nat
    }
}

/// Where the chunk of a source of `len` octets that begins at `pos` ends.
pub fn write_chunk(len: usize, pos: usize, max_write: u64) -> (end: usize)
    requires
        pos <= len,
    ensures
        end == chunk_end(len as nat, pos as nat, max_write),
        pos <= end <= len,
{
    if (len - pos) as u64 <= max_write {
        len
    } else {
        pos + max_write as usize
    }
}

/// What follows a write of the octets from `pos` to `end` of a source of
/// which the server took `count`: the place of the next write.
///
/// A server that takes nothing would be asked for ever, and one that takes
/// more than it was sent did not answer the request: both are errors.
pub open spec fn after_write(pos: nat, end: nat, count: u32) -> Result<nat, Error> {
    if count == 0 {
        Err(Error::Stalled)
    } else if count > end - pos {
        Err(Error::Unanswered)
    } else {
        Ok(pos + count as nat)
    }
}

/// What follows a write of the octets from `pos` to `end` of a source.
pub fn write_step(pos: usize, end: usize, count: u32) -> (r: Result<usize, Error>)
    requires
        pos <= end,
    ensures
        match r {
            Ok(next) => after_write(pos as nat, end as nat, count) == Ok::<nat, Error>(next as nat),
            Err(e) => after_write(pos as nat, end as nat, count) == Err::<nat, Error>(e),
        },
{
    if count == 0 {
        Err(Error::Stalled)
    } else if count as u64 > (end - pos) as u64 {
        Err(Error::Unanswered)
    } else {
        Ok(pos + count as usize)
    }
}

/// What follows a write, at the offset `offset` of a file, of the octets
/// from `pos` to `end` of a chunk of which the server took `count`: the
/// offset in the file and the place in the chunk of the next write.
///
/// Both move on by what the server took. The errors are those of
/// [`after_write`], and an offset beyond 64 bits is one more.
pub open spec fn after_write_at(offset: u64, pos: nat, end: nat, count: u32) -> Result<
    (u64, nat),
    Error,
> {
    match after_write(pos, end, count) {
        Err(e) => Err(e),
        Ok(next) => if offset + count > u64::MAX {
            Err(Error::Unanswered)
        } else {
            Ok(((offset + count) as u64, next))
        },
    }
}

/// What follows a write, at the offset `offset` of a file, of the octets
/// from `pos` to `end` of a chunk.
pub fn write_step_at(offset: u64, pos: usize, end: usize, count: u32) -> (r: Result<
    (u64, usize),
    Error,
>)
    requires
        pos <= end,
    ensures
        match r {
            Ok((next_offset, next)) => after_write_at(offset, pos as nat, end as nat, count)
                == Ok::<(u64, nat), Error>((next_offset, next as nat)),
            Err(e) => after_write_at(offset, pos as nat, end as nat, count) == Err::<
                (u64, nat),
                Error,
            >(e),
        },
{
    let next = match write_step(pos, end, count) {
        Ok(next) => next,
        Err(e) => {
            return Err(e);
        },
    };
    if count as u64 > u64::MAX - offset {
        Err(Error::Unanswered)
    } else {
        Ok((offset + count as u64, next))
    }
}

/// What follows a part of a directory listing, after which `entries` are
/// known: the cookie to go on from, or `None` when the listing has ended.
///
/// A part without entries that does not end the listing would be asked for
/// again for ever: it is an error.
pub open spec fn after_listing(entries: Seq<DirectoryEntry>, added: nat, eof: bool) -> Result<
    Option<Cookie>,
    Error,
> {
    if eof {
        Ok(None)
    } else if added == 0 || entries.len() == 0 {
        Err(Error::Stalled)
    } else {
        Ok(Some(entries.last().cookie))
    }
}

/// What follows a part of a directory listing.
pub fn read_dir_step(entries: &Vec<DirectoryEntry>, added: usize, eof: bool) -> (r: Result<
    Option<Cookie>,
    Error,
>)
    ensures
        r == after_listing(entries@, added as nat, eof),
{
    if eof {
        Ok(None)
    } else if added == 0 || entries.len() == 0 {
        Err(Error::Stalled)
    } else {
        Ok(Some(entries[entries.len() - 1].cookie))
    }
}

/// Whether the `i`-th COMPOUND of a [`chain`] is what lies between the
/// states `i` and `i + 1` of the client and of the link.
pub open spec fn chain_step<X: Transport, Q: CompoundRequest>(
    clients: Seq<Client>,
    links: Seq<Link<X>>,
    g: Q::Geometry,
    ops: Seq<Seq<ArgOpModel>>,
    results: Seq<Result<Q::Response, Error>>,
    i: int,
) -> bool {
    clients[i + 1].did::<X, Q>(&clients[i], g, ops[i], &links[i], &links[i + 1], results[i])
}

/// Whether `clients` and `links` are the states of a client and of its link
/// around COMPOUND after COMPOUND of one session: the `i`-th
/// of them carries the operations `ops[i]` after the sequence operation,
/// left `g` to remember and has the result `results[i]`, and each begins in
/// the states in which the one before it ended.
pub open spec fn chain<X: Transport, Q: CompoundRequest>(
    clients: Seq<Client>,
    links: Seq<Link<X>>,
    g: Q::Geometry,
    ops: Seq<Seq<ArgOpModel>>,
    results: Seq<Result<Q::Response, Error>>,
) -> bool {
    &&& clients.len() == results.len() + 1
    &&& links.len() == results.len() + 1
    &&& ops.len() == results.len()
    &&& forall|i: int|
        0 <= i < results.len() ==> #[trigger] chain_step::<X, Q>(clients, links, g, ops, results, i)
}

/// Whether the states `clients` of a client and `links` of its link begin
/// with `before` and `link_before` and end with `after` and `link_after`.
pub open spec fn spans<X: Transport>(
    clients: Seq<Client>,
    links: Seq<Link<X>>,
    before: &Client,
    after: &Client,
    link_before: &Link<X>,
    link_after: &Link<X>,
) -> bool {
    &&& clients.len() >= 1
    &&& links.len() >= 1
    &&& clients[0] == *before
    &&& clients.last() == *after
    &&& links[0] == *link_before
    &&& links.last() == *link_after
}

/// The operations of reads of `count` octets of the file `handle`, one from
/// each of `offsets` on.
pub open spec fn read_ops_at(handle: Seq<u8>, count: u32, offsets: Seq<u64>) -> Seq<
    Seq<ArgOpModel>,
> {
    Seq::new(offsets.len(), |i: int| read_ops(handle, offsets[i], count))
}

/// Whether the `i`-th of the reads with the results `results` is followed
/// by another: it gave octets, which the sink gained, and the next read
/// begins where it ended.
pub open spec fn read_goes_on(
    offsets: Seq<u64>,
    sinks: Seq<Seq<u8>>,
    results: Seq<Result<ReadRes, Error>>,
    i: int,
) -> bool {
    &&& results[i] matches Ok(v)
    &&& after_read(offsets[i], v.data@.len(), v.eof) == Ok::<Option<u64>, Error>(
        Some(offsets[i + 1]),
    )
    &&& sinks[i + 1] == sinks[i] + v.data@
}

/// Whether the read from `offset` on with the result `last` ends the reading
/// of a file with the result `r`, and `after` is what becomes of the sink
/// `sink`. A read that failed fails the whole with its error; so does a read
/// after which [`after_read`] has no offset to go on from; in both cases the
/// sink gains nothing. The read that ends the file gives its octets to the
/// sink, and the whole succeeds.
pub open spec fn read_ends(
    offset: u64,
    sink: Seq<u8>,
    last: Result<ReadRes, Error>,
    after: Seq<u8>,
    r: Result<(), Error>,
) -> bool {
    match last {
        Err(e) => r == Err::<(), Error>(e) && after == sink,
        Ok(v) => match after_read(offset, v.data@.len(), v.eof) {
            Ok(None) => r == Ok::<(), Error>(()) && after == sink + v.data@,
            Ok(Some(_)) => false,
            Err(e) => r == Err::<(), Error>(e) && after == sink,
        },
    }
}

/// Whether `r` is what reads with the results `results` give for the
/// reading of a whole file, and `after` is what becomes of the sink
/// `before`. The `i`-th read begins at `offsets[i]`, the first at 0, when
/// the sink is `sinks[i]`; every read but the last is followed by another,
/// as [`read_goes_on`] says, and the last ends the reading, as
/// [`read_ends`] says.
pub open spec fn reads_to_end(
    offsets: Seq<u64>,
    sinks: Seq<Seq<u8>>,
    results: Seq<Result<ReadRes, Error>>,
    before: Seq<u8>,
    after: Seq<u8>,
    r: Result<(), Error>,
) -> bool {
    &&& results.len() >= 1
    &&& offsets.len() == results.len()
    &&& sinks.len() == results.len()
    &&& offsets[0] == 0
    &&& sinks[0] == before
    &&& forall|i: int|
        0 <= i < results.len() - 1 ==> #[trigger] read_goes_on(offsets, sinks, results, i)
    &&& read_ends(offsets.last(), sinks.last(), results.last(), after, r)
}

/// The operations of requests for a part of the listing of the directory
/// `handle` with the attributes `attrs` of each entry, one from each of
/// `cookies` on.
pub open spec fn read_dir_ops_at(
    handle: Seq<u8>,
    attrs: Seq<FileAttributeId>,
    cookies: Seq<Cookie>,
) -> Seq<Seq<ArgOpModel>> {
    Seq::new(cookies.len(), |i: int| read_dir_ops(handle, cookies[i], attrs))
}

/// Whether the `i`-th of the parts of a listing with the results `results`
/// is followed by another: the entries that are known gained its entries,
/// and the next part is asked for from the cookie that [`after_listing`]
/// gives.
pub open spec fn list_goes_on(
    cookies: Seq<Cookie>,
    lists: Seq<Seq<DirectoryEntry>>,
    results: Seq<Result<ReadDirRes, Error>>,
    i: int,
) -> bool {
    &&& results[i] matches Ok(v)
    &&& lists[i + 1] == lists[i] + v.reply.entries@
    &&& after_listing(lists[i + 1], v.reply.entries@.len(), v.reply.eof) == Ok::<
        Option<Cookie>,
        Error,
    >(Some(cookies[i + 1]))
}

/// Whether the part with the result `last` ends a listing of which the
/// entries `known` came before it, with the result `r`. A part that failed
/// fails the whole with its error; so does a part after which
/// [`after_listing`] has no cookie to go on from. The part that ends the
/// listing gives the whole: the entries that were known and then its own.
pub open spec fn list_ends(
    known: Seq<DirectoryEntry>,
    last: Result<ReadDirRes, Error>,
    r: Result<Vec<DirectoryEntry>, Error>,
) -> bool {
    match last {
        Err(e) => r == Err::<Vec<DirectoryEntry>, Error>(e),
        Ok(v) => match after_listing(
            known + v.reply.entries@,
            v.reply.entries@.len(),
            v.reply.eof,
        ) {
            Ok(None) => r matches Ok(all) && all@ == known + v.reply.entries@,
            Ok(Some(_)) => false,
            Err(e) => r == Err::<Vec<DirectoryEntry>, Error>(e),
        },
    }
}

/// Whether `r` is what the parts with the results `results` give for the
/// listing of a whole directory. The `i`-th part is asked for from
/// `cookies[i]`, the first from the cookie 0, when the entries `lists[i]`
/// are known, at first none; every part but the last is followed by
/// another, as [`list_goes_on`] says, and the last ends the listing, as
/// [`list_ends`] says.
pub open spec fn lists_to_end(
    cookies: Seq<Cookie>,
    lists: Seq<Seq<DirectoryEntry>>,
    results: Seq<Result<ReadDirRes, Error>>,
    r: Result<Vec<DirectoryEntry>, Error>,
) -> bool {
    &&& results.len() >= 1
    &&& cookies.len() == results.len()
    &&& lists.len() == results.len()
    &&& cookies[0] == Cookie(0)
    &&& lists[0] == Seq::<DirectoryEntry>::empty()
    &&& forall|i: int|
        0 <= i < results.len() - 1 ==> #[trigger] list_goes_on(cookies, lists, results, i)
    &&& list_ends(lists.last(), results.last(), r)
}

/// The operations of writes to the file `handle`, the `i`-th of the octets
/// of `source` from `positions[i]` to `ends[i]`, at the offset that they
/// have in `source`.
pub open spec fn write_ops_at(
    handle: Seq<u8>,
    source: Seq<u8>,
    positions: Seq<usize>,
    ends: Seq<usize>,
) -> Seq<Seq<ArgOpModel>> {
    Seq::new(
        positions.len(),
        |i: int|
            write_ops(
                handle,
                positions[i] as u64,
                source.subrange(positions[i] as int, ends[i] as int),
            ),
    )
}

/// Where the chunk ends of which a write from `pos` on sends what is left,
/// when the chunk before it ended at `end`: there, as long as the server has
/// not taken all of that chunk; and else where the next chunk ends.
pub open spec fn chunk_from(len: nat, pos: nat, end: nat, max_write: u64) -> nat {
    if pos == end {
        chunk_end(len, pos, max_write)
    } else {
        end
    }
}

/// Whether after the write of the octets from `pos` to `end` with the
/// result `result` the next octet to write is the one at `next`: the write
/// succeeded, and [`after_write`] gives that place for what the server took.
pub open spec fn write_leads_on(
    pos: usize,
    end: usize,
    result: Result<WriteRes, Error>,
    next: usize,
) -> bool {
    &&& result matches Ok(v)
    &&& pos < end
    &&& after_write(pos as nat, end as nat, v.count) == Ok::<nat, Error>(next as nat)
}

/// Whether the `i`-th of the writes with the results `results` is followed
/// by another: it leads on to the place of the next write, which is short of
/// the end of the source, and the next write sends what is left of the
/// chunk, or the next chunk.
pub open spec fn write_goes_on(
    len: nat,
    max_write: u64,
    positions: Seq<usize>,
    ends: Seq<usize>,
    results: Seq<Result<WriteRes, Error>>,
    i: int,
) -> bool {
    &&& write_leads_on(positions[i], ends[i], results[i], positions[i + 1])
    &&& positions[i + 1] < len
    &&& ends[i + 1] == chunk_from(len, positions[i + 1] as nat, ends[i] as nat, max_write)
    &&& ends[i + 1] <= len
}

/// Whether the write of the octets from `pos` to `end` with the result
/// `last` ends the writing of a source of `len` octets with the result `r`.
/// A write that failed fails the whole with its error; so does a write after
/// which [`after_write`] has no place to go on from. The write after which
/// the server has taken every octet of the source ends the writing with
/// success.
pub open spec fn write_ends(
    len: nat,
    pos: usize,
    end: usize,
    last: Result<WriteRes, Error>,
    r: Result<(), Error>,
) -> bool {
    &&& pos < end <= len
    &&& match last {
        Err(e) => r == Err::<(), Error>(e),
        Ok(v) => match after_write(pos as nat, end as nat, v.count) {
            Ok(next) => next == len && r == Ok::<(), Error>(()),
            Err(e) => r == Err::<(), Error>(e),
        },
    }
}

/// Whether `r` is what writes with the results `results` give for the
/// writing of a whole source of `len` octets to a server that writes
/// `max_write` octets at once.
///
/// Without a write, the source is empty and the writing succeeds, or the
/// server writes nothing at once and the writing has stalled. Otherwise
/// the `i`-th write sends the octets from `positions[i]` to `ends[i]`, the
/// first from 0 to the end of the first chunk; every write but the last is
/// followed by another, as [`write_goes_on`] says, and the last ends the
/// writing, as [`write_ends`] says.
pub open spec fn writes_to_end(
    len: nat,
    max_write: u64,
    positions: Seq<usize>,
    ends: Seq<usize>,
    results: Seq<Result<WriteRes, Error>>,
    r: Result<(), Error>,
) -> bool {
    &&& positions.len() == results.len()
    &&& ends.len() == results.len()
    &&& if results.len() == 0 {
        if len == 0 {
            r == Ok::<(), Error>(())
        } else {
            max_write == 0 && r == Err::<(), Error>(Error::Stalled)
        }
    } else {
        &&& positions[0] == 0
        &&& ends[0] == chunk_end(len, 0, max_write)
        &&& forall|i: int|
            0 <= i < results.len() - 1 ==> #[trigger] write_goes_on(
                len,
                max_write,
                positions,
                ends,
                results,
                i,
            )
        &&& write_ends(len, positions.last(), ends.last(), results.last(), r)
    }
}

/// The handle in the result of a request that ends by asking for the handle
/// of the current file.
pub open spec fn handle_of(r: Result<GetFhRes, Error>) -> Result<FileHandle, Error> {
    match r {
        Ok(v) => Ok(v.object),
        Err(e) => Err(e),
    }
}

/// The result of a request of which only success or failure is of interest.
pub open spec fn done<T>(r: Result<T, Error>) -> Result<(), Error> {
    match r {
        Ok(_) => Ok(()),
        Err(e) => Err(e),
    }
}

/// A client with a session.
pub struct Client {
    raw_client: ClientWithoutSession,
    session: CreateSessionRes,
    sequence_id: SequenceId,
    client_id: ClientId,
    client_owner: ClientOwner,
    max_read: u64,
    max_write: u64,
    supported_attrs: EnumSet<FileAttributeId>,
}

impl Client {
    /// The sequence number that the next COMPOUND of the session carries.
    pub closed spec fn sequence_id(&self) -> u32 {
        self.sequence_id.0
    }

    /// The transaction identifier of the next call.
    pub closed spec fn next_xid(&self) -> u32 {
        self.raw_client.next_xid()
    }

    /// The number of the program that calls are made to.
    pub closed spec fn program(&self) -> u32 {
        self.raw_client.program()
    }

    /// The identifier of the session.
    pub closed spec fn session_id(&self) -> SessionId {
        self.session.session_id
    }

    /// The identifier that the server gave the client.
    pub closed spec fn client_id(&self) -> ClientId {
        self.client_id
    }

    /// The octets by which the client made itself known.
    pub closed spec fn owner_id(&self) -> Seq<u8> {
        self.client_owner.owner_id@
    }

    /// How many octets the server reads at once.
    pub closed spec fn max_read(&self) -> u64 {
        self.max_read
    }

    /// How many octets the server writes at once.
    pub closed spec fn max_write(&self) -> u64 {
        self.max_write
    }

    /// The attributes that the server supports, in ascending order.
    pub closed spec fn supported_attrs(&self) -> Seq<FileAttributeId> {
        self.supported_attrs@
    }

    /// Whether two states of a client differ at most in the sequence number
    /// and in the transaction identifier.
    pub closed spec fn same_session(&self, other: &Client) -> bool {
        &&& self.raw_client.program() == other.raw_client.program()
        &&& self.session == other.session
        &&& self.client_id == other.client_id
        &&& self.client_owner == other.client_owner
        &&& self.max_read == other.max_read
        &&& self.max_write == other.max_write
        &&& self.supported_attrs@ == other.supported_attrs@
    }

    /// What stays as it is between two states of one session.
    pub proof fn lemma_same_session(&self, other: &Client)
        requires
            self.same_session(other),
        ensures
            self.program() == other.program(),
            self.session_id() == other.session_id(),
            self.client_id() == other.client_id(),
            self.owner_id() == other.owner_id(),
            self.max_read() == other.max_read(),
            self.max_write() == other.max_write(),
            self.supported_attrs() == other.supported_attrs(),
    {
    }

    /// The operation that leads the next COMPOUND of the session: slot 0 of
    /// the session with the next sequence number, not to be cached.
    pub open spec fn sequence_op(&self) -> ArgOpModel {
        ArgOpModel::Sequence(
            SequenceArgsModel {
                session_id: self.session_id().model(),
                sequence_id: SequenceId(self.sequence_id()),
                slot_id: SlotId(0),
                highest_slot_id: SlotId(0),
                cache_this: false,
            },
        )
    }

    /// The record of the next COMPOUND of the session, when it carries the
    /// operations `ops`: after the sequence operation.
    pub open spec fn record_of(&self, ops: Seq<ArgOpModel>) -> Seq<u8> {
        compound_record(self.next_xid(), self.program(), seq![self.sequence_op()] + ops)
    }

    /// Whether this is the state of a client after one COMPOUND of its
    /// session was issued in the state `before`: the same session, and the
    /// sequence number greater by exactly one. (After the last sequence number
    /// nothing is issued and nothing changes.)
    pub open spec fn after_one_compound(&self, before: &Client) -> bool {
        &&& self.same_session(before)
        &&& self.sequence_id() == if before.sequence_id() < u32::MAX {
            before.sequence_id() + 1
        } else {
            before.sequence_id() as int
        }
    }

    /// Whether a method that sends the operations `ops` as one COMPOUND of
    /// the session did so between the states `before` and `after` of the
    /// transport: on success the record of the COMPOUND was written, whole
    /// and alone, and the transaction identifier moved on.
    pub open spec fn sent<X: Transport, T>(
        &self,
        before: &Client,
        r: Result<T, Error>,
        ops: Seq<ArgOpModel>,
        transport_before: &Link<X>,
        transport_after: &Link<X>,
    ) -> bool {
        &&& self.after_one_compound(before)
        &&& r is Ok ==> wrote(transport_before, transport_after, before.record_of(ops))
        &&& r is Ok ==> self.next_xid() == before.next_xid() + 1
        &&& before.sequence_id() == u32::MAX ==> r == Err::<T, Error>(Error::SequenceExhausted)
            && wrote(transport_before, transport_after, Seq::empty())
    }

    /// Whether this is the state of a client after it issued, in the state
    /// `before`, one COMPOUND of its session that carries the operations
    /// `ops` after the sequence operation, with the result `r`.
    ///
    /// When every sequence number has been used, nothing is sent, nothing
    /// changes, and the result says so. Otherwise the sequence number moves
    /// on by exactly one, and what passes through the link and what comes
    /// of it is one [`exchange`].
    pub open spec fn did<X: Transport, Q: CompoundRequest>(
        &self,
        before: &Client,
        g: Q::Geometry,
        ops: Seq<ArgOpModel>,
        transport_before: &Link<X>,
        transport_after: &Link<X>,
        r: Result<Q::Response, Error>,
    ) -> bool {
        &&& self.same_session(before)
        &&& if before.sequence_id() == u32::MAX {
            &&& r == Err::<Q::Response, Error>(Error::SequenceExhausted)
            &&& quiet(transport_before, transport_after)
            &&& self.sequence_id() == before.sequence_id()
            &&& self.next_xid() == before.next_xid()
        } else {
            &&& self.sequence_id() == before.sequence_id() + 1
            &&& exchange::<X, Q>(
                g,
                seq![before.sequence_op()] + ops,
                before.next_xid(),
                before.program(),
                self.next_xid(),
                transport_before,
                transport_after,
                r,
            )
        }
    }

    /// How many octets the server reads at once.
    pub fn max_read_size(&self) -> (r: u64)
        ensures
            r == self.max_read(),
    {
        self.max_read
    }

    /// How many octets the server writes at once.
    pub fn max_write_size(&self) -> (r: u64)
        ensures
            r == self.max_write(),
    {
        self.max_write
    }

    /// The attributes that the server supports.
    pub fn supported(&self) -> (r: EnumSet<FileAttributeId>)
        ensures
            r@ == self.supported_attrs(),
    {
        self.supported_attrs.clone()
    }

    /// The sequence number that the next COMPOUND of the session carries.
    pub fn next_sequence_id(&self) -> (r: u32)
        ensures
            r == self.sequence_id(),
    {
        self.sequence_id.0
    }

    /// The operation that leads the next COMPOUND of the session.
    pub fn sequence_args(&self) -> (r: SequenceArgs)
        ensures
            models(r.arg_ops()) == seq![self.sequence_op()],
    {
        let r = SequenceArgs {
            session_id: self.session.session_id,
            sequence_id: self.sequence_id,
            slot_id: SlotId(0),
            highest_slot_id: SlotId(0),
            cache_this: false,
        };
        proof {
            reveal(<ArgOp as Xdr>::model);
            reveal(<SequenceArgs as Xdr>::model);
            assert(models(r.arg_ops()) =~= seq![self.sequence_op()]);
        }
        r
    }

    /// Sends `args` as one COMPOUND of the session: after the sequence
    /// operation, which takes the next sequence number.
    ///
    /// The sequence number moves on by exactly one, whatever becomes of the
    /// request; when every sequence number has been used, nothing is sent.
    pub fn do_compound<X: Transport, Args: CompoundRequest>(
        &mut self,
        transport: &mut Link<X>,
        args: Args,
    ) -> (r: Result<Args::Response, Error>)
        ensures
            final(self).sent(
                old(self),
                r,
                models(args.arg_ops()),
                old(transport),
                final(transport),
            ),
            old(self).sequence_id() < u32::MAX && !(r matches Err(Error::SunRpc(_))) ==> replied::<
                X,
                SequenceArgs,
                Args,
            >((), args, old(transport), final(transport), r),
            exists|g: Args::Geometry|
                {
                    &&& old(self).sequence_id() < u32::MAX ==> args.is_geometry(g)
                    &&& #[trigger] final(self).did::<X, ReturnSecond<SequenceArgs, Args>>(
                        old(self),
                        ((), g),
                        models(args.arg_ops()),
                        old(transport),
                        final(transport),
                        r,
                    )
                },
    {
        if self.sequence_id.0 == u32::MAX {
            assert(transport.written() + Seq::<u8>::empty() =~= transport.written());
            assert(self.did::<X, ReturnSecond<SequenceArgs, Args>>(
                old(self),
                ((), arbitrary::<Args::Geometry>()),
                models(args.arg_ops()),
                old(transport),
                transport,
                Err::<Args::Response, Error>(Error::SequenceExhausted),
            ));
            return Err(Error::SequenceExhausted);
        }
        let sequence = self.sequence_args();
        proof {
            lemma_models_concat(sequence.arg_ops(), args.arg_ops());
        }
        self.sequence_id.incr();
        let ghost request = ReturnSecond(sequence, args);
        let r = self.raw_client.do_compound(transport, ReturnSecond(sequence, args));
        proof {
            let whole = choose|g: ((), Args::Geometry)| #[trigger]
                request.is_geometry(g) && exchange::<X, ReturnSecond<SequenceArgs, Args>>(
                    g,
                    models(request.arg_ops()),
                    old(self).next_xid(),
                    old(self).program(),
                    self.next_xid(),
                    old(transport),
                    transport,
                    r,
                );
            assert(whole == ((), whole.1));
            assert(self.did::<X, ReturnSecond<SequenceArgs, Args>>(
                old(self),
                ((), whole.1),
                models(args.arg_ops()),
                old(transport),
                transport,
                r,
            ));
            if !(r matches Err(Error::SunRpc(_))) {
                let (reply, g) = choose|reply: CompoundRes, g: ((), Args::Geometry)|
                    {
                        &&& request.is_geometry(g)
                        &&& #[trigger] outcome::<ReturnSecond<SequenceArgs, Args>>(reply, g, r)
                        &&& reply_of_record::<CompoundRes>(old(transport).read_until(transport))
                            == Ok::<CompoundResModel, crate::rpc_client::Error>(reply.model())
                    };
                assert(g == ((), g.1));
                assert(outcome::<ReturnSecond<SequenceArgs, Args>>(reply, ((), g.1), r));
            }
        }
        r
    }

    /// The attributes that can be read of a file: those that the server
    /// supports, without the two that only set a time.
    pub open spec fn readable(&self) -> Seq<FileAttributeId> {
        without(
            without(self.supported_attrs(), FileAttributeId::TimeAccessSet),
            FileAttributeId::TimeModifySet,
        )
    }

    /// The attributes that can be read of a file.
    pub fn readable_attrs(&self) -> (r: EnumSet<FileAttributeId>)
        ensures
            r@ == self.readable(),
    {
        let mut attrs = self.supported_attrs.clone();
        let ghost all = attrs@;
        let _ = attrs.remove(FileAttributeId::TimeAccessSet);
        let ghost some = attrs@;
        let _ = attrs.remove(FileAttributeId::TimeModifySet);
        proof {
            lemma_without(all, FileAttributeId::TimeAccessSet, some);
            lemma_without(some, FileAttributeId::TimeModifySet, attrs@);
        }
        attrs
    }

    /// Reads the attributes of the file `handle`: those that the server
    /// supports, without the two that only set a time.
    pub fn get_attr<X: Transport>(
        &mut self,
        transport: &mut Link<X>,
        handle: FileHandle,
    ) -> (r: Result<GetAttrRes, Error>)
        ensures
            final(self).sent(
                old(self),
                r,
                get_attr_ops(handle.0@, old(self).readable()),
                old(transport),
                final(transport),
            ),
            r matches Ok(v) ==> answer_ends(
                old(transport),
                final(transport),
                3,
                ResOpModel::GetAttr(StatusResult::Success(v.model())),
            ),
            final(self).did::<
                X,
                ReturnSecond<SequenceArgs, ReturnSecond<PutFhArgs, GetAttrArgs>>,
            >(
                old(self),
                ((), ((), ())),
                get_attr_ops(handle.0@, old(self).readable()),
                old(transport),
                final(transport),
                r,
            ),
    {
        let request = get_attr_request(handle, self.readable_attrs());
        let ghost sent = request;
        let r = self.do_compound(transport, request);
        proof {
            let whole = choose|g: ((), ())| #[trigger]
                self.did::<
                    X,
                    ReturnSecond<SequenceArgs, ReturnSecond<PutFhArgs, GetAttrArgs>>,
                >(
                    old(self),
                    ((), g),
                    get_attr_ops(handle.0@, old(self).readable()),
                    old(transport),
                    transport,
                    r,
                );
            assert(whole == ((), ()));
            if r is Ok {
                let v = r->Ok_0;
                let (reply, g) = choose|reply: CompoundRes, g: ((), ())|
                    {
                        &&& sent.is_geometry(g)
                        &&& #[trigger] outcome::<
                            ReturnSecond<SequenceArgs, ReturnSecond<PutFhArgs, GetAttrArgs>>,
                        >(reply, ((), g), r)
                        &&& reply_read(old(transport), transport) == Ok::<
                            CompoundResModel,
                            crate::rpc_client::Error,
                        >(reply.model())
                    };
                reveal(<CompoundRes as Xdr>::model);
                reveal(<ResOp as Xdr>::model);
                let res = reply.res_array@;
                assert(res.len() == 3);
                assert(res.skip(1).skip(1)[0] == res[2]);
                assert(res[2] == ResOp::GetAttr(StatusResult::Success(v)));
                assert(reply.model().res_array[2] == res[2].model());
            }
        }
        r
    }

    /// Finds the file that `path` names and gives its handle.
    pub fn look_up<X: Transport>(&mut self, transport: &mut Link<X>, path: &str) -> (r: Result<
        FileHandle,
        Error,
    >)
        ensures
            final(self).sent(old(self), r, look_up_ops(path@), old(transport), final(transport)),
            r matches Ok(handle) ==> answer_ends(
                old(transport),
                final(transport),
                (components(path@).len() + 3) as int,
                ResOpModel::GetFh(
                    StatusResult::Success(GetFhResModel { object: FileHandleModel(handle.0@) }),
                ),
            ),
            exists|g: Vec<()>, inner: Result<GetFhRes, Error>|
                {
                    &&& old(self).sequence_id() < u32::MAX ==> g@.len() == components(path@).len()
                    &&& #[trigger] final(self).did::<
                        X,
                        ReturnSecond<
                            SequenceArgs,
                            ReturnSecond<(PutRootFh, Vec<LookUpArgs>), GetFh>,
                        >,
                    >(
                        old(self),
                        ((), (((), g), ())),
                        look_up_ops(path@),
                        old(transport),
                        final(transport),
                        inner,
                    )
                    &&& r == handle_of(inner)
                },
    {
        let request = look_up_request(path);
        let ghost sent = request;
        let r = self.do_compound(transport, request);
        proof {
            let whole = choose|g: (((), Vec<()>), ())|
                {
                    &&& old(self).sequence_id() < u32::MAX ==> sent.is_geometry(g)
                    &&& #[trigger] self.did::<
                        X,
                        ReturnSecond<
                            SequenceArgs,
                            ReturnSecond<(PutRootFh, Vec<LookUpArgs>), GetFh>,
                        >,
                    >(
                        old(self),
                        ((), g),
                        look_up_ops(path@),
                        old(transport),
                        transport,
                        r,
                    )
                };
            assert(whole == (((), whole.0.1), ()));
            assert(self.did::<
                X,
                ReturnSecond<SequenceArgs, ReturnSecond<(PutRootFh, Vec<LookUpArgs>), GetFh>>,
            >(
                old(self),
                ((), (((), whole.0.1), ())),
                look_up_ops(path@),
                old(transport),
                transport,
                r,
            ));
            if r is Ok {
                let v = r->Ok_0;
                let (reply, g) = choose|reply: CompoundRes, g: (((), Vec<()>), ())|
                    {
                        &&& sent.is_geometry(g)
                        &&& #[trigger] outcome::<
                            ReturnSecond<
                                SequenceArgs,
                                ReturnSecond<(PutRootFh, Vec<LookUpArgs>), GetFh>,
                            >,
                        >(reply, ((), g), r)
                        &&& reply_read(old(transport), transport) == Ok::<
                            CompoundResModel,
                            crate::rpc_client::Error,
                        >(reply.model())
                    };
                reveal(<CompoundRes as Xdr>::model);
                reveal(<ResOp as Xdr>::model);
                reveal(<GetFhRes as Xdr>::model);
                reveal(<FileHandle as Xdr>::model);
                let res = reply.res_array@;
                let n = components(path@).len() as int;
                lemma_look_ups_expected(g.0.1@);
                assert(res.len() == n + 3);
                assert(res.skip(1).skip(n + 1)[0] == res[n + 2]);
                assert(res[n + 2] == ResOp::GetFh(StatusResult::Success(v)));
                assert(reply.model().res_array[n + 2] == res[n + 2].model());
            }
        }
        match r {
            Ok(res) => Ok(res.object),
            Err(e) => Err(e),
        }
    }

    /// Reads up to `count` octets of the file `handle` from `offset` on.
    pub fn read<X: Transport>(
        &mut self,
        transport: &mut Link<X>,
        handle: FileHandle,
        offset: u64,
        count: u32,
    ) -> (r: Result<ReadRes, Error>)
        ensures
            final(self).sent(
                old(self),
                r,
                read_ops(handle.0@, offset, count),
                old(transport),
                final(transport),
            ),
            r matches Ok(v) ==> answer_ends(
                old(transport),
                final(transport),
                3,
                ResOpModel::Read(StatusResult::Success(v.model())),
            ),
            final(self).did::<X, ReturnSecond<SequenceArgs, ReturnSecond<PutFhArgs, ReadArgs>>>(
                old(self),
                ((), ((), ())),
                read_ops(handle.0@, offset, count),
                old(transport),
                final(transport),
                r,
            ),
    {
        let request = read_request(handle, offset, count);
        let ghost sent = request;
        let r = self.do_compound(transport, request);
        proof {
            let g = choose|g: ((), ())| #[trigger]
                self.did::<X, ReturnSecond<SequenceArgs, ReturnSecond<PutFhArgs, ReadArgs>>>(
                    old(self),
                    ((), g),
                    read_ops(handle.0@, offset, count),
                    old(transport),
                    transport,
                    r,
                );
            assert(g == ((), ()));
            if r is Ok {
                let v = r->Ok_0;
                let (reply, g) = choose|reply: CompoundRes, g: ((), ())|
                    {
                        &&& sent.is_geometry(g)
                        &&& #[trigger] outcome::<
                            ReturnSecond<SequenceArgs, ReturnSecond<PutFhArgs, ReadArgs>>,
                        >(reply, ((), g), r)
                        &&& reply_read(old(transport), transport) == Ok::<
                            CompoundResModel,
                            crate::rpc_client::Error,
                        >(reply.model())
                    };
                reveal(<CompoundRes as Xdr>::model);
                reveal(<ResOp as Xdr>::model);
                let res = reply.res_array@;
                assert(res.len() == 3);
                assert(res.skip(1).skip(1)[0] == res[2]);
                assert(res[2] == ResOp::Read(StatusResult::Success(v)));
                assert(reply.model().res_array[2] == res[2].model());
            }
        }
        r
    }

    /// How many octets one read asks for: as many as the server reads at
    /// once, as far as 32 bits can say.
    pub open spec fn read_size(&self) -> u32 {
        if self.max_read() > u32::MAX {
            u32::MAX
        } else {
            self.max_read() as u32
        }
    }

    /// How many octets one read asks for: as many as the server reads at
    /// once, as far as 32 bits can say.
    pub fn read_count(&self) -> (r: u32)
        ensures
            r == if self.max_read() > u32::MAX {
                u32::MAX
            } else {
                self.max_read() as u32
            },
            r == self.read_size(),
    {
        if self.max_read > u32::MAX as u64 {
            u32::MAX
        } else {
            self.max_read as u32
        }
    }

    /// Reads the file `handle` from its beginning to its end, and appends
    /// what it holds to `sink`: read by read of as many octets as the server
    /// reads at once, each from where the one before it ended, until the
    /// server says that the file has ended.
    ///
    /// What passes is a [`chain`] of reads, at least one, each at the offset
    /// that [`reads_to_end`] gives it; the result, and what `sink` gains, is
    /// what that says of their results.
    pub fn read_all<X: Transport>(
        &mut self,
        transport: &mut Link<X>,
        handle: FileHandle,
        sink: &mut Vec<u8>,
    ) -> (r: Result<(), Error>)
        ensures
            final(self).same_session(old(self)),
            final(self).sequence_id() >= old(self).sequence_id(),
            final(sink)@.len() >= old(sink)@.len(),
            final(sink)@.take(old(sink)@.len() as int) == old(sink)@,
            r is Ok ==> final(self).sequence_id() > old(self).sequence_id(),
            r is Ok ==> old(transport).written().is_prefix_of(final(transport).written()),
            old(self).sequence_id() == u32::MAX ==> {
                &&& r == Err::<(), Error>(Error::SequenceExhausted)
                &&& quiet(old(transport), final(transport))
                &&& final(sink)@ == old(sink)@
            },
            exists|
                clients: Seq<Client>,
                links: Seq<Link<X>>,
                offsets: Seq<u64>,
                sinks: Seq<Seq<u8>>,
                results: Seq<Result<ReadRes, Error>>,
            |
                #![trigger
                    chain::<X, ReturnSecond<SequenceArgs, ReturnSecond<PutFhArgs, ReadArgs>>>(
                        clients,
                        links,
                        ((), ((), ())),
                        read_ops_at(handle.0@, old(self).read_size(), offsets),
                        results,
                    ),
                    reads_to_end(offsets, sinks, results, old(sink)@, final(sink)@, r),
                ]
                {
                    &&& chain::<X, ReturnSecond<SequenceArgs, ReturnSecond<PutFhArgs, ReadArgs>>>(
                        clients,
                        links,
                        ((), ((), ())),
                        read_ops_at(handle.0@, old(self).read_size(), offsets),
                        results,
                    )
                    &&& spans(
                        clients,
                        links,
                        old(self),
                        final(self),
                        old(transport),
                        final(transport),
                    )
                    &&& reads_to_end(offsets, sinks, results, old(sink)@, final(sink)@, r)
                },
    {
        let mut offset: u64 = 0;
        let count = self.read_count();
        assert(sink@.take(sink@.len() as int) =~= sink@);
        let ghost mut clients: Seq<Client> = seq![*self];
        let ghost mut links: Seq<Link<X>> = seq![*transport];
        let ghost mut offsets: Seq<u64> = seq![0u64];
        let ghost mut sinks: Seq<Seq<u8>> = seq![sink@];
        let ghost mut results: Seq<Result<ReadRes, Error>> = Seq::empty();
        loop
            invariant
                self.same_session(old(self)),
                self.sequence_id() >= old(self).sequence_id(),
                sink@.len() >= old(sink)@.len(),
                sink@.take(old(sink)@.len() as int) == old(sink)@,
                old(transport).written().is_prefix_of(transport.written()),
                count == old(self).read_size(),
                clients.len() == results.len() + 1,
                links.len() == results.len() + 1,
                offsets.len() == results.len() + 1,
                sinks.len() == results.len() + 1,
                clients[0] == *old(self),
                clients.last() == *self,
                links[0] == *old(transport),
                links.last() == *transport,
                offsets[0] == 0,
                offsets.last() == offset,
                sinks[0] == old(sink)@,
                sinks.last() == sink@,
                forall|i: int|
                    0 <= i < results.len() ==> #[trigger] chain_step::<
                        X,
                        ReturnSecond<SequenceArgs, ReturnSecond<PutFhArgs, ReadArgs>>,
                    >(
                        clients,
                        links,
                        ((), ((), ())),
                        read_ops_at(handle.0@, count, offsets),
                        results,
                        i,
                    ),
                forall|i: int|
                    0 <= i < results.len() ==> #[trigger] read_goes_on(offsets, sinks, results, i),
                results.len() > 0 ==> old(self).sequence_id() < u32::MAX,
            decreases u64::MAX - offset,
        {
            let ghost was = transport.written();
            let read = self.read(transport, clone_handle(&handle), offset, count);
            assert(read is Ok ==> was.is_prefix_of(transport.written()));
            let ghost n = results.len() as int;
            let ghost clients_before = clients;
            let ghost links_before = links;
            let ghost results_before = results;
            proof {
                clients = clients.push(*self);
                links = links.push(*transport);
                results = results.push(read);
                let ops = read_ops_at(handle.0@, count, offsets);
                assert forall|i: int| 0 <= i < results.len() implies #[trigger] chain_step::<
                    X,
                    ReturnSecond<SequenceArgs, ReturnSecond<PutFhArgs, ReadArgs>>,
                >(clients, links, ((), ((), ())), ops, results, i) by {
                    if i < n {
                        assert(chain_step::<
                            X,
                            ReturnSecond<SequenceArgs, ReturnSecond<PutFhArgs, ReadArgs>>,
                        >(clients_before, links_before, ((), ((), ())), ops, results_before, i));
                    }
                }
                assert forall|i: int| 0 <= i < results.len() - 1 implies #[trigger] read_goes_on(
                    offsets,
                    sinks,
                    results,
                    i,
                ) by {
                    assert(read_goes_on(offsets, sinks, results_before, i));
                }
                assert(chain::<X, ReturnSecond<SequenceArgs, ReturnSecond<PutFhArgs, ReadArgs>>>(
                    clients,
                    links,
                    ((), ((), ())),
                    ops,
                    results,
                ));
                assert(spans(clients, links, old(self), self, old(transport), transport));
            }
            let mut read_res = match read {
                Ok(v) => v,
                Err(e) => {
                    assert(reads_to_end(offsets, sinks, results, old(sink)@, sink@, Err(e)));
                    return Err(e);
                },
            };
            let next = match read_step(offset, read_res.data.len(), read_res.eof) {
                Ok(next) => next,
                Err(e) => {
                    assert(reads_to_end(offsets, sinks, results, old(sink)@, sink@, Err(e)));
                    return Err(e);
                },
            };
            let ghost before = sink@;
            sink.append(&mut read_res.data);
            assert(sink@.take(old(sink)@.len() as int) =~= before.take(old(sink)@.len() as int));
            match next {
                None => {
                    assert(reads_to_end(offsets, sinks, results, old(sink)@, sink@, Ok(())));
                    return Ok(());
                },
                Some(n) => {
                    offset = n;
                },
            }
            let ghost offsets_before = offsets;
            let ghost sinks_before = sinks;
            proof {
                offsets = offsets.push(offset);
                sinks = sinks.push(sink@);
                let ops_before = read_ops_at(handle.0@, count, offsets_before);
                let ops = read_ops_at(handle.0@, count, offsets);
                assert forall|i: int| 0 <= i < results.len() implies #[trigger] chain_step::<
                    X,
                    ReturnSecond<SequenceArgs, ReturnSecond<PutFhArgs, ReadArgs>>,
                >(clients, links, ((), ((), ())), ops, results, i) by {
                    assert(chain_step::<
                        X,
                        ReturnSecond<SequenceArgs, ReturnSecond<PutFhArgs, ReadArgs>>,
                    >(clients, links, ((), ((), ())), ops_before, results, i));
                    assert(ops[i] == ops_before[i]);
                }
                assert forall|i: int| 0 <= i < results.len() implies #[trigger] read_goes_on(
                    offsets,
                    sinks,
                    results,
                    i,
                ) by {
                    if i < results.len() - 1 {
                        assert(read_goes_on(offsets_before, sinks_before, results, i));
                    }
                }
            }
        }
    }

    /// Writes `data` to the file `handle` at `offset`.
    pub fn write<X: Transport>(
        &mut self,
        transport: &mut Link<X>,
        handle: FileHandle,
        offset: u64,
        data: Vec<u8>,
    ) -> (r: Result<WriteRes, Error>)
        ensures
            final(self).sent(
                old(self),
                r,
                write_ops(handle.0@, offset, data@),
                old(transport),
                final(transport),
            ),
            r matches Ok(v) ==> answer_ends(
                old(transport),
                final(transport),
                3,
                ResOpModel::Write(StatusResult::Success(v)),
            ),
            final(self).did::<
                X,
                ReturnSecond<SequenceArgs, ReturnSecond<PutFhArgs, WriteArgs>>,
            >(
                old(self),
                ((), ((), ())),
                write_ops(handle.0@, offset, data@),
                old(transport),
                final(transport),
                r,
            ),
    {
        let request = write_request(handle, offset, data);
        let ghost sent = request;
        let r = self.do_compound(transport, request);
        proof {
            let whole = choose|g: ((), ())| #[trigger]
                self.did::<
                    X,
                    ReturnSecond<SequenceArgs, ReturnSecond<PutFhArgs, WriteArgs>>,
                >(
                    old(self),
                    ((), g),
                    write_ops(handle.0@, offset, data@),
                    old(transport),
                    transport,
                    r,
                );
            assert(whole == ((), ()));
            if r is Ok {
                let v = r->Ok_0;
                let (reply, g) = choose|reply: CompoundRes, g: ((), ())|
                    {
                        &&& sent.is_geometry(g)
                        &&& #[trigger] outcome::<
                            ReturnSecond<SequenceArgs, ReturnSecond<PutFhArgs, WriteArgs>>,
                        >(reply, ((), g), r)
                        &&& reply_read(old(transport), transport) == Ok::<
                            CompoundResModel,
                            crate::rpc_client::Error,
                        >(reply.model())
                    };
                reveal(<CompoundRes as Xdr>::model);
                reveal(<ResOp as Xdr>::model);
                let res = reply.res_array@;
                assert(res.len() == 3);
                assert(res.skip(1).skip(1)[0] == res[2]);
                assert(res[2] == ResOp::Write(StatusResult::Success(v)));
                assert(reply.model().res_array[2] == res[2].model());
            }
        }
        r
    }

    /// Writes the octets of `source` to the file `handle` from its beginning
    /// on: chunk by chunk of at most as many octets as the server writes at
    /// once; of each chunk what the server has not taken yet is written
    /// again, at the offset that it has in `source`, until the server has
    /// taken all of it.
    ///
    /// What passes is a [`chain`] of writes, each of the octets of `source`
    /// between the two places that [`writes_to_end`] gives it, at the first
    /// of them as its offset; the result is what that says of their results.
    pub fn write_all<X: Transport>(
        &mut self,
        transport: &mut Link<X>,
        handle: FileHandle,
        source: &[u8],
    ) -> (r: Result<(), Error>)
        ensures
            final(self).same_session(old(self)),
            final(self).sequence_id() >= old(self).sequence_id(),
            source@.len() == 0 ==> r is Ok && final(self).sequence_id() == old(self).sequence_id(),
            source@.len() > 0 && old(self).max_write() == 0 ==> r == Err::<(), Error>(
                Error::Stalled,
            ) && final(self).sequence_id() == old(self).sequence_id(),
            r is Ok ==> old(transport).written().is_prefix_of(final(transport).written()),
            exists|
                clients: Seq<Client>,
                links: Seq<Link<X>>,
                positions: Seq<usize>,
                ends: Seq<usize>,
                results: Seq<Result<WriteRes, Error>>,
            |
                #![trigger
                    chain::<X, ReturnSecond<SequenceArgs, ReturnSecond<PutFhArgs, WriteArgs>>>(
                        clients,
                        links,
                        ((), ((), ())),
                        write_ops_at(handle.0@, source@, positions, ends),
                        results,
                    ),
                ]
                {
                    &&& chain::<X, ReturnSecond<SequenceArgs, ReturnSecond<PutFhArgs, WriteArgs>>>(
                        clients,
                        links,
                        ((), ((), ())),
                        write_ops_at(handle.0@, source@, positions, ends),
                        results,
                    )
                    &&& spans(
                        clients,
                        links,
                        old(self),
                        final(self),
                        old(transport),
                        final(transport),
                    )
                    &&& writes_to_end(
                        source@.len(),
                        old(self).max_write(),
                        positions,
                        ends,
                        results,
                        r,
                    )
                },
    {
        let mut pos: usize = 0;
        let mut end: usize = 0;
        let ghost mut clients: Seq<Client> = seq![*self];
        let ghost mut links: Seq<Link<X>> = seq![*transport];
        let ghost mut positions: Seq<usize> = Seq::empty();
        let ghost mut ends: Seq<usize> = Seq::empty();
        let ghost mut results: Seq<Result<WriteRes, Error>> = Seq::empty();
        while pos < source.len()
            invariant
                pos <= end <= source@.len(),
                self.same_session(old(self)),
                self.sequence_id() >= old(self).sequence_id(),
                end > 0 ==> old(self).max_write() > 0,
                end == 0 ==> self.sequence_id() == old(self).sequence_id(),
                old(transport).written().is_prefix_of(transport.written()),
                clients.len() == results.len() + 1,
                links.len() == results.len() + 1,
                positions.len() == results.len(),
                ends.len() == results.len(),
                clients[0] == *old(self),
                clients.last() == *self,
                links[0] == *old(transport),
                links.last() == *transport,
                results.len() == 0 ==> pos == 0 && end == 0,
                results.len() > 0 ==> positions[0] == 0 && ends[0] == chunk_end(
                    source@.len(),
                    0,
                    old(self).max_write(),
                ),
                results.len() > 0 ==> end == ends.last() && write_leads_on(
                    positions.last(),
                    ends.last(),
                    results.last(),
                    pos,
                ),
                forall|i: int|
                    0 <= i < results.len() ==> #[trigger] chain_step::<
                        X,
                        ReturnSecond<SequenceArgs, ReturnSecond<PutFhArgs, WriteArgs>>,
                    >(
                        clients,
                        links,
                        ((), ((), ())),
                        write_ops_at(handle.0@, source@, positions, ends),
                        results,
                        i,
                    ),
                forall|i: int|
                    0 <= i < results.len() - 1 ==> #[trigger] write_goes_on(
                        source@.len(),
                        old(self).max_write(),
                        positions,
                        ends,
                        results,
                        i,
                    ),
            decreases source@.len() - pos,
        {
            let ghost was = transport.written();
            let ghost end_before = end;
            if pos == end {
                end = write_chunk(source.len(), pos, self.max_write);
                if end == pos {
                    assert(writes_to_end(
                        source@.len(),
                        old(self).max_write(),
                        positions,
                        ends,
                        results,
                        Err(Error::Stalled),
                    ));
                    assert(chain::<
                        X,
                        ReturnSecond<SequenceArgs, ReturnSecond<PutFhArgs, WriteArgs>>,
                    >(
                        clients,
                        links,
                        ((), ((), ())),
                        write_ops_at(handle.0@, source@, positions, ends),
                        results,
                    ));
                    return Err(Error::Stalled);
                }
            }
            let chunk = copy_bytes(vstd::slice::slice_subrange(source, pos, end));
            let written = self.write(transport, clone_handle(&handle), pos as u64, chunk);
            assert(written is Ok ==> was.is_prefix_of(transport.written()));
            let ghost n = results.len() as int;
            let ghost clients_before = clients;
            let ghost links_before = links;
            let ghost results_before = results;
            let ghost positions_before = positions;
            let ghost ends_before = ends;
            proof {
                clients = clients.push(*self);
                links = links.push(*transport);
                results = results.push(written);
                positions = positions.push(pos);
                ends = ends.push(end);
                let ops_before = write_ops_at(handle.0@, source@, positions_before, ends_before);
                let ops = write_ops_at(handle.0@, source@, positions, ends);
                assert forall|i: int| 0 <= i < results.len() implies #[trigger] chain_step::<
                    X,
                    ReturnSecond<SequenceArgs, ReturnSecond<PutFhArgs, WriteArgs>>,
                >(clients, links, ((), ((), ())), ops, results, i) by {
                    if i < n {
                        assert(chain_step::<
                            X,
                            ReturnSecond<SequenceArgs, ReturnSecond<PutFhArgs, WriteArgs>>,
                        >(
                            clients_before,
                            links_before,
                            ((), ((), ())),
                            ops_before,
                            results_before,
                            i,
                        ));
                        assert(ops[i] == ops_before[i]);
                    }
                }
                assert forall|i: int| 0 <= i < results.len() - 1 implies #[trigger] write_goes_on(
                    source@.len(),
                    old(self).max_write(),
                    positions,
                    ends,
                    results,
                    i,
                ) by {
                    if i < n - 1 {
                        assert(write_goes_on(
                            source@.len(),
                            old(self).max_write(),
                            positions_before,
                            ends_before,
                            results_before,
                            i,
                        ));
                    }
                }
                assert(chain::<
                    X,
                    ReturnSecond<SequenceArgs, ReturnSecond<PutFhArgs, WriteArgs>>,
                >(clients, links, ((), ((), ())), ops, results));
                assert(spans(clients, links, old(self), self, old(transport), transport));
            }
            let write_res = match written {
                Ok(v) => v,
                Err(e) => {
                    assert(writes_to_end(
                        source@.len(),
                        old(self).max_write(),
                        positions,
                        ends,
                        results,
                        Err(e),
                    ));
                    return Err(e);
                },
            };
            pos = match write_step(pos, end, write_res.count) {
                Ok(next) => next,
                Err(e) => {
                    assert(writes_to_end(
                        source@.len(),
                        old(self).max_write(),
                        positions,
                        ends,
                        results,
                        Err(e),
                    ));
                    return Err(e);
                },
            };
        }
        proof {
            assert(writes_to_end(
                source@.len(),
                old(self).max_write(),
                positions,
                ends,
                results,
                Ok(()),
            ));
            assert(chain::<X, ReturnSecond<SequenceArgs, ReturnSecond<PutFhArgs, WriteArgs>>>(
                clients,
                links,
                ((), ((), ())),
                write_ops_at(handle.0@, source@, positions, ends),
                results,
            ));
        }
        Ok(())
    }

    /// Creates the file `name` in the directory `parent`, for writing, under
    /// the owner of the client, and gives its handle.
    pub fn create_file<X: Transport>(
        &mut self,
        transport: &mut Link<X>,
        parent: FileHandle,
        name: &str,
    ) -> (r: Result<FileHandle, Error>)
        ensures
            final(self).sent(
                old(self),
                r,
                create_ops(parent.0@, name@, old(self).client_id(), old(self).owner_id()),
                old(transport),
                final(transport),
            ),
            r matches Ok(handle) ==> answer_ends(
                old(transport),
                final(transport),
                4,
                ResOpModel::GetFh(
                    StatusResult::Success(GetFhResModel { object: FileHandleModel(handle.0@) }),
                ),
            ),
            exists|inner: Result<GetFhRes, Error>| #[trigger]
                final(self).did::<
                    X,
                    ReturnSecond<SequenceArgs, ReturnSecond<(PutFhArgs, OpenArgs), GetFh>>,
                >(
                    old(self),
                    ((), (((), ()), ())),
                    create_ops(parent.0@, name@, old(self).client_id(), old(self).owner_id()),
                    old(transport),
                    final(transport),
                    inner,
                ) && r == handle_of(inner),
    {
        let request = create_file_request(
            parent,
            name,
            self.client_id,
            copy_bytes(self.client_owner.owner_id.as_slice()),
        );
        let ghost sent = request;
        let r = self.do_compound(transport, request);
        proof {
            let whole = choose|g: (((), ()), ())| #[trigger]
                self.did::<
                    X,
                    ReturnSecond<SequenceArgs, ReturnSecond<(PutFhArgs, OpenArgs), GetFh>>,
                >(
                    old(self),
                    ((), g),
                    create_ops(parent.0@, name@, old(self).client_id(), old(self).owner_id()),
                    old(transport),
                    transport,
                    r,
                );
            assert(whole == (((), ()), ()));
            assert(self.did::<
                X,
                ReturnSecond<SequenceArgs, ReturnSecond<(PutFhArgs, OpenArgs), GetFh>>,
            >(
                old(self),
                ((), (((), ()), ())),
                create_ops(parent.0@, name@, old(self).client_id(), old(self).owner_id()),
                old(transport),
                transport,
                r,
            ));
            if r is Ok {
                let v = r->Ok_0;
                let (reply, g) = choose|reply: CompoundRes, g: (((), ()), ())|
                    {
                        &&& sent.is_geometry(g)
                        &&& #[trigger] outcome::<
                            ReturnSecond<SequenceArgs, ReturnSecond<(PutFhArgs, OpenArgs), GetFh>>,
                        >(reply, ((), g), r)
                        &&& reply_read(old(transport), transport) == Ok::<
                            CompoundResModel,
                            crate::rpc_client::Error,
                        >(reply.model())
                    };
                reveal(<CompoundRes as Xdr>::model);
                reveal(<ResOp as Xdr>::model);
                reveal(<GetFhRes as Xdr>::model);
                reveal(<FileHandle as Xdr>::model);
                let res = reply.res_array@;
                assert(res.len() == 4);
                assert(res.skip(1).skip(2)[0] == res[3]);
                assert(res[3] == ResOp::GetFh(StatusResult::Success(v)));
                assert(reply.model().res_array[3] == res[3].model());
            }
        }
        match r {
            Ok(res) => Ok(res.object),
            Err(e) => Err(e),
        }
    }

    /// Lists the directory `handle`, with the attributes that the server
    /// supports of each entry: part by part, each from the cookie of the
    /// last entry of the part before it, until the server says that the
    /// listing has ended.
    ///
    /// What passes is a [`chain`] of requests for a part, at least one, each
    /// from the cookie that [`lists_to_end`] gives it; the result is what
    /// that says of their results.
    pub fn read_dir<X: Transport>(
        &mut self,
        transport: &mut Link<X>,
        handle: FileHandle,
    ) -> (r: Result<Vec<DirectoryEntry>, Error>)
        ensures
            final(self).same_session(old(self)),
            final(self).sequence_id() >= old(self).sequence_id(),
            r is Ok ==> final(self).sequence_id() > old(self).sequence_id(),
            r is Ok ==> old(transport).written().is_prefix_of(final(transport).written()),
            old(self).sequence_id() == u32::MAX ==> {
                &&& r == Err::<Vec<DirectoryEntry>, Error>(Error::SequenceExhausted)
                &&& quiet(old(transport), final(transport))
            },
            exists|
                clients: Seq<Client>,
                links: Seq<Link<X>>,
                cookies: Seq<Cookie>,
                lists: Seq<Seq<DirectoryEntry>>,
                results: Seq<Result<ReadDirRes, Error>>,
            |
                #![trigger
                    chain::<X, ReturnSecond<SequenceArgs, ReturnSecond<PutFhArgs, ReadDirArgs>>>(
                        clients,
                        links,
                        ((), ((), ())),
                        read_dir_ops_at(handle.0@, old(self).supported_attrs(), cookies),
                        results,
                    ),
                    lists_to_end(cookies, lists, results, r),
                ]
                {
                    &&& chain::<
                        X,
                        ReturnSecond<SequenceArgs, ReturnSecond<PutFhArgs, ReadDirArgs>>,
                    >(
                        clients,
                        links,
                        ((), ((), ())),
                        read_dir_ops_at(handle.0@, old(self).supported_attrs(), cookies),
                        results,
                    )
                    &&& spans(
                        clients,
                        links,
                        old(self),
                        final(self),
                        old(transport),
                        final(transport),
                    )
                    &&& lists_to_end(cookies, lists, results, r)
                },
    {
        let attrs = self.supported();
        let mut entries: Vec<DirectoryEntry> = Vec::new();
        let mut cookie = Cookie::initial();
        let ghost mut clients: Seq<Client> = seq![*self];
        let ghost mut links: Seq<Link<X>> = seq![*transport];
        let ghost mut cookies: Seq<Cookie> = seq![cookie];
        let ghost mut lists: Seq<Seq<DirectoryEntry>> = seq![entries@];
        let ghost mut results: Seq<Result<ReadDirRes, Error>> = Seq::empty();
        loop
            invariant
                self.same_session(old(self)),
                self.sequence_id() >= old(self).sequence_id(),
                old(transport).written().is_prefix_of(transport.written()),
                attrs@ == old(self).supported_attrs(),
                clients.len() == results.len() + 1,
                links.len() == results.len() + 1,
                cookies.len() == results.len() + 1,
                lists.len() == results.len() + 1,
                clients[0] == *old(self),
                clients.last() == *self,
                links[0] == *old(transport),
                links.last() == *transport,
                cookies[0] == Cookie(0),
                cookies.last() == cookie,
                lists[0] == Seq::<DirectoryEntry>::empty(),
                lists.last() == entries@,
                forall|i: int|
                    0 <= i < results.len() ==> #[trigger] chain_step::<
                        X,
                        ReturnSecond<SequenceArgs, ReturnSecond<PutFhArgs, ReadDirArgs>>,
                    >(
                        clients,
                        links,
                        ((), ((), ())),
                        read_dir_ops_at(handle.0@, attrs@, cookies),
                        results,
                        i,
                    ),
                forall|i: int|
                    0 <= i < results.len() ==> #[trigger] list_goes_on(cookies, lists, results, i),
                results.len() > 0 ==> old(self).sequence_id() < u32::MAX,
            decreases usize::MAX - entries@.len(),
        {
            let ghost was = transport.written();
            let request = read_dir_request(clone_handle(&handle), cookie, attrs.clone());
            let listed = self.do_compound(transport, request);
            assert(listed is Ok ==> was.is_prefix_of(transport.written()));
            let ghost n = results.len() as int;
            let ghost clients_before = clients;
            let ghost links_before = links;
            let ghost results_before = results;
            proof {
                let g = choose|g: ((), ())| #[trigger]
                    self.did::<X, ReturnSecond<SequenceArgs, ReturnSecond<PutFhArgs, ReadDirArgs>>>(
                        &clients_before.last(),
                        ((), g),
                        read_dir_ops(handle.0@, cookie, attrs@),
                        &links_before.last(),
                        transport,
                        listed,
                    );
                assert(g == ((), ()));
                clients = clients.push(*self);
                links = links.push(*transport);
                results = results.push(listed);
                let ops = read_dir_ops_at(handle.0@, attrs@, cookies);
                assert forall|i: int| 0 <= i < results.len() implies #[trigger] chain_step::<
                    X,
                    ReturnSecond<SequenceArgs, ReturnSecond<PutFhArgs, ReadDirArgs>>,
                >(clients, links, ((), ((), ())), ops, results, i) by {
                    if i < n {
                        assert(chain_step::<
                            X,
                            ReturnSecond<SequenceArgs, ReturnSecond<PutFhArgs, ReadDirArgs>>,
                        >(
                            clients_before,
                            links_before,
                            ((), ((), ())),
                            ops,
                            results_before,
                            i,
                        ));
                    }
                }
                assert forall|i: int| 0 <= i < results.len() - 1 implies #[trigger] list_goes_on(
                    cookies,
                    lists,
                    results,
                    i,
                ) by {
                    assert(list_goes_on(cookies, lists, results_before, i));
                }
                assert(chain::<
                    X,
                    ReturnSecond<SequenceArgs, ReturnSecond<PutFhArgs, ReadDirArgs>>,
                >(clients, links, ((), ((), ())), ops, results));
                assert(spans(clients, links, old(self), self, old(transport), transport));
            }
            let res = match listed {
                Ok(v) => v,
                Err(e) => {
                    assert(lists_to_end(cookies, lists, results, Err(e)));
                    return Err(e);
                },
            };
            let mut part = res.reply.entries;
            let added = part.len();
            let ghost before = entries@.len();
            entries.append(&mut part);
            let known = entries.len();
            assert(known == before + added);
            let next = match read_dir_step(&entries, added, res.reply.eof) {
                Ok(next) => next,
                Err(e) => {
                    assert(lists_to_end(cookies, lists, results, Err(e)));
                    return Err(e);
                },
            };
            match next {
                None => {
                    assert(lists_to_end(cookies, lists, results, Ok(entries)));
                    return Ok(entries);
                },
                Some(c) => {
                    cookie = c;
                },
            }
            let ghost cookies_before = cookies;
            let ghost lists_before = lists;
            proof {
                cookies = cookies.push(cookie);
                lists = lists.push(entries@);
                let ops_before = read_dir_ops_at(handle.0@, attrs@, cookies_before);
                let ops = read_dir_ops_at(handle.0@, attrs@, cookies);
                assert forall|i: int| 0 <= i < results.len() implies #[trigger] chain_step::<
                    X,
                    ReturnSecond<SequenceArgs, ReturnSecond<PutFhArgs, ReadDirArgs>>,
                >(clients, links, ((), ((), ())), ops, results, i) by {
                    assert(chain_step::<
                        X,
                        ReturnSecond<SequenceArgs, ReturnSecond<PutFhArgs, ReadDirArgs>>,
                    >(
                        clients,
                        links,
                        ((), ((), ())),
                        ops_before,
                        results,
                        i,
                    ));
                    assert(ops[i] == ops_before[i]);
                }
                assert forall|i: int| 0 <= i < results.len() implies #[trigger] list_goes_on(
                    cookies,
                    lists,
                    results,
                    i,
                ) by {
                    if i < results.len() - 1 {
                        assert(list_goes_on(cookies_before, lists_before, results, i));
                    }
                }
            }
        }
    }

    /// Takes the entry `name` out of the directory `parent`.
    pub fn remove<X: Transport>(
        &mut self,
        transport: &mut Link<X>,
        parent: FileHandle,
        name: &str,
    ) -> (r: Result<(), Error>)
        ensures
            final(self).sent(
                old(self),
                r,
                remove_ops(parent.0@, name@),
                old(transport),
                final(transport),
            ),
            r is Ok ==> exists|change: crate::res::RemoveRes|
                #[trigger] answer_ends(
                    old(transport),
                    final(transport),
                    3,
                    ResOpModel::Remove(StatusResult::Success(change)),
                ),
            exists|inner: Result<crate::res::RemoveRes, Error>| #[trigger]
                final(self).did::<
                    X,
                    ReturnSecond<SequenceArgs, ReturnSecond<PutFhArgs, RemoveArgs>>,
                >(
                    old(self),
                    ((), ((), ())),
                    remove_ops(parent.0@, name@),
                    old(transport),
                    final(transport),
                    inner,
                ) && r == done(inner),
    {
        let request = remove_request(parent, name);
        let ghost sent = request;
        let r = self.do_compound(transport, request);
        proof {
            let whole = choose|g: ((), ())| #[trigger]
                self.did::<
                    X,
                    ReturnSecond<SequenceArgs, ReturnSecond<PutFhArgs, RemoveArgs>>,
                >(
                    old(self),
                    ((), g),
                    remove_ops(parent.0@, name@),
                    old(transport),
                    transport,
                    r,
                );
            assert(whole == ((), ()));
            assert(self.did::<
                X,
                ReturnSecond<SequenceArgs, ReturnSecond<PutFhArgs, RemoveArgs>>,
            >(
                old(self),
                ((), ((), ())),
                remove_ops(parent.0@, name@),
                old(transport),
                transport,
                r,
            ));
            if r is Ok {
                let v = r->Ok_0;
                let (reply, g) = choose|reply: CompoundRes, g: ((), ())|
                    {
                        &&& sent.is_geometry(g)
                        &&& #[trigger] outcome::<
                            ReturnSecond<SequenceArgs, ReturnSecond<PutFhArgs, RemoveArgs>>,
                        >(reply, ((), g), r)
                        &&& reply_read(old(transport), transport) == Ok::<
                            CompoundResModel,
                            crate::rpc_client::Error,
                        >(reply.model())
                    };
                reveal(<CompoundRes as Xdr>::model);
                reveal(<ResOp as Xdr>::model);
                let res = reply.res_array@;
                assert(res.len() == 3);
                assert(res.skip(1).skip(1)[0] == res[2]);
                assert(res[2] == ResOp::Remove(StatusResult::Success(v)));
                assert(reply.model().res_array[2] == res[2].model());
                assert(answer_ends(
                    old(transport),
                    transport,
                    3,
                    ResOpModel::Remove(StatusResult::Success(v)),
                ));
            }
        }
        match r {
            Ok(_) => Ok(()),
            Err(e) => Err(e),
        }
    }

    /// Gives the entry `old_name` of the directory `source_parent` the name
    /// `new_name` in the directory `target_parent`.
    pub fn rename<X: Transport>(
        &mut self,
        transport: &mut Link<X>,
        source_parent: FileHandle,
        target_parent: FileHandle,
        old_name: &str,
        new_name: &str,
    ) -> (r: Result<(), Error>)
        ensures
            final(self).sent(
                old(self),
                r,
                rename_ops(source_parent.0@, target_parent.0@, old_name@, new_name@),
                old(transport),
                final(transport),
            ),
            r is Ok ==> exists|change: crate::res::RenameRes|
                #[trigger] answer_ends(
                    old(transport),
                    final(transport),
                    5,
                    ResOpModel::Rename(StatusResult::Success(change)),
                ),
            exists|inner: Result<crate::res::RenameRes, Error>| #[trigger]
                final(self).did::<
                    X,
                    ReturnSecond<
                        SequenceArgs,
                        ReturnSecond<(PutFhArgs, (SaveFh, PutFhArgs)), RenameArgs>,
                    >,
                >(
                    old(self),
                    ((), (((), ((), ())), ())),
                    rename_ops(source_parent.0@, target_parent.0@, old_name@, new_name@),
                    old(transport),
                    final(transport),
                    inner,
                ) && r == done(inner),
    {
        let request = rename_request(source_parent, target_parent, old_name, new_name);
        let ghost sent = request;
        let r = self.do_compound(transport, request);
        proof {
            let whole = choose|g: (((), ((), ())), ())| #[trigger]
                self.did::<
                    X,
                    ReturnSecond<
                        SequenceArgs,
                        ReturnSecond<(PutFhArgs, (SaveFh, PutFhArgs)), RenameArgs>,
                    >,
                >(
                    old(self),
                    ((), g),
                    rename_ops(source_parent.0@, target_parent.0@, old_name@, new_name@),
                    old(transport),
                    transport,
                    r,
                );
            assert(whole == (((), ((), ())), ()));
            assert(self.did::<
                X,
                ReturnSecond<
                    SequenceArgs,
                    ReturnSecond<(PutFhArgs, (SaveFh, PutFhArgs)), RenameArgs>,
                >,
            >(
                old(self),
                ((), (((), ((), ())), ())),
                rename_ops(source_parent.0@, target_parent.0@, old_name@, new_name@),
                old(transport),
                transport,
                r,
            ));
            if r is Ok {
                let v = r->Ok_0;
                let (reply, g) = choose|reply: CompoundRes, g: (((), ((), ())), ())|
                    {
                        &&& sent.is_geometry(g)
                        &&& #[trigger] outcome::<
                            ReturnSecond<
                                SequenceArgs,
                                ReturnSecond<(PutFhArgs, (SaveFh, PutFhArgs)), RenameArgs>,
                            >,
                        >(reply, ((), g), r)
                        &&& reply_read(old(transport), transport) == Ok::<
                            CompoundResModel,
                            crate::rpc_client::Error,
                        >(reply.model())
                    };
                reveal(<CompoundRes as Xdr>::model);
                reveal(<ResOp as Xdr>::model);
                let res = reply.res_array@;
                assert(res.len() == 5);
                assert(res.skip(1).skip(3)[0] == res[4]);
                assert(res[4] == ResOp::Rename(StatusResult::Success(v)));
                assert(reply.model().res_array[4] == res[4].model());
                assert(answer_ends(
                    old(transport),
                    transport,
                    5,
                    ResOpModel::Rename(StatusResult::Success(v)),
                ));
            }
        }
        match r {
            Ok(_) => Ok(()),
            Err(e) => Err(e),
        }
    }

    /// Sets the attributes `attrs` of the file `handle`.
    pub fn set_attr<X: Transport>(
        &mut self,
        transport: &mut Link<X>,
        handle: FileHandle,
        attrs: FileAttributes,
    ) -> (r: Result<SetAttrRes, Error>)
        ensures
            final(self).sent(
                old(self),
                r,
                set_attr_ops(handle.0@, attrs.model()),
                old(transport),
                final(transport),
            ),
            r matches Ok(v) ==> answer_ends(
                old(transport),
                final(transport),
                3,
                ResOpModel::SetAttr(
                    SetAttrStatusResultModel { status: StatusResult::Success(()), res: v.model() },
                ),
            ),
            final(self).did::<
                X,
                ReturnSecond<SequenceArgs, ReturnSecond<PutFhArgs, SetAttrArgs>>,
            >(
                old(self),
                ((), ((), ())),
                set_attr_ops(handle.0@, attrs.model()),
                old(transport),
                final(transport),
                r,
            ),
    {
        let request = set_attr_request(handle, attrs);
        let ghost sent = request;
        let r = self.do_compound(transport, request);
        proof {
            let whole = choose|g: ((), ())| #[trigger]
                self.did::<
                    X,
                    ReturnSecond<SequenceArgs, ReturnSecond<PutFhArgs, SetAttrArgs>>,
                >(
                    old(self),
                    ((), g),
                    set_attr_ops(handle.0@, attrs.model()),
                    old(transport),
                    transport,
                    r,
                );
            assert(whole == ((), ()));
            if r is Ok {
                let v = r->Ok_0;
                let (reply, g) = choose|reply: CompoundRes, g: ((), ())|
                    {
                        &&& sent.is_geometry(g)
                        &&& #[trigger] outcome::<
                            ReturnSecond<SequenceArgs, ReturnSecond<PutFhArgs, SetAttrArgs>>,
                        >(reply, ((), g), r)
                        &&& reply_read(old(transport), transport) == Ok::<
                            CompoundResModel,
                            crate::rpc_client::Error,
                        >(reply.model())
                    };
                reveal(<CompoundRes as Xdr>::model);
                reveal(<ResOp as Xdr>::model);
                reveal(<SetAttrStatusResult as Xdr>::model);
                let res = reply.res_array@;
                assert(res.len() == 3);
                assert(res.skip(1).skip(1)[0] == res[2]);
                assert(reply.model().res_array[2] == res[2].model());
            }
        }
        r
    }

    /// Opens a session on `transport`: makes the client known to the server
    /// under an owner drawn at random, creates the session, and asks of the
    /// root what the server supports and how much it reads and writes at
    /// once.
    ///
    /// What passes through the link is a [`handshake`] under an owner of
    /// eight octets, and the result is what its three results give, as
    /// [`opened`] says. On success three COMPOUNDs were sent, under the
    /// transaction identifiers 1, 2 and 3, the third as the first of the
    /// session.
    pub fn new<X: Transport>(transport: &mut Link<X>) -> (r: Result<Self, Error>)
        ensures
            r is Ok ==> {
                let client = r->Ok_0;
                &&& client.program() == NFS
                &&& client.next_xid() == 4
                &&& client.sequence_id() == 2
                &&& client.owner_id().len() == 8
                &&& wrote(
                    old(transport),
                    final(transport),
                    compound_record(1, NFS, exchange_id_ops(client.owner_id())) + compound_record(
                        2,
                        NFS,
                        create_session_ops(client.client_id()),
                    ) + compound_record(
                        3,
                        NFS,
                        seq![first_sequence_op(client.session_id())] + root_attrs_ops(),
                    ),
                )
            },
            exists|
                owner: Seq<u8>,
                client_id: ClientId,
                session_id: SessionId,
                second: Link<X>,
                third: Link<X>,
                xids: (u32, u32, u32),
                known: Result<ExchangeIdRes, Error>,
                session: Result<CreateSessionRes, Error>,
                root: Result<GetAttrRes, Error>,
            |
                {
                    &&& owner.len() == 8
                    &&& #[trigger] handshake::<
                        X,
                        ExchangeIdArgs,
                        CreateSessionArgs,
                        ReturnSecond<
                            SequenceArgs,
                            ReturnSecond<(ReclaimCompleteArgs, PutRootFh), GetAttrArgs>,
                        >,
                    >(
                        ((), (), ((), (((), ()), ()))),
                        opening_ops(owner, client_id, session_id),
                        old(transport),
                        &second,
                        &third,
                        final(transport),
                        xids,
                        known,
                        session,
                        root,
                    )
                    &&& opened(owner, client_id, session_id, known, session, root, r)
                },
    {
        let mut raw_client = ClientWithoutSession::new(RpcClient::new(NFS));
        let client_owner = random_client_owner();
        let owner_copy = ClientOwner {
            verifier: Verifier(0),
            owner_id: copy_bytes(client_owner.owner_id.as_slice()),
        };
        let ghost owner = client_owner.owner_id@;
        let first = exchange_id_args(owner_copy);
        let ghost first_sent = first;
        let known = raw_client.do_compound(transport, first);
        let ghost second = *transport;
        let ghost x1 = raw_client.next_xid();
        proof {
            let g = choose|g: ()| #[trigger]
                first_sent.is_geometry(g) && exchange::<X, ExchangeIdArgs>(
                    g,
                    exchange_id_ops(owner),
                    1,
                    NFS,
                    x1,
                    old(transport),
                    &second,
                    known,
                );
            assert(g == ());
        }
        let eid_res = match known {
            Ok(v) => v,
            Err(e) => {
                proof {
                    let session = Err::<CreateSessionRes, Error>(e);
                    let root = Err::<GetAttrRes, Error>(e);
                    let nobody = ClientId(0);
                    let nowhere = arbitrary::<SessionId>();
                    assert(opened(owner, nobody, nowhere, known, session, root, Err(e)));
                    assert(handshake::<
                        X,
                        ExchangeIdArgs,
                        CreateSessionArgs,
                        ReturnSecond<
                            SequenceArgs,
                            ReturnSecond<(ReclaimCompleteArgs, PutRootFh), GetAttrArgs>,
                        >,
                    >(
                        ((), (), ((), (((), ()), ()))),
                        opening_ops(owner, nobody, nowhere),
                        old(transport),
                        &second,
                        &second,
                        transport,
                        (x1, x1, x1),
                        known,
                        session,
                        root,
                    ));
                }
                return Err(e);
            },
        };
        let client_id = eid_res.client_id;
        let next = create_session_args(client_id);
        let ghost next_sent = next;
        let created = raw_client.do_compound(transport, next);
        let ghost third = *transport;
        let ghost x2 = raw_client.next_xid();
        proof {
            let g = choose|g: ()| #[trigger]
                next_sent.is_geometry(g) && exchange::<X, CreateSessionArgs>(
                    g,
                    create_session_ops(client_id),
                    x1,
                    NFS,
                    x2,
                    &second,
                    &third,
                    created,
                );
            assert(g == ());
        }
        let session = match created {
            Ok(v) => v,
            Err(e) => {
                proof {
                    let root = Err::<GetAttrRes, Error>(e);
                    let nowhere = arbitrary::<SessionId>();
                    assert(opened(owner, client_id, nowhere, known, created, root, Err(e)));
                    assert(handshake::<
                        X,
                        ExchangeIdArgs,
                        CreateSessionArgs,
                        ReturnSecond<
                            SequenceArgs,
                            ReturnSecond<(ReclaimCompleteArgs, PutRootFh), GetAttrArgs>,
                        >,
                    >(
                        ((), (), ((), (((), ()), ()))),
                        opening_ops(owner, client_id, nowhere),
                        old(transport),
                        &second,
                        &third,
                        transport,
                        (x1, x2, x2),
                        known,
                        created,
                        root,
                    ));
                }
                return Err(e);
            },
        };
        let mut client = Self {
            raw_client,
            session,
            sequence_id: SequenceId(1),
            client_id,
            client_owner,
            max_read: 0,
            max_write: 0,
            supported_attrs: EnumSet::new(),
        };
        let ghost fresh = client;
        let last = root_attrs_request();
        let ghost last_sent = last;
        let root = client.do_compound(transport, last);
        proof {
            let g = choose|g: (((), ()), ())|
                {
                    &&& last_sent.is_geometry(g)
                    &&& #[trigger] client.did::<
                        X,
                        ReturnSecond<
                            SequenceArgs,
                            ReturnSecond<(ReclaimCompleteArgs, PutRootFh), GetAttrArgs>,
                        >,
                    >(&fresh, ((), g), root_attrs_ops(), &third, transport, root)
                };
            assert(g == (((), ()), ()));
            assert(fresh.sequence_op() == first_sequence_op(session.session_id));
            assert(handshake::<
                X,
                ExchangeIdArgs,
                CreateSessionArgs,
                ReturnSecond<
                    SequenceArgs,
                    ReturnSecond<(ReclaimCompleteArgs, PutRootFh), GetAttrArgs>,
                >,
            >(
                ((), (), ((), (((), ()), ()))),
                opening_ops(owner, client_id, session.session_id),
                old(transport),
                &second,
                &third,
                transport,
                (x1, x2, client.next_xid()),
                known,
                created,
                root,
            ));
        }
        let root_attrs = match root {
            Ok(v) => v.object_attributes,
            Err(e) => {
                return Err(e);
            },
        };
        proof {
            let r1 = compound_record(1, NFS, exchange_id_ops(client.owner_id()));
            let r2 = compound_record(2, NFS, create_session_ops(client.client_id()));
            let r3 = compound_record(
                3,
                NFS,
                seq![first_sequence_op(client.session_id())] + root_attrs_ops(),
            );
            assert(old(transport).written() + r1 + r2 + r3 =~= old(transport).written() + (r1 + r2
                + r3));
        }
        match session_limits(root_attrs) {
            Some((supported, max_read, max_write)) => {
                client.supported_attrs = supported;
                client.max_read = max_read;
                client.max_write = max_write;
                Ok(client)
            },
            None => Err(Error::Unanswered),
        }
    }
}

/// What three COMPOUNDs do between the states `before` and `after` of the
/// link, one [`exchange`] after the other under the transaction identifiers
/// from 1 on, each only when the one before it gave a result: they carry
/// the operations `ops.0`, `ops.1` and `ops.2` and have the results `known`,
/// `session` and `root`. The link is in the state `second` after the first
/// of them and in the state `third` after the second, and `xids` are the
/// transaction identifiers that come next after each.
pub open spec fn handshake<
    X: Transport,
    A: CompoundRequest,
    B: CompoundRequest,
    C: CompoundRequest,
>(
    g: (A::Geometry, B::Geometry, C::Geometry),
    ops: (Seq<ArgOpModel>, Seq<ArgOpModel>, Seq<ArgOpModel>),
    before: &Link<X>,
    second: &Link<X>,
    third: &Link<X>,
    after: &Link<X>,
    xids: (u32, u32, u32),
    known: Result<A::Response, Error>,
    session: Result<B::Response, Error>,
    root: Result<C::Response, Error>,
) -> bool {
    &&& exchange::<X, A>(g.0, ops.0, 1, NFS, xids.0, before, second, known)
    &&& if known is Err {
        second == after
    } else {
        &&& exchange::<X, B>(g.1, ops.1, xids.0, NFS, xids.1, second, third, session)
        &&& if session is Err {
            third == after
        } else {
            exchange::<X, C>(g.2, ops.2, xids.1, NFS, xids.2, third, after, root)
        }
    }
}

/// The operations of the three COMPOUNDs that open a session: the client
/// makes itself known under the owner `owner`; it creates a session for the
/// identifier `client_id`; and as the first COMPOUND of the session
/// `session_id` it asks for the attributes of the root.
pub open spec fn opening_ops(owner: Seq<u8>, client_id: ClientId, session_id: SessionId) -> (
    Seq<ArgOpModel>,
    Seq<ArgOpModel>,
    Seq<ArgOpModel>,
) {
    (
        exchange_id_ops(owner),
        create_session_ops(client_id),
        seq![first_sequence_op(session_id)] + root_attrs_ops(),
    )
}

/// Whether `r` is what the results of the three COMPOUNDs that open a
/// session give, when they were made under the owner `owner`, for the
/// client `client_id` and in the session `session_id`. Those two are the
/// identifiers that the server gave in the first and in the second result.
///
/// The first error among the results is the error. When the attributes of
/// the root do not hold what the server supports and how much it reads and
/// writes at once, the error says so. Or else `r` is a client of that
/// session, which holds the identifiers and those three attributes, and
/// whose next COMPOUND is the second of the session and the fourth call.
pub open spec fn opened(
    owner: Seq<u8>,
    client_id: ClientId,
    session_id: SessionId,
    known: Result<ExchangeIdRes, Error>,
    session: Result<CreateSessionRes, Error>,
    root: Result<GetAttrRes, Error>,
    r: Result<Client, Error>,
) -> bool {
    match (known, session, root) {
        (Err(e), _, _) => r == Err::<Client, Error>(e),
        (Ok(a), Err(e), _) => a.client_id == client_id && r == Err::<Client, Error>(e),
        (Ok(a), Ok(b), Err(e)) => {
            &&& a.client_id == client_id
            &&& b.session_id == session_id
            &&& r == Err::<Client, Error>(e)
        },
        (Ok(a), Ok(b), Ok(c)) => {
            &&& a.client_id == client_id
            &&& b.session_id == session_id
            &&& match limits_of(c.object_attributes) {
                None => r == Err::<Client, Error>(Error::Unanswered),
                Some((supported, max_read, max_write)) => {
                    &&& r matches Ok(client)
                    &&& client.program() == NFS
                    &&& client.next_xid() == 4
                    &&& client.sequence_id() == 2
                    &&& client.owner_id() == owner
                    &&& client.client_id() == client_id
                    &&& client.session_id() == session_id
                    &&& client.supported_attrs() == supported@
                    &&& client.max_read() == max_read
                    &&& client.max_write() == max_write
                },
            }
        },
    }
}

/// The operation that leads the first COMPOUND of the session `session_id`.
pub open spec fn first_sequence_op(session_id: SessionId) -> ArgOpModel {
    ArgOpModel::Sequence(
        SequenceArgsModel {
            session_id: session_id.model(),
            sequence_id: SequenceId(1),
            slot_id: SlotId(0),
            highest_slot_id: SlotId(0),
            cache_this: false,
        },
    )
}

/// The identifiers `ks` without the identifier `key`, in the same order.
pub open spec fn without(ks: Seq<FileAttributeId>, key: FileAttributeId) -> Seq<FileAttributeId>
    decreases ks.len(),
{
    if ks.len() == 0 {
        ks
    } else if ks.last() == key {
        without(ks.drop_last(), key)
    } else {
        without(ks.drop_last(), key).push(ks.last())
    }
}

/// Identifiers of which none is `key` are left as they are.
pub proof fn lemma_without_absent(ks: Seq<FileAttributeId>, key: FileAttributeId)
    requires
        !ks.contains(key),
    ensures
        without(ks, key) == ks,
    decreases ks.len(),
{
    if ks.len() > 0 {
        assert(ks[ks.len() - 1] != key);
        assert forall|k: FileAttributeId| ks.drop_last().contains(k) implies ks.contains(k) by {
            let i = choose|i: int| 0 <= i < ks.drop_last().len() && ks.drop_last()[i] == k;
            assert(ks[i] == k);
        }
        lemma_without_absent(ks.drop_last(), key);
        assert(ks.drop_last().push(ks.last()) =~= ks);
    }
}

/// The ascending sequence that holds what `ks` holds but for `key` is `ks`
/// without `key`.
pub proof fn lemma_without(
    ks: Seq<FileAttributeId>,
    key: FileAttributeId,
    rest: Seq<FileAttributeId>,
)
    requires
        ascending(ids(ks)),
        ascending(ids(rest)),
        rest.to_set() == ks.to_set().remove(key),
    ensures
        rest == without(ks, key),
    decreases ks.len(),
{
    lemma_without_ascending(ks, key);
    lemma_ascending_is_unique(rest, without(ks, key));
}

/// Taking an identifier out of an ascending sequence leaves it ascending,
/// and leaves what it held but for the identifier.
pub proof fn lemma_without_ascending(ks: Seq<FileAttributeId>, key: FileAttributeId)
    requires
        ascending(ids(ks)),
    ensures
        ascending(ids(without(ks, key))),
        without(ks, key).to_set() == ks.to_set().remove(key),
        forall|i: int|
            0 <= i < without(ks, key).len() ==> ks.contains(#[trigger] without(ks, key)[i]),
    decreases ks.len(),
{
    if ks.len() == 0 {
        assert(without(ks, key).to_set() =~= ks.to_set().remove(key));
    } else {
        let init = ks.drop_last();
        let last = ks.last();
        assert(ids(init) =~= ids(ks).drop_last());
        lemma_without_ascending(init, key);
        let w0 = without(init, key);
        let w = without(ks, key);
        assert forall|k: FileAttributeId| init.contains(k) implies ks.contains(k) && k.id()
            < last.id() by {
            let i = choose|i: int| 0 <= i < init.len() && init[i] == k;
            assert(ks[i] == k);
            assert(ids(ks)[i] < ids(ks)[ks.len() - 1]);
        }
        assert(ks.contains(last)) by {
            assert(ks[ks.len() - 1] == last);
        }
        if last != key {
            assert forall|a: int, b: int| 0 <= a < b < w.len() implies ids(w)[a] < ids(w)[b] by {
                if b < w0.len() {
                    assert(ids(w0)[a] < ids(w0)[b]);
                } else {
                    assert(init.contains(w0[a]));
                }
            }
        }
        assert forall|k: FileAttributeId| w.to_set().contains(k) <==> ks.to_set().remove(
            key,
        ).contains(k) by {
            if w.contains(k) {
                let i = choose|i: int| 0 <= i < w.len() && w[i] == k;
                if i < w0.len() {
                    assert(w0.contains(k));
                    assert(w0.to_set().contains(k));
                }
            }
            if ks.contains(k) && k != key {
                let i = choose|i: int| 0 <= i < ks.len() && ks[i] == k;
                if i < ks.len() - 1 {
                    assert(init[i] == k);
                    assert(init.to_set().remove(key).contains(k));
                    assert(w0.contains(k));
                    let j = choose|j: int| 0 <= j < w0.len() && w0[j] == k;
                    assert(w[j] == k);
                } else {
                    assert(w[w.len() - 1] == k);
                }
            }
        }
        assert(w.to_set() =~= ks.to_set().remove(key));
        assert forall|i: int| 0 <= i < w.len() implies ks.contains(#[trigger] w[i]) by {
            if i < w0.len() {
                assert(init.contains(w0[i]));
            }
        }
    }
}

} // verus!
