//! The arguments of the operations of a COMPOUND request.

use crate::attr::{FileAttributeId, FileAttributeModel, FileAttributes};
use crate::basic::{
    ChannelAttrs, ChannelAttrsModel, ChannelDirectionFromServer, ClientId, Cookie, DeviceData,
    DeviceId, DeviceIdModel, FileHandle, FileHandleModel, FsId, GssHandle, GssHandleModel, ImplId,
    ImplIdModel, LayoutIoMode, LayoutType, LockType, OpenDelegationType, RpcGssService, SecOid,
    SecOidModel, SequenceId, SessionId, SessionIdModel, SlotId, StableHow, StateId, StateIdModel,
    StateOwner, StateOwnerModel, Time, Util, Verifier,
};
use crate::enum_map::{EnumId, EnumSet};
use crate::flags::{Access, CreateSessionFlags, ExchangeIdFlags, ShareAccess, ShareDeny};
use crate::ops::{OperationId};
use crate::rpc::{AuthSysParameters, AuthSysParametersModel};
use crate::xdr::{
    copy_bytes, decode_opaque, encode_opaque, lemma_concat_assoc, lemma_opaque_round_trip,
    lemma_u32_round_trip, parse_opaque, parse_u32, wf_opaque, wire_opaque, wire_u32, EncodeError,
    Xdr, XdrError,
};
use crate::xdr::Tagged;
use vstd::prelude::*;

verus! {

#[derive(Clone, Debug, PartialEq, Eq)]
pub struct AccessArgs {
    pub access: Access,
}

impl Xdr for AccessArgs {
    type Model = AccessArgs;

    open spec fn model(&self) -> AccessArgs {
        *self
    }

    #[verifier::opaque]
    open spec fn wf(m: AccessArgs) -> bool {
        &&& Access::wf(m.access)
    }

    #[verifier::opaque]
    open spec fn wire(m: AccessArgs) -> Seq<u8> {
        Access::wire(m.access)
    }

    #[verifier::opaque]
    open spec fn parse(s: Seq<u8>) -> Result<(AccessArgs, Seq<u8>), XdrError> {
        match Access::parse(s) {
            Err(e) => Err(e),
            Ok((access, s1)) => Ok((AccessArgs { access }, s1)),
        }
    }

    proof fn lemma_round_trip(m: AccessArgs, rest: Seq<u8>) {
        reveal(<AccessArgs as Xdr>::wf);
        reveal(<AccessArgs as Xdr>::wire);
        reveal(<AccessArgs as Xdr>::parse);
        Access::lemma_round_trip(m.access, rest);
    }

    fn encode(&self, out: &mut Vec<u8>) -> (r: Result<(), EncodeError>) {
        proof {
            reveal(<AccessArgs as Xdr>::wf);
            reveal(<AccessArgs as Xdr>::wire);
        }
        self.access.encode(out)?;
        Ok(())
    }

    fn decode<'a>(input: &'a [u8]) -> (r: Result<(AccessArgs, &'a [u8]), XdrError>) {
        proof {
            reveal(<AccessArgs as Xdr>::parse);
        }
        let (access, cur) = Access::decode(input)?;
        Ok((AccessArgs { access }, cur))
    }
}

#[derive(Clone, Debug, PartialEq, Eq)]
pub struct CloseArgs {
    pub sequence_id: SequenceId,
    pub open_stateid: StateId,
}

/// What a [`CloseArgs`] stands for.
pub struct CloseArgsModel {
    pub sequence_id: SequenceId,
    pub open_stateid: StateIdModel,
}

impl Xdr for CloseArgs {
    type Model = CloseArgsModel;

    #[verifier::opaque]
    open spec fn model(&self) -> CloseArgsModel {
        CloseArgsModel {
            sequence_id: self.sequence_id.model(),
            open_stateid: self.open_stateid.model(),
        }
    }

    #[verifier::opaque]
    open spec fn wf(m: CloseArgsModel) -> bool {
        &&& SequenceId::wf(m.sequence_id)
        &&& StateId::wf(m.open_stateid)
    }

    #[verifier::opaque]
    open spec fn wire(m: CloseArgsModel) -> Seq<u8> {
        SequenceId::wire(m.sequence_id) + StateId::wire(m.open_stateid)
    }

    #[verifier::opaque]
    open spec fn parse(s: Seq<u8>) -> Result<(CloseArgsModel, Seq<u8>), XdrError> {
        match SequenceId::parse(s) {
            Err(e) => Err(e),
            Ok((sequence_id, s1)) => match StateId::parse(s1) {
                Err(e) => Err(e),
                Ok((open_stateid, s2)) => Ok((CloseArgsModel { sequence_id, open_stateid }, s2)),
            },
        }
    }

    proof fn lemma_round_trip(m: CloseArgsModel, rest: Seq<u8>) {
        reveal(<CloseArgs as Xdr>::wf);
        reveal(<CloseArgs as Xdr>::wire);
        reveal(<CloseArgs as Xdr>::parse);
        let w1 = SequenceId::wire(m.sequence_id);
        let w2 = StateId::wire(m.open_stateid);
        let r2 = rest;
        let r1 = w2 + r2;
        lemma_concat_assoc(w1, w2, r2);
        SequenceId::lemma_round_trip(m.sequence_id, r1);
        StateId::lemma_round_trip(m.open_stateid, r2);
    }

    fn encode(&self, out: &mut Vec<u8>) -> (r: Result<(), EncodeError>) {
        proof {
            reveal(<CloseArgs as Xdr>::model);
            reveal(<CloseArgs as Xdr>::wf);
            reveal(<CloseArgs as Xdr>::wire);
        }
        let ghost m = self.model();
        let ghost w1 = SequenceId::wire(m.sequence_id);
        let ghost w2 = StateId::wire(m.open_stateid);
        self.sequence_id.encode(out)?;
        self.open_stateid.encode(out)?;
        proof {
            lemma_concat_assoc(old(out)@, w1, w2);
        }
        Ok(())
    }

    fn decode<'a>(input: &'a [u8]) -> (r: Result<(CloseArgs, &'a [u8]), XdrError>) {
        proof {
            reveal(<CloseArgs as Xdr>::model);
            reveal(<CloseArgs as Xdr>::parse);
        }
        let (sequence_id, cur) = SequenceId::decode(input)?;
        let (open_stateid, cur) = StateId::decode(cur)?;
        Ok((CloseArgs { sequence_id, open_stateid }, cur))
    }
}

#[derive(Clone, Debug, PartialEq, Eq)]
pub struct CommitArgs {
    pub offset: u64,
    pub count: u32,
}

impl Xdr for CommitArgs {
    type Model = CommitArgs;

    open spec fn model(&self) -> CommitArgs {
        *self
    }

    open spec fn wf(m: CommitArgs) -> bool {
        true
    }

    #[verifier::opaque]
    open spec fn wire(m: CommitArgs) -> Seq<u8> {
        u64::wire(m.offset) + u32::wire(m.count)
    }

    #[verifier::opaque]
    open spec fn parse(s: Seq<u8>) -> Result<(CommitArgs, Seq<u8>), XdrError> {
        match u64::parse(s) {
            Err(e) => Err(e),
            Ok((offset, s1)) => match u32::parse(s1) {
                Err(e) => Err(e),
                Ok((count, s2)) => Ok((CommitArgs { offset, count }, s2)),
            },
        }
    }

    proof fn lemma_round_trip(m: CommitArgs, rest: Seq<u8>) {
        reveal(<CommitArgs as Xdr>::wire);
        reveal(<CommitArgs as Xdr>::parse);
        let w1 = u64::wire(m.offset);
        let w2 = u32::wire(m.count);
        let r2 = rest;
        let r1 = w2 + r2;
        lemma_concat_assoc(w1, w2, r2);
        u64::lemma_round_trip(m.offset, r1);
        u32::lemma_round_trip(m.count, r2);
    }

    fn encode(&self, out: &mut Vec<u8>) -> (r: Result<(), EncodeError>) {
        proof {
            reveal(<CommitArgs as Xdr>::wire);
        }
        let ghost m = self.model();
        let ghost w1 = u64::wire(m.offset);
        let ghost w2 = u32::wire(m.count);
        let _ = self.offset.encode(out);
        let _ = self.count.encode(out);
        proof {
            lemma_concat_assoc(old(out)@, w1, w2);
        }
        Ok(())
    }

    fn decode<'a>(input: &'a [u8]) -> (r: Result<(CommitArgs, &'a [u8]), XdrError>) {
        proof {
            reveal(<CommitArgs as Xdr>::parse);
        }
        let (offset, cur) = u64::decode(input)?;
        let (count, cur) = u32::decode(cur)?;
        Ok((CommitArgs { offset, count }, cur))
    }
}

#[derive(Clone, Debug, PartialEq, Eq)]
pub enum CreateType {
    Directory,
    Block,
    Character(DeviceData),
    Link(String),
    Socket,
    Fifo,
}

/// What a [`CreateType`] stands for.
pub enum CreateTypeModel {
    Directory,
    Block,
    Character(DeviceData),
    Link(Seq<char>),
    Socket,
    Fifo,
}

impl CreateType {
    /// The discriminant that leads the encoding of a value.
    pub open spec fn tag(m: CreateTypeModel) -> u32 {
        match m {
            CreateTypeModel::Directory => 2,
            CreateTypeModel::Block => 3,
            CreateTypeModel::Character(..) => 4,
            CreateTypeModel::Link(..) => 5,
            CreateTypeModel::Socket => 6,
            CreateTypeModel::Fifo => 7,
        }
    }

    /// What follows the discriminant in the encoding of a value.
    #[verifier::opaque]
    pub open spec fn wire_payload(m: CreateTypeModel) -> Seq<u8> {
        match m {
            CreateTypeModel::Directory => Seq::<u8>::empty(),
            CreateTypeModel::Block => Seq::<u8>::empty(),
            CreateTypeModel::Character(f0) => DeviceData::wire(f0),
            CreateTypeModel::Link(f0) => String::wire(f0),
            CreateTypeModel::Socket => Seq::<u8>::empty(),
            CreateTypeModel::Fifo => Seq::<u8>::empty(),
        }
    }

    /// The value with the discriminant `tag` whose payload is at the front of `s`.
    #[verifier::opaque]
    pub open spec fn parse_payload(
        tag: u32,
        s: Seq<u8>,
    ) -> Result<(CreateTypeModel, Seq<u8>), XdrError> {
        if tag == 2 {
            Ok((CreateTypeModel::Directory, s))
        } else if tag == 3 {
            Ok((CreateTypeModel::Block, s))
        } else if tag == 4 {
            match DeviceData::parse(s) {
                Err(e) => Err(e),
                Ok((f0, s1)) => Ok((CreateTypeModel::Character(f0), s1)),
            }
        } else if tag == 5 {
            match String::parse(s) {
                Err(e) => Err(e),
                Ok((f0, s1)) => Ok((CreateTypeModel::Link(f0), s1)),
            }
        } else if tag == 6 {
            Ok((CreateTypeModel::Socket, s))
        } else if tag == 7 {
            Ok((CreateTypeModel::Fifo, s))
        } else {
            Err(XdrError::BadDiscriminant("CreateType", tag))
        }
    }

    pub proof fn lemma_payload_round_trip(m: CreateTypeModel, rest: Seq<u8>)
        requires
            <CreateType as Xdr>::wf(m),
        ensures
            Self::parse_payload(Self::tag(m), Self::wire_payload(m) + rest)
                == Ok::<(CreateTypeModel, Seq<u8>), XdrError>((m, rest)),
    {
        reveal(<CreateType as Xdr>::wf);
        reveal(CreateType::wire_payload);
        reveal(CreateType::parse_payload);
        match m {
            CreateTypeModel::Directory => {
                assert(Seq::<u8>::empty() + rest =~= rest);
            },
            CreateTypeModel::Block => {
                assert(Seq::<u8>::empty() + rest =~= rest);
            },
            CreateTypeModel::Character(f0) => {
                DeviceData::lemma_round_trip(f0, rest);
            },
            CreateTypeModel::Link(f0) => {
                String::lemma_round_trip(f0, rest);
            },
            CreateTypeModel::Socket => {
                assert(Seq::<u8>::empty() + rest =~= rest);
            },
            CreateTypeModel::Fifo => {
                assert(Seq::<u8>::empty() + rest =~= rest);
            },
        }
    }

    /// The encoding of a value begins with its discriminant, big-endian.
    pub proof fn lemma_wire_leads_with_tag(m: CreateTypeModel)
        ensures
            <CreateType as Xdr>::wire(m).len() >= 4,
            <CreateType as Xdr>::wire(m).take(4) == wire_u32(Self::tag(m)),
    {
        reveal(<CreateType as Xdr>::wire);
        reveal(wire_u32);
        assert((wire_u32(Self::tag(m)) + Self::wire_payload(m)).take(4) =~= wire_u32(Self::tag(m)));
    }

    /// The discriminant of a value.
    pub fn tag_of(&self) -> (t: u32)
        ensures
            t == Self::tag(self.model()),
    {
        proof {
            reveal(<CreateType as Xdr>::model);
        }
        match self {
            CreateType::Directory => 2,
            CreateType::Block => 3,
            CreateType::Character(..) => 4,
            CreateType::Link(..) => 5,
            CreateType::Socket => 6,
            CreateType::Fifo => 7,
        }
    }

    /// Appends what follows the discriminant in the encoding of `self`.
    pub fn encode_payload(&self, out: &mut Vec<u8>) -> (r: Result<(), EncodeError>)
        ensures
            r is Ok <==> <CreateType as Xdr>::wf(self.model()),
            r is Ok ==> final(out)@ == old(out)@ + Self::wire_payload(self.model()),
    {
        proof {
            reveal(<CreateType as Xdr>::model);
            reveal(<CreateType as Xdr>::wf);
            reveal(CreateType::wire_payload);
        }
        match self {
            CreateType::Directory => {
                assert(out@ =~= old(out)@ + Seq::<u8>::empty());
            },
            CreateType::Block => {
                assert(out@ =~= old(out)@ + Seq::<u8>::empty());
            },
            CreateType::Character(f0) => {
                f0.encode(out)?;
            },
            CreateType::Link(f0) => {
                f0.encode(out)?;
            },
            CreateType::Socket => {
                assert(out@ =~= old(out)@ + Seq::<u8>::empty());
            },
            CreateType::Fifo => {
                assert(out@ =~= old(out)@ + Seq::<u8>::empty());
            },
        }
        Ok(())
    }

    /// Decodes the payload of the value with the discriminant `tag`.
    pub fn decode_payload<'a>(
        tag: u32,
        input: &'a [u8],
    ) -> (r: Result<(CreateType, &'a [u8]), XdrError>)
        ensures
            match r {
                Ok((v, rest)) => {
                    Self::parse_payload(tag, input@)
                        == Ok::<(CreateTypeModel, Seq<u8>), XdrError>((v.model(), rest@))
                },
                Err(e) => {
                    Self::parse_payload(tag, input@)
                        == Err::<(CreateTypeModel, Seq<u8>), XdrError>(e)
                },
            },
    {
        proof {
            reveal(<CreateType as Xdr>::model);
            reveal(CreateType::parse_payload);
        }
        if tag == 2 {
            Ok((CreateType::Directory, input))
        } else if tag == 3 {
            Ok((CreateType::Block, input))
        } else if tag == 4 {
            let (f0, cur) = DeviceData::decode(input)?;
            Ok((CreateType::Character(f0), cur))
        } else if tag == 5 {
            let (f0, cur) = String::decode(input)?;
            Ok((CreateType::Link(f0), cur))
        } else if tag == 6 {
            Ok((CreateType::Socket, input))
        } else if tag == 7 {
            Ok((CreateType::Fifo, input))
        } else {
            Err(XdrError::BadDiscriminant("CreateType", tag))
        }
    }
}

impl Xdr for CreateType {
    type Model = CreateTypeModel;

    #[verifier::opaque]
    open spec fn model(&self) -> CreateTypeModel {
        match self {
            CreateType::Directory => CreateTypeModel::Directory,
            CreateType::Block => CreateTypeModel::Block,
            CreateType::Character(f0) => CreateTypeModel::Character(f0.model()),
            CreateType::Link(f0) => CreateTypeModel::Link(f0.model()),
            CreateType::Socket => CreateTypeModel::Socket,
            CreateType::Fifo => CreateTypeModel::Fifo,
        }
    }

    #[verifier::opaque]
    open spec fn wf(m: CreateTypeModel) -> bool {
        match m {
            CreateTypeModel::Directory => true,
            CreateTypeModel::Block => true,
            CreateTypeModel::Character(f0) => DeviceData::wf(f0),
            CreateTypeModel::Link(f0) => String::wf(f0),
            CreateTypeModel::Socket => true,
            CreateTypeModel::Fifo => true,
        }
    }

    #[verifier::opaque]
    open spec fn wire(m: CreateTypeModel) -> Seq<u8> {
        wire_u32(Self::tag(m)) + Self::wire_payload(m)
    }

    #[verifier::opaque]
    open spec fn parse(s: Seq<u8>) -> Result<(CreateTypeModel, Seq<u8>), XdrError> {
        match parse_u32(s) {
            Ok((tag, r)) => Self::parse_payload(tag, r),
            Err(e) => Err(e),
        }
    }

    proof fn lemma_round_trip(m: CreateTypeModel, rest: Seq<u8>) {
        reveal(<CreateType as Xdr>::wire);
        reveal(<CreateType as Xdr>::parse);
        lemma_concat_assoc(wire_u32(Self::tag(m)), Self::wire_payload(m), rest);
        lemma_u32_round_trip(Self::tag(m), Self::wire_payload(m) + rest);
        Self::lemma_payload_round_trip(m, rest);
    }

    fn encode(&self, out: &mut Vec<u8>) -> (r: Result<(), EncodeError>) {
        proof {
            reveal(<CreateType as Xdr>::wire);
        }
        let tag = self.tag_of();
        let _ = tag.encode(out);
        self.encode_payload(out)?;
        proof {
            lemma_concat_assoc(old(out)@, wire_u32(tag), Self::wire_payload(self.model()));
        }
        Ok(())
    }

    fn decode<'a>(input: &'a [u8]) -> (r: Result<(CreateType, &'a [u8]), XdrError>) {
        proof {
            reveal(<CreateType as Xdr>::parse);
        }
        let (tag, cur) = u32::decode(input)?;
        Self::decode_payload(tag, cur)
    }
}

#[derive(Clone, Debug, PartialEq, Eq)]
pub struct CreateArgs {
    pub object_type: CreateType,
    pub object_name: String,
    pub create_attrs: FileAttributes,
}

/// What a [`CreateArgs`] stands for.
pub struct CreateArgsModel {
    pub object_type: CreateTypeModel,
    pub object_name: Seq<char>,
    pub create_attrs: Seq<FileAttributeModel>,
}

impl Xdr for CreateArgs {
    type Model = CreateArgsModel;

    #[verifier::opaque]
    open spec fn model(&self) -> CreateArgsModel {
        CreateArgsModel {
            object_type: self.object_type.model(),
            object_name: self.object_name.model(),
            create_attrs: self.create_attrs.model(),
        }
    }

    #[verifier::opaque]
    open spec fn wf(m: CreateArgsModel) -> bool {
        &&& CreateType::wf(m.object_type)
        &&& String::wf(m.object_name)
        &&& FileAttributes::wf(m.create_attrs)
    }

    #[verifier::opaque]
    open spec fn wire(m: CreateArgsModel) -> Seq<u8> {
        CreateType::wire(m.object_type)
            + String::wire(m.object_name)
            + FileAttributes::wire(m.create_attrs)
    }

    #[verifier::opaque]
    open spec fn parse(s: Seq<u8>) -> Result<(CreateArgsModel, Seq<u8>), XdrError> {
        match CreateType::parse(s) {
            Err(e) => Err(e),
            Ok((object_type, s1)) => match String::parse(s1) {
                Err(e) => Err(e),
                Ok((object_name, s2)) => match FileAttributes::parse(s2) {
                    Err(e) => Err(e),
                    Ok((create_attrs, s3)) => {
                        Ok((CreateArgsModel { object_type, object_name, create_attrs }, s3))
                    },
                },
            },
        }
    }

    proof fn lemma_round_trip(m: CreateArgsModel, rest: Seq<u8>) {
        reveal(<CreateArgs as Xdr>::wf);
        reveal(<CreateArgs as Xdr>::wire);
        reveal(<CreateArgs as Xdr>::parse);
        let w1 = CreateType::wire(m.object_type);
        let w2 = String::wire(m.object_name);
        let w3 = FileAttributes::wire(m.create_attrs);
        let r3 = rest;
        let r2 = w3 + r3;
        let r1 = w2 + r2;
        lemma_concat_assoc(w1 + w2, w3, r3);
        lemma_concat_assoc(w1, w2, r2);
        CreateType::lemma_round_trip(m.object_type, r1);
        String::lemma_round_trip(m.object_name, r2);
        FileAttributes::lemma_round_trip(m.create_attrs, r3);
    }

    fn encode(&self, out: &mut Vec<u8>) -> (r: Result<(), EncodeError>) {
        proof {
            reveal(<CreateArgs as Xdr>::model);
            reveal(<CreateArgs as Xdr>::wf);
            reveal(<CreateArgs as Xdr>::wire);
        }
        let ghost m = self.model();
        let ghost w1 = CreateType::wire(m.object_type);
        let ghost w2 = String::wire(m.object_name);
        let ghost w3 = FileAttributes::wire(m.create_attrs);
        self.object_type.encode(out)?;
        self.object_name.encode(out)?;
        proof {
            lemma_concat_assoc(old(out)@, w1, w2);
        }
        self.create_attrs.encode(out)?;
        proof {
            lemma_concat_assoc(old(out)@, w1 + w2, w3);
        }
        Ok(())
    }

    fn decode<'a>(input: &'a [u8]) -> (r: Result<(CreateArgs, &'a [u8]), XdrError>) {
        proof {
            reveal(<CreateArgs as Xdr>::model);
            reveal(<CreateArgs as Xdr>::parse);
        }
        let (object_type, cur) = CreateType::decode(input)?;
        let (object_name, cur) = String::decode(cur)?;
        let (create_attrs, cur) = FileAttributes::decode(cur)?;
        Ok((CreateArgs { object_type, object_name, create_attrs }, cur))
    }
}

#[derive(Clone, Debug, PartialEq, Eq)]
pub struct DelegPurgeArgs {
    pub client_id: ClientId,
}

impl Xdr for DelegPurgeArgs {
    type Model = DelegPurgeArgs;

    open spec fn model(&self) -> DelegPurgeArgs {
        *self
    }

    #[verifier::opaque]
    open spec fn wf(m: DelegPurgeArgs) -> bool {
        &&& ClientId::wf(m.client_id)
    }

    #[verifier::opaque]
    open spec fn wire(m: DelegPurgeArgs) -> Seq<u8> {
        ClientId::wire(m.client_id)
    }

    #[verifier::opaque]
    open spec fn parse(s: Seq<u8>) -> Result<(DelegPurgeArgs, Seq<u8>), XdrError> {
        match ClientId::parse(s) {
            Err(e) => Err(e),
            Ok((client_id, s1)) => Ok((DelegPurgeArgs { client_id }, s1)),
        }
    }

    proof fn lemma_round_trip(m: DelegPurgeArgs, rest: Seq<u8>) {
        reveal(<DelegPurgeArgs as Xdr>::wf);
        reveal(<DelegPurgeArgs as Xdr>::wire);
        reveal(<DelegPurgeArgs as Xdr>::parse);
        ClientId::lemma_round_trip(m.client_id, rest);
    }

    fn encode(&self, out: &mut Vec<u8>) -> (r: Result<(), EncodeError>) {
        proof {
            reveal(<DelegPurgeArgs as Xdr>::wf);
            reveal(<DelegPurgeArgs as Xdr>::wire);
        }
        self.client_id.encode(out)?;
        Ok(())
    }

    fn decode<'a>(input: &'a [u8]) -> (r: Result<(DelegPurgeArgs, &'a [u8]), XdrError>) {
        proof {
            reveal(<DelegPurgeArgs as Xdr>::parse);
        }
        let (client_id, cur) = ClientId::decode(input)?;
        Ok((DelegPurgeArgs { client_id }, cur))
    }
}

#[derive(Clone, Debug, PartialEq, Eq)]
pub struct DelegReturnArgs {
    pub state_id: StateId,
}

/// What a [`DelegReturnArgs`] stands for.
pub struct DelegReturnArgsModel {
    pub state_id: StateIdModel,
}

impl Xdr for DelegReturnArgs {
    type Model = DelegReturnArgsModel;

    #[verifier::opaque]
    open spec fn model(&self) -> DelegReturnArgsModel {
        DelegReturnArgsModel { state_id: self.state_id.model() }
    }

    #[verifier::opaque]
    open spec fn wf(m: DelegReturnArgsModel) -> bool {
        &&& StateId::wf(m.state_id)
    }

    #[verifier::opaque]
    open spec fn wire(m: DelegReturnArgsModel) -> Seq<u8> {
        StateId::wire(m.state_id)
    }

    #[verifier::opaque]
    open spec fn parse(s: Seq<u8>) -> Result<(DelegReturnArgsModel, Seq<u8>), XdrError> {
        match StateId::parse(s) {
            Err(e) => Err(e),
            Ok((state_id, s1)) => Ok((DelegReturnArgsModel { state_id }, s1)),
        }
    }

    proof fn lemma_round_trip(m: DelegReturnArgsModel, rest: Seq<u8>) {
        reveal(<DelegReturnArgs as Xdr>::wf);
        reveal(<DelegReturnArgs as Xdr>::wire);
        reveal(<DelegReturnArgs as Xdr>::parse);
        StateId::lemma_round_trip(m.state_id, rest);
    }

    fn encode(&self, out: &mut Vec<u8>) -> (r: Result<(), EncodeError>) {
        proof {
            reveal(<DelegReturnArgs as Xdr>::model);
            reveal(<DelegReturnArgs as Xdr>::wf);
            reveal(<DelegReturnArgs as Xdr>::wire);
        }
        self.state_id.encode(out)?;
        Ok(())
    }

    fn decode<'a>(input: &'a [u8]) -> (r: Result<(DelegReturnArgs, &'a [u8]), XdrError>) {
        proof {
            reveal(<DelegReturnArgs as Xdr>::model);
            reveal(<DelegReturnArgs as Xdr>::parse);
        }
        let (state_id, cur) = StateId::decode(input)?;
        Ok((DelegReturnArgs { state_id }, cur))
    }
}

#[derive(Clone, Debug, PartialEq, Eq)]
pub struct GetAttrArgs {
    pub attr_request: EnumSet<FileAttributeId>,
}

/// What a [`GetAttrArgs`] stands for.
pub struct GetAttrArgsModel {
    pub attr_request: Seq<FileAttributeId>,
}

impl Xdr for GetAttrArgs {
    type Model = GetAttrArgsModel;

    #[verifier::opaque]
    open spec fn model(&self) -> GetAttrArgsModel {
        GetAttrArgsModel { attr_request: self.attr_request.model() }
    }

    #[verifier::opaque]
    open spec fn wf(m: GetAttrArgsModel) -> bool {
        &&& EnumSet::<FileAttributeId>::wf(m.attr_request)
    }

    #[verifier::opaque]
    open spec fn wire(m: GetAttrArgsModel) -> Seq<u8> {
        EnumSet::<FileAttributeId>::wire(m.attr_request)
    }

    #[verifier::opaque]
    open spec fn parse(s: Seq<u8>) -> Result<(GetAttrArgsModel, Seq<u8>), XdrError> {
        match EnumSet::<FileAttributeId>::parse(s) {
            Err(e) => Err(e),
            Ok((attr_request, s1)) => Ok((GetAttrArgsModel { attr_request }, s1)),
        }
    }

    proof fn lemma_round_trip(m: GetAttrArgsModel, rest: Seq<u8>) {
        reveal(<GetAttrArgs as Xdr>::wf);
        reveal(<GetAttrArgs as Xdr>::wire);
        reveal(<GetAttrArgs as Xdr>::parse);
        EnumSet::<FileAttributeId>::lemma_round_trip(m.attr_request, rest);
    }

    fn encode(&self, out: &mut Vec<u8>) -> (r: Result<(), EncodeError>) {
        proof {
            reveal(<GetAttrArgs as Xdr>::model);
            reveal(<GetAttrArgs as Xdr>::wf);
            reveal(<GetAttrArgs as Xdr>::wire);
        }
        self.attr_request.encode(out)?;
        Ok(())
    }

    fn decode<'a>(input: &'a [u8]) -> (r: Result<(GetAttrArgs, &'a [u8]), XdrError>) {
        proof {
            reveal(<GetAttrArgs as Xdr>::model);
            reveal(<GetAttrArgs as Xdr>::parse);
        }
        let (attr_request, cur) = EnumSet::<FileAttributeId>::decode(input)?;
        Ok((GetAttrArgs { attr_request }, cur))
    }
}

#[derive(Clone, Debug, PartialEq, Eq)]
pub struct LinkArgs {
    pub new_name: String,
}

/// What a [`LinkArgs`] stands for.
pub struct LinkArgsModel {
    pub new_name: Seq<char>,
}

impl Xdr for LinkArgs {
    type Model = LinkArgsModel;

    #[verifier::opaque]
    open spec fn model(&self) -> LinkArgsModel {
        LinkArgsModel { new_name: self.new_name.model() }
    }

    #[verifier::opaque]
    open spec fn wf(m: LinkArgsModel) -> bool {
        &&& String::wf(m.new_name)
    }

    #[verifier::opaque]
    open spec fn wire(m: LinkArgsModel) -> Seq<u8> {
        String::wire(m.new_name)
    }

    #[verifier::opaque]
    open spec fn parse(s: Seq<u8>) -> Result<(LinkArgsModel, Seq<u8>), XdrError> {
        match String::parse(s) {
            Err(e) => Err(e),
            Ok((new_name, s1)) => Ok((LinkArgsModel { new_name }, s1)),
        }
    }

    proof fn lemma_round_trip(m: LinkArgsModel, rest: Seq<u8>) {
        reveal(<LinkArgs as Xdr>::wf);
        reveal(<LinkArgs as Xdr>::wire);
        reveal(<LinkArgs as Xdr>::parse);
        String::lemma_round_trip(m.new_name, rest);
    }

    fn encode(&self, out: &mut Vec<u8>) -> (r: Result<(), EncodeError>) {
        proof {
            reveal(<LinkArgs as Xdr>::model);
            reveal(<LinkArgs as Xdr>::wf);
            reveal(<LinkArgs as Xdr>::wire);
        }
        self.new_name.encode(out)?;
        Ok(())
    }

    fn decode<'a>(input: &'a [u8]) -> (r: Result<(LinkArgs, &'a [u8]), XdrError>) {
        proof {
            reveal(<LinkArgs as Xdr>::model);
            reveal(<LinkArgs as Xdr>::parse);
        }
        let (new_name, cur) = String::decode(input)?;
        Ok((LinkArgs { new_name }, cur))
    }
}

#[derive(Clone, Debug, PartialEq, Eq)]
pub struct OpenToLockOwner {
    pub open_sequence_id: SequenceId,
    pub open_state_id: StateId,
    pub lock_sequence_id: SequenceId,
    pub lock_owner: StateOwner,
}

/// What a [`OpenToLockOwner`] stands for.
pub struct OpenToLockOwnerModel {
    pub open_sequence_id: SequenceId,
    pub open_state_id: StateIdModel,
    pub lock_sequence_id: SequenceId,
    pub lock_owner: StateOwnerModel,
}

impl Xdr for OpenToLockOwner {
    type Model = OpenToLockOwnerModel;

    #[verifier::opaque]
    open spec fn model(&self) -> OpenToLockOwnerModel {
        OpenToLockOwnerModel {
            open_sequence_id: self.open_sequence_id.model(),
            open_state_id: self.open_state_id.model(),
            lock_sequence_id: self.lock_sequence_id.model(),
            lock_owner: self.lock_owner.model(),
        }
    }

    #[verifier::opaque]
    open spec fn wf(m: OpenToLockOwnerModel) -> bool {
        &&& SequenceId::wf(m.open_sequence_id)
        &&& StateId::wf(m.open_state_id)
        &&& SequenceId::wf(m.lock_sequence_id)
        &&& StateOwner::wf(m.lock_owner)
    }

    #[verifier::opaque]
    open spec fn wire(m: OpenToLockOwnerModel) -> Seq<u8> {
        SequenceId::wire(m.open_sequence_id)
            + StateId::wire(m.open_state_id)
            + SequenceId::wire(m.lock_sequence_id)
            + StateOwner::wire(m.lock_owner)
    }

    #[verifier::opaque]
    open spec fn parse(s: Seq<u8>) -> Result<(OpenToLockOwnerModel, Seq<u8>), XdrError> {
        match SequenceId::parse(s) {
            Err(e) => Err(e),
            Ok((open_sequence_id, s1)) => match StateId::parse(s1) {
                Err(e) => Err(e),
                Ok((open_state_id, s2)) => match SequenceId::parse(s2) {
                    Err(e) => Err(e),
                    Ok((lock_sequence_id, s3)) => match StateOwner::parse(s3) {
                        Err(e) => Err(e),
                        Ok((lock_owner, s4)) => {
                            Ok(
                                (
                                    OpenToLockOwnerModel {
                                        open_sequence_id,
                                        open_state_id,
                                        lock_sequence_id,
                                        lock_owner,
                                    },
                                    s4,
                                ),
                            )
                        },
                    },
                },
            },
        }
    }

    proof fn lemma_round_trip(m: OpenToLockOwnerModel, rest: Seq<u8>) {
        reveal(<OpenToLockOwner as Xdr>::wf);
        reveal(<OpenToLockOwner as Xdr>::wire);
        reveal(<OpenToLockOwner as Xdr>::parse);
        let w1 = SequenceId::wire(m.open_sequence_id);
        let w2 = StateId::wire(m.open_state_id);
        let w3 = SequenceId::wire(m.lock_sequence_id);
        let w4 = StateOwner::wire(m.lock_owner);
        let r4 = rest;
        let r3 = w4 + r4;
        let r2 = w3 + r3;
        let r1 = w2 + r2;
        lemma_concat_assoc(w1 + w2 + w3, w4, r4);
        lemma_concat_assoc(w1 + w2, w3, r3);
        lemma_concat_assoc(w1, w2, r2);
        SequenceId::lemma_round_trip(m.open_sequence_id, r1);
        StateId::lemma_round_trip(m.open_state_id, r2);
        SequenceId::lemma_round_trip(m.lock_sequence_id, r3);
        StateOwner::lemma_round_trip(m.lock_owner, r4);
    }

    fn encode(&self, out: &mut Vec<u8>) -> (r: Result<(), EncodeError>) {
        proof {
            reveal(<OpenToLockOwner as Xdr>::model);
            reveal(<OpenToLockOwner as Xdr>::wf);
            reveal(<OpenToLockOwner as Xdr>::wire);
        }
        let ghost m = self.model();
        let ghost w1 = SequenceId::wire(m.open_sequence_id);
        let ghost w2 = StateId::wire(m.open_state_id);
        let ghost w3 = SequenceId::wire(m.lock_sequence_id);
        let ghost w4 = StateOwner::wire(m.lock_owner);
        self.open_sequence_id.encode(out)?;
        self.open_state_id.encode(out)?;
        proof {
            lemma_concat_assoc(old(out)@, w1, w2);
        }
        self.lock_sequence_id.encode(out)?;
        proof {
            lemma_concat_assoc(old(out)@, w1 + w2, w3);
        }
        self.lock_owner.encode(out)?;
        proof {
            lemma_concat_assoc(old(out)@, w1 + w2 + w3, w4);
        }
        Ok(())
    }

    fn decode<'a>(input: &'a [u8]) -> (r: Result<(OpenToLockOwner, &'a [u8]), XdrError>) {
        proof {
            reveal(<OpenToLockOwner as Xdr>::model);
            reveal(<OpenToLockOwner as Xdr>::parse);
        }
        let (open_sequence_id, cur) = SequenceId::decode(input)?;
        let (open_state_id, cur) = StateId::decode(cur)?;
        let (lock_sequence_id, cur) = SequenceId::decode(cur)?;
        let (lock_owner, cur) = StateOwner::decode(cur)?;
        Ok((OpenToLockOwner { open_sequence_id, open_state_id, lock_sequence_id, lock_owner }, cur))
    }
}

#[derive(Clone, Debug, PartialEq, Eq)]
pub struct ExistingLockOwner {
    pub lock_state_id: StateId,
    pub lock_sequence_id: SequenceId,
}

/// What a [`ExistingLockOwner`] stands for.
pub struct ExistingLockOwnerModel {
    pub lock_state_id: StateIdModel,
    pub lock_sequence_id: SequenceId,
}

impl Xdr for ExistingLockOwner {
    type Model = ExistingLockOwnerModel;

    #[verifier::opaque]
    open spec fn model(&self) -> ExistingLockOwnerModel {
        ExistingLockOwnerModel {
            lock_state_id: self.lock_state_id.model(),
            lock_sequence_id: self.lock_sequence_id.model(),
        }
    }

    #[verifier::opaque]
    open spec fn wf(m: ExistingLockOwnerModel) -> bool {
        &&& StateId::wf(m.lock_state_id)
        &&& SequenceId::wf(m.lock_sequence_id)
    }

    #[verifier::opaque]
    open spec fn wire(m: ExistingLockOwnerModel) -> Seq<u8> {
        StateId::wire(m.lock_state_id) + SequenceId::wire(m.lock_sequence_id)
    }

    #[verifier::opaque]
    open spec fn parse(s: Seq<u8>) -> Result<(ExistingLockOwnerModel, Seq<u8>), XdrError> {
        match StateId::parse(s) {
            Err(e) => Err(e),
            Ok((lock_state_id, s1)) => match SequenceId::parse(s1) {
                Err(e) => Err(e),
                Ok((lock_sequence_id, s2)) => {
                    Ok((ExistingLockOwnerModel { lock_state_id, lock_sequence_id }, s2))
                },
            },
        }
    }

    proof fn lemma_round_trip(m: ExistingLockOwnerModel, rest: Seq<u8>) {
        reveal(<ExistingLockOwner as Xdr>::wf);
        reveal(<ExistingLockOwner as Xdr>::wire);
        reveal(<ExistingLockOwner as Xdr>::parse);
        let w1 = StateId::wire(m.lock_state_id);
        let w2 = SequenceId::wire(m.lock_sequence_id);
        let r2 = rest;
        let r1 = w2 + r2;
        lemma_concat_assoc(w1, w2, r2);
        StateId::lemma_round_trip(m.lock_state_id, r1);
        SequenceId::lemma_round_trip(m.lock_sequence_id, r2);
    }

    fn encode(&self, out: &mut Vec<u8>) -> (r: Result<(), EncodeError>) {
        proof {
            reveal(<ExistingLockOwner as Xdr>::model);
            reveal(<ExistingLockOwner as Xdr>::wf);
            reveal(<ExistingLockOwner as Xdr>::wire);
        }
        let ghost m = self.model();
        let ghost w1 = StateId::wire(m.lock_state_id);
        let ghost w2 = SequenceId::wire(m.lock_sequence_id);
        self.lock_state_id.encode(out)?;
        self.lock_sequence_id.encode(out)?;
        proof {
            lemma_concat_assoc(old(out)@, w1, w2);
        }
        Ok(())
    }

    fn decode<'a>(input: &'a [u8]) -> (r: Result<(ExistingLockOwner, &'a [u8]), XdrError>) {
        proof {
            reveal(<ExistingLockOwner as Xdr>::model);
            reveal(<ExistingLockOwner as Xdr>::parse);
        }
        let (lock_state_id, cur) = StateId::decode(input)?;
        let (lock_sequence_id, cur) = SequenceId::decode(cur)?;
        Ok((ExistingLockOwner { lock_state_id, lock_sequence_id }, cur))
    }
}

#[derive(Clone, Debug, PartialEq, Eq)]
pub enum Locker {
    NewLockOwner(OpenToLockOwner),
    ExistingLockOwner(ExistingLockOwner),
}

/// What a [`Locker`] stands for.
pub enum LockerModel {
    NewLockOwner(OpenToLockOwnerModel),
    ExistingLockOwner(ExistingLockOwnerModel),
}

impl Locker {
    /// The discriminant that leads the encoding of a value.
    pub open spec fn tag(m: LockerModel) -> u32 {
        match m {
            LockerModel::NewLockOwner(..) => 1,
            LockerModel::ExistingLockOwner(..) => 0,
        }
    }

    /// What follows the discriminant in the encoding of a value.
    #[verifier::opaque]
    pub open spec fn wire_payload(m: LockerModel) -> Seq<u8> {
        match m {
            LockerModel::NewLockOwner(f0) => OpenToLockOwner::wire(f0),
            LockerModel::ExistingLockOwner(f0) => ExistingLockOwner::wire(f0),
        }
    }

    /// The value with the discriminant `tag` whose payload is at the front of `s`.
    #[verifier::opaque]
    pub open spec fn parse_payload(
        tag: u32,
        s: Seq<u8>,
    ) -> Result<(LockerModel, Seq<u8>), XdrError> {
        if tag == 1 {
            match OpenToLockOwner::parse(s) {
                Err(e) => Err(e),
                Ok((f0, s1)) => Ok((LockerModel::NewLockOwner(f0), s1)),
            }
        } else if tag == 0 {
            match ExistingLockOwner::parse(s) {
                Err(e) => Err(e),
                Ok((f0, s1)) => Ok((LockerModel::ExistingLockOwner(f0), s1)),
            }
        } else {
            Err(XdrError::BadDiscriminant("Locker", tag))
        }
    }

    pub proof fn lemma_payload_round_trip(m: LockerModel, rest: Seq<u8>)
        requires
            <Locker as Xdr>::wf(m),
        ensures
            Self::parse_payload(Self::tag(m), Self::wire_payload(m) + rest)
                == Ok::<(LockerModel, Seq<u8>), XdrError>((m, rest)),
    {
        reveal(<Locker as Xdr>::wf);
        reveal(Locker::wire_payload);
        reveal(Locker::parse_payload);
        match m {
            LockerModel::NewLockOwner(f0) => {
                OpenToLockOwner::lemma_round_trip(f0, rest);
            },
            LockerModel::ExistingLockOwner(f0) => {
                ExistingLockOwner::lemma_round_trip(f0, rest);
            },
        }
    }

    /// The encoding of a value begins with its discriminant, big-endian.
    pub proof fn lemma_wire_leads_with_tag(m: LockerModel)
        ensures
            <Locker as Xdr>::wire(m).len() >= 4,
            <Locker as Xdr>::wire(m).take(4) == wire_u32(Self::tag(m)),
    {
        reveal(<Locker as Xdr>::wire);
        reveal(wire_u32);
        assert((wire_u32(Self::tag(m)) + Self::wire_payload(m)).take(4) =~= wire_u32(Self::tag(m)));
    }

    /// The discriminant of a value.
    pub fn tag_of(&self) -> (t: u32)
        ensures
            t == Self::tag(self.model()),
    {
        proof {
            reveal(<Locker as Xdr>::model);
        }
        match self {
            Locker::NewLockOwner(..) => 1,
            Locker::ExistingLockOwner(..) => 0,
        }
    }

    /// Appends what follows the discriminant in the encoding of `self`.
    pub fn encode_payload(&self, out: &mut Vec<u8>) -> (r: Result<(), EncodeError>)
        ensures
            r is Ok <==> <Locker as Xdr>::wf(self.model()),
            r is Ok ==> final(out)@ == old(out)@ + Self::wire_payload(self.model()),
    {
        proof {
            reveal(<Locker as Xdr>::model);
            reveal(<Locker as Xdr>::wf);
            reveal(Locker::wire_payload);
        }
        match self {
            Locker::NewLockOwner(f0) => {
                f0.encode(out)?;
            },
            Locker::ExistingLockOwner(f0) => {
                f0.encode(out)?;
            },
        }
        Ok(())
    }

    /// Decodes the payload of the value with the discriminant `tag`.
    pub fn decode_payload<'a>(
        tag: u32,
        input: &'a [u8],
    ) -> (r: Result<(Locker, &'a [u8]), XdrError>)
        ensures
            match r {
                Ok((v, rest)) => {
                    Self::parse_payload(tag, input@)
                        == Ok::<(LockerModel, Seq<u8>), XdrError>((v.model(), rest@))
                },
                Err(e) => {
                    Self::parse_payload(tag, input@) == Err::<(LockerModel, Seq<u8>), XdrError>(e)
                },
            },
    {
        proof {
            reveal(<Locker as Xdr>::model);
            reveal(Locker::parse_payload);
        }
        if tag == 1 {
            let (f0, cur) = OpenToLockOwner::decode(input)?;
            Ok((Locker::NewLockOwner(f0), cur))
        } else if tag == 0 {
            let (f0, cur) = ExistingLockOwner::decode(input)?;
            Ok((Locker::ExistingLockOwner(f0), cur))
        } else {
            Err(XdrError::BadDiscriminant("Locker", tag))
        }
    }
}

impl Xdr for Locker {
    type Model = LockerModel;

    #[verifier::opaque]
    open spec fn model(&self) -> LockerModel {
        match self {
            Locker::NewLockOwner(f0) => LockerModel::NewLockOwner(f0.model()),
            Locker::ExistingLockOwner(f0) => LockerModel::ExistingLockOwner(f0.model()),
        }
    }

    #[verifier::opaque]
    open spec fn wf(m: LockerModel) -> bool {
        match m {
            LockerModel::NewLockOwner(f0) => OpenToLockOwner::wf(f0),
            LockerModel::ExistingLockOwner(f0) => ExistingLockOwner::wf(f0),
        }
    }

    #[verifier::opaque]
    open spec fn wire(m: LockerModel) -> Seq<u8> {
        wire_u32(Self::tag(m)) + Self::wire_payload(m)
    }

    #[verifier::opaque]
    open spec fn parse(s: Seq<u8>) -> Result<(LockerModel, Seq<u8>), XdrError> {
        match parse_u32(s) {
            Ok((tag, r)) => Self::parse_payload(tag, r),
            Err(e) => Err(e),
        }
    }

    proof fn lemma_round_trip(m: LockerModel, rest: Seq<u8>) {
        reveal(<Locker as Xdr>::wire);
        reveal(<Locker as Xdr>::parse);
        lemma_concat_assoc(wire_u32(Self::tag(m)), Self::wire_payload(m), rest);
        lemma_u32_round_trip(Self::tag(m), Self::wire_payload(m) + rest);
        Self::lemma_payload_round_trip(m, rest);
    }

    fn encode(&self, out: &mut Vec<u8>) -> (r: Result<(), EncodeError>) {
        proof {
            reveal(<Locker as Xdr>::wire);
        }
        let tag = self.tag_of();
        let _ = tag.encode(out);
        self.encode_payload(out)?;
        proof {
            lemma_concat_assoc(old(out)@, wire_u32(tag), Self::wire_payload(self.model()));
        }
        Ok(())
    }

    fn decode<'a>(input: &'a [u8]) -> (r: Result<(Locker, &'a [u8]), XdrError>) {
        proof {
            reveal(<Locker as Xdr>::parse);
        }
        let (tag, cur) = u32::decode(input)?;
        Self::decode_payload(tag, cur)
    }
}

#[derive(Clone, Debug, PartialEq, Eq)]
pub struct LockArgs {
    pub lock_type: LockType,
    pub reclaim: bool,
    pub offset: u64,
    pub length: u64,
    pub locker: Locker,
}

/// What a [`LockArgs`] stands for.
pub struct LockArgsModel {
    pub lock_type: LockType,
    pub reclaim: bool,
    pub offset: u64,
    pub length: u64,
    pub locker: LockerModel,
}

impl Xdr for LockArgs {
    type Model = LockArgsModel;

    #[verifier::opaque]
    open spec fn model(&self) -> LockArgsModel {
        LockArgsModel {
            lock_type: self.lock_type.model(),
            reclaim: self.reclaim.model(),
            offset: self.offset.model(),
            length: self.length.model(),
            locker: self.locker.model(),
        }
    }

    #[verifier::opaque]
    open spec fn wf(m: LockArgsModel) -> bool {
        &&& LockType::wf(m.lock_type)
        &&& Locker::wf(m.locker)
    }

    #[verifier::opaque]
    open spec fn wire(m: LockArgsModel) -> Seq<u8> {
        LockType::wire(m.lock_type)
            + bool::wire(m.reclaim)
            + u64::wire(m.offset)
            + u64::wire(m.length)
            + Locker::wire(m.locker)
    }

    #[verifier::opaque]
    open spec fn parse(s: Seq<u8>) -> Result<(LockArgsModel, Seq<u8>), XdrError> {
        match LockType::parse(s) {
            Err(e) => Err(e),
            Ok((lock_type, s1)) => match bool::parse(s1) {
                Err(e) => Err(e),
                Ok((reclaim, s2)) => match u64::parse(s2) {
                    Err(e) => Err(e),
                    Ok((offset, s3)) => match u64::parse(s3) {
                        Err(e) => Err(e),
                        Ok((length, s4)) => match Locker::parse(s4) {
                            Err(e) => Err(e),
                            Ok((locker, s5)) => {
                                Ok(
                                    (
                                        LockArgsModel {
                                            lock_type,
                                            reclaim,
                                            offset,
                                            length,
                                            locker,
                                        },
                                        s5,
                                    ),
                                )
                            },
                        },
                    },
                },
            },
        }
    }

    proof fn lemma_round_trip(m: LockArgsModel, rest: Seq<u8>) {
        reveal(<LockArgs as Xdr>::wf);
        reveal(<LockArgs as Xdr>::wire);
        reveal(<LockArgs as Xdr>::parse);
        let w1 = LockType::wire(m.lock_type);
        let w2 = bool::wire(m.reclaim);
        let w3 = u64::wire(m.offset);
        let w4 = u64::wire(m.length);
        let w5 = Locker::wire(m.locker);
        let r5 = rest;
        let r4 = w5 + r5;
        let r3 = w4 + r4;
        let r2 = w3 + r3;
        let r1 = w2 + r2;
        lemma_concat_assoc(w1 + w2 + w3 + w4, w5, r5);
        lemma_concat_assoc(w1 + w2 + w3, w4, r4);
        lemma_concat_assoc(w1 + w2, w3, r3);
        lemma_concat_assoc(w1, w2, r2);
        LockType::lemma_round_trip(m.lock_type, r1);
        bool::lemma_round_trip(m.reclaim, r2);
        u64::lemma_round_trip(m.offset, r3);
        u64::lemma_round_trip(m.length, r4);
        Locker::lemma_round_trip(m.locker, r5);
    }

    fn encode(&self, out: &mut Vec<u8>) -> (r: Result<(), EncodeError>) {
        proof {
            reveal(<LockArgs as Xdr>::model);
            reveal(<LockArgs as Xdr>::wf);
            reveal(<LockArgs as Xdr>::wire);
        }
        let ghost m = self.model();
        let ghost w1 = LockType::wire(m.lock_type);
        let ghost w2 = bool::wire(m.reclaim);
        let ghost w3 = u64::wire(m.offset);
        let ghost w4 = u64::wire(m.length);
        let ghost w5 = Locker::wire(m.locker);
        self.lock_type.encode(out)?;
        let _ = self.reclaim.encode(out);
        proof {
            lemma_concat_assoc(old(out)@, w1, w2);
        }
        let _ = self.offset.encode(out);
        proof {
            lemma_concat_assoc(old(out)@, w1 + w2, w3);
        }
        let _ = self.length.encode(out);
        proof {
            lemma_concat_assoc(old(out)@, w1 + w2 + w3, w4);
        }
        self.locker.encode(out)?;
        proof {
            lemma_concat_assoc(old(out)@, w1 + w2 + w3 + w4, w5);
        }
        Ok(())
    }

    fn decode<'a>(input: &'a [u8]) -> (r: Result<(LockArgs, &'a [u8]), XdrError>) {
        proof {
            reveal(<LockArgs as Xdr>::model);
            reveal(<LockArgs as Xdr>::parse);
        }
        let (lock_type, cur) = LockType::decode(input)?;
        let (reclaim, cur) = bool::decode(cur)?;
        let (offset, cur) = u64::decode(cur)?;
        let (length, cur) = u64::decode(cur)?;
        let (locker, cur) = Locker::decode(cur)?;
        Ok((LockArgs { lock_type, reclaim, offset, length, locker }, cur))
    }
}

#[derive(Clone, Debug, PartialEq, Eq)]
pub struct LockTArgs {
    pub lock_type: LockType,
    pub offset: u64,
    pub length: u64,
    pub owner: StateOwner,
}

/// What a [`LockTArgs`] stands for.
pub struct LockTArgsModel {
    pub lock_type: LockType,
    pub offset: u64,
    pub length: u64,
    pub owner: StateOwnerModel,
}

impl Xdr for LockTArgs {
    type Model = LockTArgsModel;

    #[verifier::opaque]
    open spec fn model(&self) -> LockTArgsModel {
        LockTArgsModel {
            lock_type: self.lock_type.model(),
            offset: self.offset.model(),
            length: self.length.model(),
            owner: self.owner.model(),
        }
    }

    #[verifier::opaque]
    open spec fn wf(m: LockTArgsModel) -> bool {
        &&& LockType::wf(m.lock_type)
        &&& StateOwner::wf(m.owner)
    }

    #[verifier::opaque]
    open spec fn wire(m: LockTArgsModel) -> Seq<u8> {
        LockType::wire(m.lock_type)
            + u64::wire(m.offset)
            + u64::wire(m.length)
            + StateOwner::wire(m.owner)
    }

    #[verifier::opaque]
    open spec fn parse(s: Seq<u8>) -> Result<(LockTArgsModel, Seq<u8>), XdrError> {
        match LockType::parse(s) {
            Err(e) => Err(e),
            Ok((lock_type, s1)) => match u64::parse(s1) {
                Err(e) => Err(e),
                Ok((offset, s2)) => match u64::parse(s2) {
                    Err(e) => Err(e),
                    Ok((length, s3)) => match StateOwner::parse(s3) {
                        Err(e) => Err(e),
                        Ok((owner, s4)) => {
                            Ok((LockTArgsModel { lock_type, offset, length, owner }, s4))
                        },
                    },
                },
            },
        }
    }

    proof fn lemma_round_trip(m: LockTArgsModel, rest: Seq<u8>) {
        reveal(<LockTArgs as Xdr>::wf);
        reveal(<LockTArgs as Xdr>::wire);
        reveal(<LockTArgs as Xdr>::parse);
        let w1 = LockType::wire(m.lock_type);
        let w2 = u64::wire(m.offset);
        let w3 = u64::wire(m.length);
        let w4 = StateOwner::wire(m.owner);
        let r4 = rest;
        let r3 = w4 + r4;
        let r2 = w3 + r3;
        let r1 = w2 + r2;
        lemma_concat_assoc(w1 + w2 + w3, w4, r4);
        lemma_concat_assoc(w1 + w2, w3, r3);
        lemma_concat_assoc(w1, w2, r2);
        LockType::lemma_round_trip(m.lock_type, r1);
        u64::lemma_round_trip(m.offset, r2);
        u64::lemma_round_trip(m.length, r3);
        StateOwner::lemma_round_trip(m.owner, r4);
    }

    fn encode(&self, out: &mut Vec<u8>) -> (r: Result<(), EncodeError>) {
        proof {
            reveal(<LockTArgs as Xdr>::model);
            reveal(<LockTArgs as Xdr>::wf);
            reveal(<LockTArgs as Xdr>::wire);
        }
        let ghost m = self.model();
        let ghost w1 = LockType::wire(m.lock_type);
        let ghost w2 = u64::wire(m.offset);
        let ghost w3 = u64::wire(m.length);
        let ghost w4 = StateOwner::wire(m.owner);
        self.lock_type.encode(out)?;
        let _ = self.offset.encode(out);
        proof {
            lemma_concat_assoc(old(out)@, w1, w2);
        }
        let _ = self.length.encode(out);
        proof {
            lemma_concat_assoc(old(out)@, w1 + w2, w3);
        }
        self.owner.encode(out)?;
        proof {
            lemma_concat_assoc(old(out)@, w1 + w2 + w3, w4);
        }
        Ok(())
    }

    fn decode<'a>(input: &'a [u8]) -> (r: Result<(LockTArgs, &'a [u8]), XdrError>) {
        proof {
            reveal(<LockTArgs as Xdr>::model);
            reveal(<LockTArgs as Xdr>::parse);
        }
        let (lock_type, cur) = LockType::decode(input)?;
        let (offset, cur) = u64::decode(cur)?;
        let (length, cur) = u64::decode(cur)?;
        let (owner, cur) = StateOwner::decode(cur)?;
        Ok((LockTArgs { lock_type, offset, length, owner }, cur))
    }
}

#[derive(Clone, Debug, PartialEq, Eq)]
pub struct LockUArgs {
    pub lock_type: LockType,
    pub sequence_id: SequenceId,
    pub lock_state_id: StateId,
    pub offset: u64,
    pub length: u64,
}

/// What a [`LockUArgs`] stands for.
pub struct LockUArgsModel {
    pub lock_type: LockType,
    pub sequence_id: SequenceId,
    pub lock_state_id: StateIdModel,
    pub offset: u64,
    pub length: u64,
}

impl Xdr for LockUArgs {
    type Model = LockUArgsModel;

    #[verifier::opaque]
    open spec fn model(&self) -> LockUArgsModel {
        LockUArgsModel {
            lock_type: self.lock_type.model(),
            sequence_id: self.sequence_id.model(),
            lock_state_id: self.lock_state_id.model(),
            offset: self.offset.model(),
            length: self.length.model(),
        }
    }

    #[verifier::opaque]
    open spec fn wf(m: LockUArgsModel) -> bool {
        &&& LockType::wf(m.lock_type)
        &&& SequenceId::wf(m.sequence_id)
        &&& StateId::wf(m.lock_state_id)
    }

    #[verifier::opaque]
    open spec fn wire(m: LockUArgsModel) -> Seq<u8> {
        LockType::wire(m.lock_type)
            + SequenceId::wire(m.sequence_id)
            + StateId::wire(m.lock_state_id)
            + u64::wire(m.offset)
            + u64::wire(m.length)
    }

    #[verifier::opaque]
    open spec fn parse(s: Seq<u8>) -> Result<(LockUArgsModel, Seq<u8>), XdrError> {
        match LockType::parse(s) {
            Err(e) => Err(e),
            Ok((lock_type, s1)) => match SequenceId::parse(s1) {
                Err(e) => Err(e),
                Ok((sequence_id, s2)) => match StateId::parse(s2) {
                    Err(e) => Err(e),
                    Ok((lock_state_id, s3)) => match u64::parse(s3) {
                        Err(e) => Err(e),
                        Ok((offset, s4)) => match u64::parse(s4) {
                            Err(e) => Err(e),
                            Ok((length, s5)) => {
                                Ok(
                                    (
                                        LockUArgsModel {
                                            lock_type,
                                            sequence_id,
                                            lock_state_id,
                                            offset,
                                            length,
                                        },
                                        s5,
                                    ),
                                )
                            },
                        },
                    },
                },
            },
        }
    }

    proof fn lemma_round_trip(m: LockUArgsModel, rest: Seq<u8>) {
        reveal(<LockUArgs as Xdr>::wf);
        reveal(<LockUArgs as Xdr>::wire);
        reveal(<LockUArgs as Xdr>::parse);
        let w1 = LockType::wire(m.lock_type);
        let w2 = SequenceId::wire(m.sequence_id);
        let w3 = StateId::wire(m.lock_state_id);
        let w4 = u64::wire(m.offset);
        let w5 = u64::wire(m.length);
        let r5 = rest;
        let r4 = w5 + r5;
        let r3 = w4 + r4;
        let r2 = w3 + r3;
        let r1 = w2 + r2;
        lemma_concat_assoc(w1 + w2 + w3 + w4, w5, r5);
        lemma_concat_assoc(w1 + w2 + w3, w4, r4);
        lemma_concat_assoc(w1 + w2, w3, r3);
        lemma_concat_assoc(w1, w2, r2);
        LockType::lemma_round_trip(m.lock_type, r1);
        SequenceId::lemma_round_trip(m.sequence_id, r2);
        StateId::lemma_round_trip(m.lock_state_id, r3);
        u64::lemma_round_trip(m.offset, r4);
        u64::lemma_round_trip(m.length, r5);
    }

    fn encode(&self, out: &mut Vec<u8>) -> (r: Result<(), EncodeError>) {
        proof {
            reveal(<LockUArgs as Xdr>::model);
            reveal(<LockUArgs as Xdr>::wf);
            reveal(<LockUArgs as Xdr>::wire);
        }
        let ghost m = self.model();
        let ghost w1 = LockType::wire(m.lock_type);
        let ghost w2 = SequenceId::wire(m.sequence_id);
        let ghost w3 = StateId::wire(m.lock_state_id);
        let ghost w4 = u64::wire(m.offset);
        let ghost w5 = u64::wire(m.length);
        self.lock_type.encode(out)?;
        self.sequence_id.encode(out)?;
        proof {
            lemma_concat_assoc(old(out)@, w1, w2);
        }
        self.lock_state_id.encode(out)?;
        proof {
            lemma_concat_assoc(old(out)@, w1 + w2, w3);
        }
        let _ = self.offset.encode(out);
        proof {
            lemma_concat_assoc(old(out)@, w1 + w2 + w3, w4);
        }
        let _ = self.length.encode(out);
        proof {
            lemma_concat_assoc(old(out)@, w1 + w2 + w3 + w4, w5);
        }
        Ok(())
    }

    fn decode<'a>(input: &'a [u8]) -> (r: Result<(LockUArgs, &'a [u8]), XdrError>) {
        proof {
            reveal(<LockUArgs as Xdr>::model);
            reveal(<LockUArgs as Xdr>::parse);
        }
        let (lock_type, cur) = LockType::decode(input)?;
        let (sequence_id, cur) = SequenceId::decode(cur)?;
        let (lock_state_id, cur) = StateId::decode(cur)?;
        let (offset, cur) = u64::decode(cur)?;
        let (length, cur) = u64::decode(cur)?;
        Ok((LockUArgs { lock_type, sequence_id, lock_state_id, offset, length }, cur))
    }
}

#[derive(Clone, Debug, PartialEq, Eq)]
pub struct LookUpArgs {
    pub object_name: String,
}

/// What a [`LookUpArgs`] stands for.
pub struct LookUpArgsModel {
    pub object_name: Seq<char>,
}

impl Xdr for LookUpArgs {
    type Model = LookUpArgsModel;

    #[verifier::opaque]
    open spec fn model(&self) -> LookUpArgsModel {
        LookUpArgsModel { object_name: self.object_name.model() }
    }

    #[verifier::opaque]
    open spec fn wf(m: LookUpArgsModel) -> bool {
        &&& String::wf(m.object_name)
    }

    #[verifier::opaque]
    open spec fn wire(m: LookUpArgsModel) -> Seq<u8> {
        String::wire(m.object_name)
    }

    #[verifier::opaque]
    open spec fn parse(s: Seq<u8>) -> Result<(LookUpArgsModel, Seq<u8>), XdrError> {
        match String::parse(s) {
            Err(e) => Err(e),
            Ok((object_name, s1)) => Ok((LookUpArgsModel { object_name }, s1)),
        }
    }

    proof fn lemma_round_trip(m: LookUpArgsModel, rest: Seq<u8>) {
        reveal(<LookUpArgs as Xdr>::wf);
        reveal(<LookUpArgs as Xdr>::wire);
        reveal(<LookUpArgs as Xdr>::parse);
        String::lemma_round_trip(m.object_name, rest);
    }

    fn encode(&self, out: &mut Vec<u8>) -> (r: Result<(), EncodeError>) {
        proof {
            reveal(<LookUpArgs as Xdr>::model);
            reveal(<LookUpArgs as Xdr>::wf);
            reveal(<LookUpArgs as Xdr>::wire);
        }
        self.object_name.encode(out)?;
        Ok(())
    }

    fn decode<'a>(input: &'a [u8]) -> (r: Result<(LookUpArgs, &'a [u8]), XdrError>) {
        proof {
            reveal(<LookUpArgs as Xdr>::model);
            reveal(<LookUpArgs as Xdr>::parse);
        }
        let (object_name, cur) = String::decode(input)?;
        Ok((LookUpArgs { object_name }, cur))
    }
}

#[derive(Clone, Debug, PartialEq, Eq)]
pub struct NVerifyArgs {
    pub object_attributes: FileAttributes,
}

/// What a [`NVerifyArgs`] stands for.
pub struct NVerifyArgsModel {
    pub object_attributes: Seq<FileAttributeModel>,
}

impl Xdr for NVerifyArgs {
    type Model = NVerifyArgsModel;

    #[verifier::opaque]
    open spec fn model(&self) -> NVerifyArgsModel {
        NVerifyArgsModel { object_attributes: self.object_attributes.model() }
    }

    #[verifier::opaque]
    open spec fn wf(m: NVerifyArgsModel) -> bool {
        &&& FileAttributes::wf(m.object_attributes)
    }

    #[verifier::opaque]
    open spec fn wire(m: NVerifyArgsModel) -> Seq<u8> {
        FileAttributes::wire(m.object_attributes)
    }

    #[verifier::opaque]
    open spec fn parse(s: Seq<u8>) -> Result<(NVerifyArgsModel, Seq<u8>), XdrError> {
        match FileAttributes::parse(s) {
            Err(e) => Err(e),
            Ok((object_attributes, s1)) => Ok((NVerifyArgsModel { object_attributes }, s1)),
        }
    }

    proof fn lemma_round_trip(m: NVerifyArgsModel, rest: Seq<u8>) {
        reveal(<NVerifyArgs as Xdr>::wf);
        reveal(<NVerifyArgs as Xdr>::wire);
        reveal(<NVerifyArgs as Xdr>::parse);
        FileAttributes::lemma_round_trip(m.object_attributes, rest);
    }

    fn encode(&self, out: &mut Vec<u8>) -> (r: Result<(), EncodeError>) {
        proof {
            reveal(<NVerifyArgs as Xdr>::model);
            reveal(<NVerifyArgs as Xdr>::wf);
            reveal(<NVerifyArgs as Xdr>::wire);
        }
        self.object_attributes.encode(out)?;
        Ok(())
    }

    fn decode<'a>(input: &'a [u8]) -> (r: Result<(NVerifyArgs, &'a [u8]), XdrError>) {
        proof {
            reveal(<NVerifyArgs as Xdr>::model);
            reveal(<NVerifyArgs as Xdr>::parse);
        }
        let (object_attributes, cur) = FileAttributes::decode(input)?;
        Ok((NVerifyArgs { object_attributes }, cur))
    }
}

#[derive(Clone, Debug, PartialEq, Eq)]
pub enum OpenFlag {
    OpenNoCreate,
    OpenCreate(CreateHow),
}

/// What a [`OpenFlag`] stands for.
pub enum OpenFlagModel {
    OpenNoCreate,
    OpenCreate(CreateHowModel),
}

impl OpenFlag {
    /// The discriminant that leads the encoding of a value.
    pub open spec fn tag(m: OpenFlagModel) -> u32 {
        match m {
            OpenFlagModel::OpenNoCreate => 0,
            OpenFlagModel::OpenCreate(..) => 1,
        }
    }

    /// What follows the discriminant in the encoding of a value.
    #[verifier::opaque]
    pub open spec fn wire_payload(m: OpenFlagModel) -> Seq<u8> {
        match m {
            OpenFlagModel::OpenNoCreate => Seq::<u8>::empty(),
            OpenFlagModel::OpenCreate(f0) => CreateHow::wire(f0),
        }
    }

    /// The value with the discriminant `tag` whose payload is at the front of `s`.
    #[verifier::opaque]
    pub open spec fn parse_payload(
        tag: u32,
        s: Seq<u8>,
    ) -> Result<(OpenFlagModel, Seq<u8>), XdrError> {
        if tag == 0 {
            Ok((OpenFlagModel::OpenNoCreate, s))
        } else if tag == 1 {
            match CreateHow::parse(s) {
                Err(e) => Err(e),
                Ok((f0, s1)) => Ok((OpenFlagModel::OpenCreate(f0), s1)),
            }
        } else {
            Err(XdrError::BadDiscriminant("OpenFlag", tag))
        }
    }

    pub proof fn lemma_payload_round_trip(m: OpenFlagModel, rest: Seq<u8>)
        requires
            <OpenFlag as Xdr>::wf(m),
        ensures
            Self::parse_payload(Self::tag(m), Self::wire_payload(m) + rest)
                == Ok::<(OpenFlagModel, Seq<u8>), XdrError>((m, rest)),
    {
        reveal(<OpenFlag as Xdr>::wf);
        reveal(OpenFlag::wire_payload);
        reveal(OpenFlag::parse_payload);
        match m {
            OpenFlagModel::OpenNoCreate => {
                assert(Seq::<u8>::empty() + rest =~= rest);
            },
            OpenFlagModel::OpenCreate(f0) => {
                CreateHow::lemma_round_trip(f0, rest);
            },
        }
    }

    /// The encoding of a value begins with its discriminant, big-endian.
    pub proof fn lemma_wire_leads_with_tag(m: OpenFlagModel)
        ensures
            <OpenFlag as Xdr>::wire(m).len() >= 4,
            <OpenFlag as Xdr>::wire(m).take(4) == wire_u32(Self::tag(m)),
    {
        reveal(<OpenFlag as Xdr>::wire);
        reveal(wire_u32);
        assert((wire_u32(Self::tag(m)) + Self::wire_payload(m)).take(4) =~= wire_u32(Self::tag(m)));
    }

    /// The discriminant of a value.
    pub fn tag_of(&self) -> (t: u32)
        ensures
            t == Self::tag(self.model()),
    {
        proof {
            reveal(<OpenFlag as Xdr>::model);
        }
        match self {
            OpenFlag::OpenNoCreate => 0,
            OpenFlag::OpenCreate(..) => 1,
        }
    }

    /// Appends what follows the discriminant in the encoding of `self`.
    pub fn encode_payload(&self, out: &mut Vec<u8>) -> (r: Result<(), EncodeError>)
        ensures
            r is Ok <==> <OpenFlag as Xdr>::wf(self.model()),
            r is Ok ==> final(out)@ == old(out)@ + Self::wire_payload(self.model()),
    {
        proof {
            reveal(<OpenFlag as Xdr>::model);
            reveal(<OpenFlag as Xdr>::wf);
            reveal(OpenFlag::wire_payload);
        }
        match self {
            OpenFlag::OpenNoCreate => {
                assert(out@ =~= old(out)@ + Seq::<u8>::empty());
            },
            OpenFlag::OpenCreate(f0) => {
                f0.encode(out)?;
            },
        }
        Ok(())
    }

    /// Decodes the payload of the value with the discriminant `tag`.
    pub fn decode_payload<'a>(
        tag: u32,
        input: &'a [u8],
    ) -> (r: Result<(OpenFlag, &'a [u8]), XdrError>)
        ensures
            match r {
                Ok((v, rest)) => {
                    Self::parse_payload(tag, input@)
                        == Ok::<(OpenFlagModel, Seq<u8>), XdrError>((v.model(), rest@))
                },
                Err(e) => {
                    Self::parse_payload(tag, input@) == Err::<(OpenFlagModel, Seq<u8>), XdrError>(e)
                },
            },
    {
        proof {
            reveal(<OpenFlag as Xdr>::model);
            reveal(OpenFlag::parse_payload);
        }
        if tag == 0 {
            Ok((OpenFlag::OpenNoCreate, input))
        } else if tag == 1 {
            let (f0, cur) = CreateHow::decode(input)?;
            Ok((OpenFlag::OpenCreate(f0), cur))
        } else {
            Err(XdrError::BadDiscriminant("OpenFlag", tag))
        }
    }
}

impl Xdr for OpenFlag {
    type Model = OpenFlagModel;

    #[verifier::opaque]
    open spec fn model(&self) -> OpenFlagModel {
        match self {
            OpenFlag::OpenNoCreate => OpenFlagModel::OpenNoCreate,
            OpenFlag::OpenCreate(f0) => OpenFlagModel::OpenCreate(f0.model()),
        }
    }

    #[verifier::opaque]
    open spec fn wf(m: OpenFlagModel) -> bool {
        match m {
            OpenFlagModel::OpenNoCreate => true,
            OpenFlagModel::OpenCreate(f0) => CreateHow::wf(f0),
        }
    }

    #[verifier::opaque]
    open spec fn wire(m: OpenFlagModel) -> Seq<u8> {
        wire_u32(Self::tag(m)) + Self::wire_payload(m)
    }

    #[verifier::opaque]
    open spec fn parse(s: Seq<u8>) -> Result<(OpenFlagModel, Seq<u8>), XdrError> {
        match parse_u32(s) {
            Ok((tag, r)) => Self::parse_payload(tag, r),
            Err(e) => Err(e),
        }
    }

    proof fn lemma_round_trip(m: OpenFlagModel, rest: Seq<u8>) {
        reveal(<OpenFlag as Xdr>::wire);
        reveal(<OpenFlag as Xdr>::parse);
        lemma_concat_assoc(wire_u32(Self::tag(m)), Self::wire_payload(m), rest);
        lemma_u32_round_trip(Self::tag(m), Self::wire_payload(m) + rest);
        Self::lemma_payload_round_trip(m, rest);
    }

    fn encode(&self, out: &mut Vec<u8>) -> (r: Result<(), EncodeError>) {
        proof {
            reveal(<OpenFlag as Xdr>::wire);
        }
        let tag = self.tag_of();
        let _ = tag.encode(out);
        self.encode_payload(out)?;
        proof {
            lemma_concat_assoc(old(out)@, wire_u32(tag), Self::wire_payload(self.model()));
        }
        Ok(())
    }

    fn decode<'a>(input: &'a [u8]) -> (r: Result<(OpenFlag, &'a [u8]), XdrError>) {
        proof {
            reveal(<OpenFlag as Xdr>::parse);
        }
        let (tag, cur) = u32::decode(input)?;
        Self::decode_payload(tag, cur)
    }
}

/// How an `Open` creates a file that is not there.
#[derive(Clone, Debug, PartialEq, Eq)]
pub enum CreateHow {
    Unchecked,
    Guarded { create_attrs: FileAttributes },
    Exclusive { create_verifier: Verifier },
    ExclusiveBoth { create_verifier: Verifier, create_attrs: FileAttributes },
}

/// What a [`CreateHow`] stands for.
pub enum CreateHowModel {
    Unchecked,
    Guarded { create_attrs: Seq<FileAttributeModel> },
    Exclusive { create_verifier: Verifier },
    ExclusiveBoth { create_verifier: Verifier, create_attrs: Seq<FileAttributeModel> },
}

impl CreateHow {
    /// The discriminant that leads the encoding of a value.
    pub open spec fn tag(m: CreateHowModel) -> u32 {
        match m {
            CreateHowModel::Unchecked => 0,
            CreateHowModel::Guarded { .. } => 1,
            CreateHowModel::Exclusive { .. } => 2,
            CreateHowModel::ExclusiveBoth { .. } => 3,
        }
    }

    /// What follows the discriminant in the encoding of a value.
    #[verifier::opaque]
    pub open spec fn wire_payload(m: CreateHowModel) -> Seq<u8> {
        match m {
            CreateHowModel::Unchecked => Seq::<u8>::empty(),
            CreateHowModel::Guarded { create_attrs } => FileAttributes::wire(create_attrs),
            CreateHowModel::Exclusive { create_verifier } => Verifier::wire(create_verifier),
            CreateHowModel::ExclusiveBoth { create_verifier, create_attrs } => {
                Verifier::wire(create_verifier) + FileAttributes::wire(create_attrs)
            },
        }
    }

    /// The value with the discriminant `tag` whose payload is at the front of `s`.
    #[verifier::opaque]
    pub open spec fn parse_payload(
        tag: u32,
        s: Seq<u8>,
    ) -> Result<(CreateHowModel, Seq<u8>), XdrError> {
        if tag == 0 {
            Ok((CreateHowModel::Unchecked, s))
        } else if tag == 1 {
            match FileAttributes::parse(s) {
                Err(e) => Err(e),
                Ok((create_attrs, s1)) => Ok((CreateHowModel::Guarded { create_attrs }, s1)),
            }
        } else if tag == 2 {
            match Verifier::parse(s) {
                Err(e) => Err(e),
                Ok((create_verifier, s1)) => {
                    Ok((CreateHowModel::Exclusive { create_verifier }, s1))
                },
            }
        } else if tag == 3 {
            match Verifier::parse(s) {
                Err(e) => Err(e),
                Ok((create_verifier, s1)) => match FileAttributes::parse(s1) {
                    Err(e) => Err(e),
                    Ok((create_attrs, s2)) => {
                        Ok((CreateHowModel::ExclusiveBoth { create_verifier, create_attrs }, s2))
                    },
                },
            }
        } else {
            Err(XdrError::BadDiscriminant("CreateHow", tag))
        }
    }

    pub proof fn lemma_payload_round_trip(m: CreateHowModel, rest: Seq<u8>)
        requires
            <CreateHow as Xdr>::wf(m),
        ensures
            Self::parse_payload(Self::tag(m), Self::wire_payload(m) + rest)
                == Ok::<(CreateHowModel, Seq<u8>), XdrError>((m, rest)),
    {
        reveal(<CreateHow as Xdr>::wf);
        reveal(CreateHow::wire_payload);
        reveal(CreateHow::parse_payload);
        match m {
            CreateHowModel::Unchecked => {
                assert(Seq::<u8>::empty() + rest =~= rest);
            },
            CreateHowModel::Guarded { create_attrs } => {
                FileAttributes::lemma_round_trip(create_attrs, rest);
            },
            CreateHowModel::Exclusive { create_verifier } => {
                Verifier::lemma_round_trip(create_verifier, rest);
            },
            CreateHowModel::ExclusiveBoth { create_verifier, create_attrs } => {
                let w1 = Verifier::wire(create_verifier);
                let w2 = FileAttributes::wire(create_attrs);
                let r2 = rest;
                let r1 = w2 + r2;
                lemma_concat_assoc(w1, w2, r2);
                Verifier::lemma_round_trip(create_verifier, r1);
                FileAttributes::lemma_round_trip(create_attrs, r2);
            },
        }
    }

    /// The encoding of a value begins with its discriminant, big-endian.
    pub proof fn lemma_wire_leads_with_tag(m: CreateHowModel)
        ensures
            <CreateHow as Xdr>::wire(m).len() >= 4,
            <CreateHow as Xdr>::wire(m).take(4) == wire_u32(Self::tag(m)),
    {
        reveal(<CreateHow as Xdr>::wire);
        reveal(wire_u32);
        assert((wire_u32(Self::tag(m)) + Self::wire_payload(m)).take(4) =~= wire_u32(Self::tag(m)));
    }

    /// The discriminant of a value.
    pub fn tag_of(&self) -> (t: u32)
        ensures
            t == Self::tag(self.model()),
    {
        proof {
            reveal(<CreateHow as Xdr>::model);
        }
        match self {
            CreateHow::Unchecked => 0,
            CreateHow::Guarded { .. } => 1,
            CreateHow::Exclusive { .. } => 2,
            CreateHow::ExclusiveBoth { .. } => 3,
        }
    }

    /// Appends what follows the discriminant in the encoding of `self`.
    pub fn encode_payload(&self, out: &mut Vec<u8>) -> (r: Result<(), EncodeError>)
        ensures
            r is Ok <==> <CreateHow as Xdr>::wf(self.model()),
            r is Ok ==> final(out)@ == old(out)@ + Self::wire_payload(self.model()),
    {
        proof {
            reveal(<CreateHow as Xdr>::model);
            reveal(<CreateHow as Xdr>::wf);
            reveal(CreateHow::wire_payload);
        }
        match self {
            CreateHow::Unchecked => {
                assert(out@ =~= old(out)@ + Seq::<u8>::empty());
            },
            CreateHow::Guarded { create_attrs } => {
                create_attrs.encode(out)?;
            },
            CreateHow::Exclusive { create_verifier } => {
                create_verifier.encode(out)?;
            },
            CreateHow::ExclusiveBoth { create_verifier, create_attrs } => {
                let ghost w1 = Verifier::wire(create_verifier.model());
                let ghost w2 = FileAttributes::wire(create_attrs.model());
                create_verifier.encode(out)?;
                create_attrs.encode(out)?;
                proof {
                    lemma_concat_assoc(old(out)@, w1, w2);
                }
            },
        }
        Ok(())
    }

    /// Decodes the payload of the value with the discriminant `tag`.
    pub fn decode_payload<'a>(
        tag: u32,
        input: &'a [u8],
    ) -> (r: Result<(CreateHow, &'a [u8]), XdrError>)
        ensures
            match r {
                Ok((v, rest)) => {
                    Self::parse_payload(tag, input@)
                        == Ok::<(CreateHowModel, Seq<u8>), XdrError>((v.model(), rest@))
                },
                Err(e) => {
                    Self::parse_payload(tag, input@)
                        == Err::<(CreateHowModel, Seq<u8>), XdrError>(e)
                },
            },
    {
        proof {
            reveal(<CreateHow as Xdr>::model);
            reveal(CreateHow::parse_payload);
        }
        if tag == 0 {
            Ok((CreateHow::Unchecked, input))
        } else if tag == 1 {
            let (create_attrs, cur) = FileAttributes::decode(input)?;
            Ok((CreateHow::Guarded { create_attrs }, cur))
        } else if tag == 2 {
            let (create_verifier, cur) = Verifier::decode(input)?;
            Ok((CreateHow::Exclusive { create_verifier }, cur))
        } else if tag == 3 {
            let (create_verifier, cur) = Verifier::decode(input)?;
            let (create_attrs, cur) = FileAttributes::decode(cur)?;
            Ok((CreateHow::ExclusiveBoth { create_verifier, create_attrs }, cur))
        } else {
            Err(XdrError::BadDiscriminant("CreateHow", tag))
        }
    }
}

impl Xdr for CreateHow {
    type Model = CreateHowModel;

    #[verifier::opaque]
    open spec fn model(&self) -> CreateHowModel {
        match self {
            CreateHow::Unchecked => CreateHowModel::Unchecked,
            CreateHow::Guarded { create_attrs } => {
                CreateHowModel::Guarded { create_attrs: create_attrs.model() }
            },
            CreateHow::Exclusive { create_verifier } => {
                CreateHowModel::Exclusive { create_verifier: create_verifier.model() }
            },
            CreateHow::ExclusiveBoth { create_verifier, create_attrs } => {
                CreateHowModel::ExclusiveBoth {
                    create_verifier: create_verifier.model(),
                    create_attrs: create_attrs.model(),
                }
            },
        }
    }

    #[verifier::opaque]
    open spec fn wf(m: CreateHowModel) -> bool {
        match m {
            CreateHowModel::Unchecked => true,
            CreateHowModel::Guarded { create_attrs } => FileAttributes::wf(create_attrs),
            CreateHowModel::Exclusive { create_verifier } => Verifier::wf(create_verifier),
            CreateHowModel::ExclusiveBoth { create_verifier, create_attrs } => {
                Verifier::wf(create_verifier) && FileAttributes::wf(create_attrs)
            },
        }
    }

    #[verifier::opaque]
    open spec fn wire(m: CreateHowModel) -> Seq<u8> {
        wire_u32(Self::tag(m)) + Self::wire_payload(m)
    }

    #[verifier::opaque]
    open spec fn parse(s: Seq<u8>) -> Result<(CreateHowModel, Seq<u8>), XdrError> {
        match parse_u32(s) {
            Ok((tag, r)) => Self::parse_payload(tag, r),
            Err(e) => Err(e),
        }
    }

    proof fn lemma_round_trip(m: CreateHowModel, rest: Seq<u8>) {
        reveal(<CreateHow as Xdr>::wire);
        reveal(<CreateHow as Xdr>::parse);
        lemma_concat_assoc(wire_u32(Self::tag(m)), Self::wire_payload(m), rest);
        lemma_u32_round_trip(Self::tag(m), Self::wire_payload(m) + rest);
        Self::lemma_payload_round_trip(m, rest);
    }

    fn encode(&self, out: &mut Vec<u8>) -> (r: Result<(), EncodeError>) {
        proof {
            reveal(<CreateHow as Xdr>::wire);
        }
        let tag = self.tag_of();
        let _ = tag.encode(out);
        self.encode_payload(out)?;
        proof {
            lemma_concat_assoc(old(out)@, wire_u32(tag), Self::wire_payload(self.model()));
        }
        Ok(())
    }

    fn decode<'a>(input: &'a [u8]) -> (r: Result<(CreateHow, &'a [u8]), XdrError>) {
        proof {
            reveal(<CreateHow as Xdr>::parse);
        }
        let (tag, cur) = u32::decode(input)?;
        Self::decode_payload(tag, cur)
    }
}

/// Which file an `Open` is about.
#[derive(Clone, Debug, PartialEq, Eq)]
pub enum OpenClaim {
    Null { file: String },
    Previous { delegate_type: OpenDelegationType },
    DelegateCurrent { delegate_current_info: OpenClaimDelegateCurrent },
    DelegatePrevious { file_delegate_previous: String },
    Fh,
    DelegateCurrentFh { oc_delegate_state_id: StateId },
    PreviousFh,
}

/// What a [`OpenClaim`] stands for.
pub enum OpenClaimModel {
    Null { file: Seq<char> },
    Previous { delegate_type: OpenDelegationType },
    DelegateCurrent { delegate_current_info: OpenClaimDelegateCurrentModel },
    DelegatePrevious { file_delegate_previous: Seq<char> },
    Fh,
    DelegateCurrentFh { oc_delegate_state_id: StateIdModel },
    PreviousFh,
}

impl OpenClaim {
    /// The discriminant that leads the encoding of a value.
    pub open spec fn tag(m: OpenClaimModel) -> u32 {
        match m {
            OpenClaimModel::Null { .. } => 0,
            OpenClaimModel::Previous { .. } => 1,
            OpenClaimModel::DelegateCurrent { .. } => 2,
            OpenClaimModel::DelegatePrevious { .. } => 3,
            OpenClaimModel::Fh => 4,
            OpenClaimModel::DelegateCurrentFh { .. } => 5,
            OpenClaimModel::PreviousFh => 6,
        }
    }

    /// What follows the discriminant in the encoding of a value.
    #[verifier::opaque]
    pub open spec fn wire_payload(m: OpenClaimModel) -> Seq<u8> {
        match m {
            OpenClaimModel::Null { file } => String::wire(file),
            OpenClaimModel::Previous { delegate_type } => OpenDelegationType::wire(delegate_type),
            OpenClaimModel::DelegateCurrent { delegate_current_info } => {
                OpenClaimDelegateCurrent::wire(delegate_current_info)
            },
            OpenClaimModel::DelegatePrevious { file_delegate_previous } => {
                String::wire(file_delegate_previous)
            },
            OpenClaimModel::Fh => Seq::<u8>::empty(),
            OpenClaimModel::DelegateCurrentFh { oc_delegate_state_id } => {
                StateId::wire(oc_delegate_state_id)
            },
            OpenClaimModel::PreviousFh => Seq::<u8>::empty(),
        }
    }

    /// The value with the discriminant `tag` whose payload is at the front of `s`.
    #[verifier::opaque]
    pub open spec fn parse_payload(
        tag: u32,
        s: Seq<u8>,
    ) -> Result<(OpenClaimModel, Seq<u8>), XdrError> {
        if tag == 0 {
            match String::parse(s) {
                Err(e) => Err(e),
                Ok((file, s1)) => Ok((OpenClaimModel::Null { file }, s1)),
            }
        } else if tag == 1 {
            match OpenDelegationType::parse(s) {
                Err(e) => Err(e),
                Ok((delegate_type, s1)) => Ok((OpenClaimModel::Previous { delegate_type }, s1)),
            }
        } else if tag == 2 {
            match OpenClaimDelegateCurrent::parse(s) {
                Err(e) => Err(e),
                Ok((delegate_current_info, s1)) => {
                    Ok((OpenClaimModel::DelegateCurrent { delegate_current_info }, s1))
                },
            }
        } else if tag == 3 {
            match String::parse(s) {
                Err(e) => Err(e),
                Ok((file_delegate_previous, s1)) => {
                    Ok((OpenClaimModel::DelegatePrevious { file_delegate_previous }, s1))
                },
            }
        } else if tag == 4 {
            Ok((OpenClaimModel::Fh, s))
        } else if tag == 5 {
            match StateId::parse(s) {
                Err(e) => Err(e),
                Ok((oc_delegate_state_id, s1)) => {
                    Ok((OpenClaimModel::DelegateCurrentFh { oc_delegate_state_id }, s1))
                },
            }
        } else if tag == 6 {
            Ok((OpenClaimModel::PreviousFh, s))
        } else {
            Err(XdrError::BadDiscriminant("OpenClaim", tag))
        }
    }

    pub proof fn lemma_payload_round_trip(m: OpenClaimModel, rest: Seq<u8>)
        requires
            <OpenClaim as Xdr>::wf(m),
        ensures
            Self::parse_payload(Self::tag(m), Self::wire_payload(m) + rest)
                == Ok::<(OpenClaimModel, Seq<u8>), XdrError>((m, rest)),
    {
        reveal(<OpenClaim as Xdr>::wf);
        reveal(OpenClaim::wire_payload);
        reveal(OpenClaim::parse_payload);
        match m {
            OpenClaimModel::Null { file } => {
                String::lemma_round_trip(file, rest);
            },
            OpenClaimModel::Previous { delegate_type } => {
                OpenDelegationType::lemma_round_trip(delegate_type, rest);
            },
            OpenClaimModel::DelegateCurrent { delegate_current_info } => {
                OpenClaimDelegateCurrent::lemma_round_trip(delegate_current_info, rest);
            },
            OpenClaimModel::DelegatePrevious { file_delegate_previous } => {
                String::lemma_round_trip(file_delegate_previous, rest);
            },
            OpenClaimModel::Fh => {
                assert(Seq::<u8>::empty() + rest =~= rest);
            },
            OpenClaimModel::DelegateCurrentFh { oc_delegate_state_id } => {
                StateId::lemma_round_trip(oc_delegate_state_id, rest);
            },
            OpenClaimModel::PreviousFh => {
                assert(Seq::<u8>::empty() + rest =~= rest);
            },
        }
    }

    /// The encoding of a value begins with its discriminant, big-endian.
    pub proof fn lemma_wire_leads_with_tag(m: OpenClaimModel)
        ensures
            <OpenClaim as Xdr>::wire(m).len() >= 4,
            <OpenClaim as Xdr>::wire(m).take(4) == wire_u32(Self::tag(m)),
    {
        reveal(<OpenClaim as Xdr>::wire);
        reveal(wire_u32);
        assert((wire_u32(Self::tag(m)) + Self::wire_payload(m)).take(4) =~= wire_u32(Self::tag(m)));
    }

    /// The discriminant of a value.
    pub fn tag_of(&self) -> (t: u32)
        ensures
            t == Self::tag(self.model()),
    {
        proof {
            reveal(<OpenClaim as Xdr>::model);
        }
        match self {
            OpenClaim::Null { .. } => 0,
            OpenClaim::Previous { .. } => 1,
            OpenClaim::DelegateCurrent { .. } => 2,
            OpenClaim::DelegatePrevious { .. } => 3,
            OpenClaim::Fh => 4,
            OpenClaim::DelegateCurrentFh { .. } => 5,
            OpenClaim::PreviousFh => 6,
        }
    }

    /// Appends what follows the discriminant in the encoding of `self`.
    pub fn encode_payload(&self, out: &mut Vec<u8>) -> (r: Result<(), EncodeError>)
        ensures
            r is Ok <==> <OpenClaim as Xdr>::wf(self.model()),
            r is Ok ==> final(out)@ == old(out)@ + Self::wire_payload(self.model()),
    {
        proof {
            reveal(<OpenClaim as Xdr>::model);
            reveal(<OpenClaim as Xdr>::wf);
            reveal(OpenClaim::wire_payload);
        }
        match self {
            OpenClaim::Null { file } => {
                file.encode(out)?;
            },
            OpenClaim::Previous { delegate_type } => {
                delegate_type.encode(out)?;
            },
            OpenClaim::DelegateCurrent { delegate_current_info } => {
                delegate_current_info.encode(out)?;
            },
            OpenClaim::DelegatePrevious { file_delegate_previous } => {
                file_delegate_previous.encode(out)?;
            },
            OpenClaim::Fh => {
                assert(out@ =~= old(out)@ + Seq::<u8>::empty());
            },
            OpenClaim::DelegateCurrentFh { oc_delegate_state_id } => {
                oc_delegate_state_id.encode(out)?;
            },
            OpenClaim::PreviousFh => {
                assert(out@ =~= old(out)@ + Seq::<u8>::empty());
            },
        }
        Ok(())
    }

    /// Decodes the payload of the value with the discriminant `tag`.
    pub fn decode_payload<'a>(
        tag: u32,
        input: &'a [u8],
    ) -> (r: Result<(OpenClaim, &'a [u8]), XdrError>)
        ensures
            match r {
                Ok((v, rest)) => {
                    Self::parse_payload(tag, input@)
                        == Ok::<(OpenClaimModel, Seq<u8>), XdrError>((v.model(), rest@))
                },
                Err(e) => {
                    Self::parse_payload(tag, input@)
                        == Err::<(OpenClaimModel, Seq<u8>), XdrError>(e)
                },
            },
    {
        proof {
            reveal(<OpenClaim as Xdr>::model);
            reveal(OpenClaim::parse_payload);
        }
        if tag == 0 {
            let (file, cur) = String::decode(input)?;
            Ok((OpenClaim::Null { file }, cur))
        } else if tag == 1 {
            let (delegate_type, cur) = OpenDelegationType::decode(input)?;
            Ok((OpenClaim::Previous { delegate_type }, cur))
        } else if tag == 2 {
            let (delegate_current_info, cur) = OpenClaimDelegateCurrent::decode(input)?;
            Ok((OpenClaim::DelegateCurrent { delegate_current_info }, cur))
        } else if tag == 3 {
            let (file_delegate_previous, cur) = String::decode(input)?;
            Ok((OpenClaim::DelegatePrevious { file_delegate_previous }, cur))
        } else if tag == 4 {
            Ok((OpenClaim::Fh, input))
        } else if tag == 5 {
            let (oc_delegate_state_id, cur) = StateId::decode(input)?;
            Ok((OpenClaim::DelegateCurrentFh { oc_delegate_state_id }, cur))
        } else if tag == 6 {
            Ok((OpenClaim::PreviousFh, input))
        } else {
            Err(XdrError::BadDiscriminant("OpenClaim", tag))
        }
    }
}

impl Xdr for OpenClaim {
    type Model = OpenClaimModel;

    #[verifier::opaque]
    open spec fn model(&self) -> OpenClaimModel {
        match self {
            OpenClaim::Null { file } => OpenClaimModel::Null { file: file.model() },
            OpenClaim::Previous { delegate_type } => {
                OpenClaimModel::Previous { delegate_type: delegate_type.model() }
            },
            OpenClaim::DelegateCurrent { delegate_current_info } => {
                OpenClaimModel::DelegateCurrent {
                    delegate_current_info: delegate_current_info.model(),
                }
            },
            OpenClaim::DelegatePrevious { file_delegate_previous } => {
                OpenClaimModel::DelegatePrevious {
                    file_delegate_previous: file_delegate_previous.model(),
                }
            },
            OpenClaim::Fh => OpenClaimModel::Fh,
            OpenClaim::DelegateCurrentFh { oc_delegate_state_id } => {
                OpenClaimModel::DelegateCurrentFh {
                    oc_delegate_state_id: oc_delegate_state_id.model(),
                }
            },
            OpenClaim::PreviousFh => OpenClaimModel::PreviousFh,
        }
    }

    #[verifier::opaque]
    open spec fn wf(m: OpenClaimModel) -> bool {
        match m {
            OpenClaimModel::Null { file } => String::wf(file),
            OpenClaimModel::Previous { delegate_type } => OpenDelegationType::wf(delegate_type),
            OpenClaimModel::DelegateCurrent { delegate_current_info } => {
                OpenClaimDelegateCurrent::wf(delegate_current_info)
            },
            OpenClaimModel::DelegatePrevious { file_delegate_previous } => {
                String::wf(file_delegate_previous)
            },
            OpenClaimModel::Fh => true,
            OpenClaimModel::DelegateCurrentFh { oc_delegate_state_id } => {
                StateId::wf(oc_delegate_state_id)
            },
            OpenClaimModel::PreviousFh => true,
        }
    }

    #[verifier::opaque]
    open spec fn wire(m: OpenClaimModel) -> Seq<u8> {
        wire_u32(Self::tag(m)) + Self::wire_payload(m)
    }

    #[verifier::opaque]
    open spec fn parse(s: Seq<u8>) -> Result<(OpenClaimModel, Seq<u8>), XdrError> {
        match parse_u32(s) {
            Ok((tag, r)) => Self::parse_payload(tag, r),
            Err(e) => Err(e),
        }
    }

    proof fn lemma_round_trip(m: OpenClaimModel, rest: Seq<u8>) {
        reveal(<OpenClaim as Xdr>::wire);
        reveal(<OpenClaim as Xdr>::parse);
        lemma_concat_assoc(wire_u32(Self::tag(m)), Self::wire_payload(m), rest);
        lemma_u32_round_trip(Self::tag(m), Self::wire_payload(m) + rest);
        Self::lemma_payload_round_trip(m, rest);
    }

    fn encode(&self, out: &mut Vec<u8>) -> (r: Result<(), EncodeError>) {
        proof {
            reveal(<OpenClaim as Xdr>::wire);
        }
        let tag = self.tag_of();
        let _ = tag.encode(out);
        self.encode_payload(out)?;
        proof {
            lemma_concat_assoc(old(out)@, wire_u32(tag), Self::wire_payload(self.model()));
        }
        Ok(())
    }

    fn decode<'a>(input: &'a [u8]) -> (r: Result<(OpenClaim, &'a [u8]), XdrError>) {
        proof {
            reveal(<OpenClaim as Xdr>::parse);
        }
        let (tag, cur) = u32::decode(input)?;
        Self::decode_payload(tag, cur)
    }
}

#[derive(Clone, Debug, PartialEq, Eq)]
pub struct OpenClaimDelegateCurrent {
    pub delegate_stateid: StateId,
    pub file: String,
}

/// What a [`OpenClaimDelegateCurrent`] stands for.
pub struct OpenClaimDelegateCurrentModel {
    pub delegate_stateid: StateIdModel,
    pub file: Seq<char>,
}

impl Xdr for OpenClaimDelegateCurrent {
    type Model = OpenClaimDelegateCurrentModel;

    #[verifier::opaque]
    open spec fn model(&self) -> OpenClaimDelegateCurrentModel {
        OpenClaimDelegateCurrentModel {
            delegate_stateid: self.delegate_stateid.model(),
            file: self.file.model(),
        }
    }

    #[verifier::opaque]
    open spec fn wf(m: OpenClaimDelegateCurrentModel) -> bool {
        &&& StateId::wf(m.delegate_stateid)
        &&& String::wf(m.file)
    }

    #[verifier::opaque]
    open spec fn wire(m: OpenClaimDelegateCurrentModel) -> Seq<u8> {
        StateId::wire(m.delegate_stateid) + String::wire(m.file)
    }

    #[verifier::opaque]
    open spec fn parse(s: Seq<u8>) -> Result<(OpenClaimDelegateCurrentModel, Seq<u8>), XdrError> {
        match StateId::parse(s) {
            Err(e) => Err(e),
            Ok((delegate_stateid, s1)) => match String::parse(s1) {
                Err(e) => Err(e),
                Ok((file, s2)) => {
                    Ok((OpenClaimDelegateCurrentModel { delegate_stateid, file }, s2))
                },
            },
        }
    }

    proof fn lemma_round_trip(m: OpenClaimDelegateCurrentModel, rest: Seq<u8>) {
        reveal(<OpenClaimDelegateCurrent as Xdr>::wf);
        reveal(<OpenClaimDelegateCurrent as Xdr>::wire);
        reveal(<OpenClaimDelegateCurrent as Xdr>::parse);
        let w1 = StateId::wire(m.delegate_stateid);
        let w2 = String::wire(m.file);
        let r2 = rest;
        let r1 = w2 + r2;
        lemma_concat_assoc(w1, w2, r2);
        StateId::lemma_round_trip(m.delegate_stateid, r1);
        String::lemma_round_trip(m.file, r2);
    }

    fn encode(&self, out: &mut Vec<u8>) -> (r: Result<(), EncodeError>) {
        proof {
            reveal(<OpenClaimDelegateCurrent as Xdr>::model);
            reveal(<OpenClaimDelegateCurrent as Xdr>::wf);
            reveal(<OpenClaimDelegateCurrent as Xdr>::wire);
        }
        let ghost m = self.model();
        let ghost w1 = StateId::wire(m.delegate_stateid);
        let ghost w2 = String::wire(m.file);
        self.delegate_stateid.encode(out)?;
        self.file.encode(out)?;
        proof {
            lemma_concat_assoc(old(out)@, w1, w2);
        }
        Ok(())
    }

    fn decode<'a>(input: &'a [u8]) -> (r: Result<(OpenClaimDelegateCurrent, &'a [u8]), XdrError>) {
        proof {
            reveal(<OpenClaimDelegateCurrent as Xdr>::model);
            reveal(<OpenClaimDelegateCurrent as Xdr>::parse);
        }
        let (delegate_stateid, cur) = StateId::decode(input)?;
        let (file, cur) = String::decode(cur)?;
        Ok((OpenClaimDelegateCurrent { delegate_stateid, file }, cur))
    }
}

/// The arguments of `Open`: who opens, how, and which file.
#[derive(Clone, Debug, PartialEq, Eq)]
pub struct OpenArgs {
    pub sequence_id: SequenceId,
    pub share_access: ShareAccess,
    pub share_deny: ShareDeny,
    pub owner: StateOwner,
    pub open_how: OpenFlag,
    pub claim: OpenClaim,
}

/// What a [`OpenArgs`] stands for.
pub struct OpenArgsModel {
    pub sequence_id: SequenceId,
    pub share_access: ShareAccess,
    pub share_deny: ShareDeny,
    pub owner: StateOwnerModel,
    pub open_how: OpenFlagModel,
    pub claim: OpenClaimModel,
}

impl Xdr for OpenArgs {
    type Model = OpenArgsModel;

    #[verifier::opaque]
    open spec fn model(&self) -> OpenArgsModel {
        OpenArgsModel {
            sequence_id: self.sequence_id.model(),
            share_access: self.share_access.model(),
            share_deny: self.share_deny.model(),
            owner: self.owner.model(),
            open_how: self.open_how.model(),
            claim: self.claim.model(),
        }
    }

    #[verifier::opaque]
    open spec fn wf(m: OpenArgsModel) -> bool {
        &&& SequenceId::wf(m.sequence_id)
        &&& ShareAccess::wf(m.share_access)
        &&& ShareDeny::wf(m.share_deny)
        &&& StateOwner::wf(m.owner)
        &&& OpenFlag::wf(m.open_how)
        &&& OpenClaim::wf(m.claim)
    }

    #[verifier::opaque]
    open spec fn wire(m: OpenArgsModel) -> Seq<u8> {
        SequenceId::wire(m.sequence_id)
            + ShareAccess::wire(m.share_access)
            + ShareDeny::wire(m.share_deny)
            + StateOwner::wire(m.owner)
            + OpenFlag::wire(m.open_how)
            + OpenClaim::wire(m.claim)
    }

    #[verifier::opaque]
    open spec fn parse(s: Seq<u8>) -> Result<(OpenArgsModel, Seq<u8>), XdrError> {
        match SequenceId::parse(s) {
            Err(e) => Err(e),
            Ok((sequence_id, s1)) => match ShareAccess::parse(s1) {
                Err(e) => Err(e),
                Ok((share_access, s2)) => match ShareDeny::parse(s2) {
                    Err(e) => Err(e),
                    Ok((share_deny, s3)) => match StateOwner::parse(s3) {
                        Err(e) => Err(e),
                        Ok((owner, s4)) => match OpenFlag::parse(s4) {
                            Err(e) => Err(e),
                            Ok((open_how, s5)) => match OpenClaim::parse(s5) {
                                Err(e) => Err(e),
                                Ok((claim, s6)) => {
                                    Ok(
                                        (
                                            OpenArgsModel {
                                                sequence_id,
                                                share_access,
                                                share_deny,
                                                owner,
                                                open_how,
                                                claim,
                                            },
                                            s6,
                                        ),
                                    )
                                },
                            },
                        },
                    },
                },
            },
        }
    }

    proof fn lemma_round_trip(m: OpenArgsModel, rest: Seq<u8>) {
        reveal(<OpenArgs as Xdr>::wf);
        reveal(<OpenArgs as Xdr>::wire);
        reveal(<OpenArgs as Xdr>::parse);
        let w1 = SequenceId::wire(m.sequence_id);
        let w2 = ShareAccess::wire(m.share_access);
        let w3 = ShareDeny::wire(m.share_deny);
        let w4 = StateOwner::wire(m.owner);
        let w5 = OpenFlag::wire(m.open_how);
        let w6 = OpenClaim::wire(m.claim);
        let r6 = rest;
        let r5 = w6 + r6;
        let r4 = w5 + r5;
        let r3 = w4 + r4;
        let r2 = w3 + r3;
        let r1 = w2 + r2;
        lemma_concat_assoc(w1 + w2 + w3 + w4 + w5, w6, r6);
        lemma_concat_assoc(w1 + w2 + w3 + w4, w5, r5);
        lemma_concat_assoc(w1 + w2 + w3, w4, r4);
        lemma_concat_assoc(w1 + w2, w3, r3);
        lemma_concat_assoc(w1, w2, r2);
        SequenceId::lemma_round_trip(m.sequence_id, r1);
        ShareAccess::lemma_round_trip(m.share_access, r2);
        ShareDeny::lemma_round_trip(m.share_deny, r3);
        StateOwner::lemma_round_trip(m.owner, r4);
        OpenFlag::lemma_round_trip(m.open_how, r5);
        OpenClaim::lemma_round_trip(m.claim, r6);
    }

    fn encode(&self, out: &mut Vec<u8>) -> (r: Result<(), EncodeError>) {
        proof {
            reveal(<OpenArgs as Xdr>::model);
            reveal(<OpenArgs as Xdr>::wf);
            reveal(<OpenArgs as Xdr>::wire);
        }
        let ghost m = self.model();
        let ghost w1 = SequenceId::wire(m.sequence_id);
        let ghost w2 = ShareAccess::wire(m.share_access);
        let ghost w3 = ShareDeny::wire(m.share_deny);
        let ghost w4 = StateOwner::wire(m.owner);
        let ghost w5 = OpenFlag::wire(m.open_how);
        let ghost w6 = OpenClaim::wire(m.claim);
        self.sequence_id.encode(out)?;
        self.share_access.encode(out)?;
        proof {
            lemma_concat_assoc(old(out)@, w1, w2);
        }
        self.share_deny.encode(out)?;
        proof {
            lemma_concat_assoc(old(out)@, w1 + w2, w3);
        }
        self.owner.encode(out)?;
        proof {
            lemma_concat_assoc(old(out)@, w1 + w2 + w3, w4);
        }
        self.open_how.encode(out)?;
        proof {
            lemma_concat_assoc(old(out)@, w1 + w2 + w3 + w4, w5);
        }
        self.claim.encode(out)?;
        proof {
            lemma_concat_assoc(old(out)@, w1 + w2 + w3 + w4 + w5, w6);
        }
        Ok(())
    }

    fn decode<'a>(input: &'a [u8]) -> (r: Result<(OpenArgs, &'a [u8]), XdrError>) {
        proof {
            reveal(<OpenArgs as Xdr>::model);
            reveal(<OpenArgs as Xdr>::parse);
        }
        let (sequence_id, cur) = SequenceId::decode(input)?;
        let (share_access, cur) = ShareAccess::decode(cur)?;
        let (share_deny, cur) = ShareDeny::decode(cur)?;
        let (owner, cur) = StateOwner::decode(cur)?;
        let (open_how, cur) = OpenFlag::decode(cur)?;
        let (claim, cur) = OpenClaim::decode(cur)?;
        Ok((OpenArgs { sequence_id, share_access, share_deny, owner, open_how, claim }, cur))
    }
}

#[derive(Clone, Debug, PartialEq, Eq)]
pub struct OpenAttrArgs {
    pub create_dir: bool,
}

impl Xdr for OpenAttrArgs {
    type Model = OpenAttrArgs;

    open spec fn model(&self) -> OpenAttrArgs {
        *self
    }

    open spec fn wf(m: OpenAttrArgs) -> bool {
        true
    }

    #[verifier::opaque]
    open spec fn wire(m: OpenAttrArgs) -> Seq<u8> {
        bool::wire(m.create_dir)
    }

    #[verifier::opaque]
    open spec fn parse(s: Seq<u8>) -> Result<(OpenAttrArgs, Seq<u8>), XdrError> {
        match bool::parse(s) {
            Err(e) => Err(e),
            Ok((create_dir, s1)) => Ok((OpenAttrArgs { create_dir }, s1)),
        }
    }

    proof fn lemma_round_trip(m: OpenAttrArgs, rest: Seq<u8>) {
        reveal(<OpenAttrArgs as Xdr>::wire);
        reveal(<OpenAttrArgs as Xdr>::parse);
        bool::lemma_round_trip(m.create_dir, rest);
    }

    fn encode(&self, out: &mut Vec<u8>) -> (r: Result<(), EncodeError>) {
        proof {
            reveal(<OpenAttrArgs as Xdr>::wire);
        }
        let _ = self.create_dir.encode(out);
        Ok(())
    }

    fn decode<'a>(input: &'a [u8]) -> (r: Result<(OpenAttrArgs, &'a [u8]), XdrError>) {
        proof {
            reveal(<OpenAttrArgs as Xdr>::parse);
        }
        let (create_dir, cur) = bool::decode(input)?;
        Ok((OpenAttrArgs { create_dir }, cur))
    }
}

#[derive(Clone, Debug, PartialEq, Eq)]
pub struct OpenDowngradeArgs {
    pub open_state_id: StateId,
    pub sequence_id: SequenceId,
    pub share_access: ShareAccess,
    pub share_deny: ShareDeny,
}

/// What a [`OpenDowngradeArgs`] stands for.
pub struct OpenDowngradeArgsModel {
    pub open_state_id: StateIdModel,
    pub sequence_id: SequenceId,
    pub share_access: ShareAccess,
    pub share_deny: ShareDeny,
}

impl Xdr for OpenDowngradeArgs {
    type Model = OpenDowngradeArgsModel;

    #[verifier::opaque]
    open spec fn model(&self) -> OpenDowngradeArgsModel {
        OpenDowngradeArgsModel {
            open_state_id: self.open_state_id.model(),
            sequence_id: self.sequence_id.model(),
            share_access: self.share_access.model(),
            share_deny: self.share_deny.model(),
        }
    }

    #[verifier::opaque]
    open spec fn wf(m: OpenDowngradeArgsModel) -> bool {
        &&& StateId::wf(m.open_state_id)
        &&& SequenceId::wf(m.sequence_id)
        &&& ShareAccess::wf(m.share_access)
        &&& ShareDeny::wf(m.share_deny)
    }

    #[verifier::opaque]
    open spec fn wire(m: OpenDowngradeArgsModel) -> Seq<u8> {
        StateId::wire(m.open_state_id)
            + SequenceId::wire(m.sequence_id)
            + ShareAccess::wire(m.share_access)
            + ShareDeny::wire(m.share_deny)
    }

    #[verifier::opaque]
    open spec fn parse(s: Seq<u8>) -> Result<(OpenDowngradeArgsModel, Seq<u8>), XdrError> {
        match StateId::parse(s) {
            Err(e) => Err(e),
            Ok((open_state_id, s1)) => match SequenceId::parse(s1) {
                Err(e) => Err(e),
                Ok((sequence_id, s2)) => match ShareAccess::parse(s2) {
                    Err(e) => Err(e),
                    Ok((share_access, s3)) => match ShareDeny::parse(s3) {
                        Err(e) => Err(e),
                        Ok((share_deny, s4)) => {
                            Ok(
                                (
                                    OpenDowngradeArgsModel {
                                        open_state_id,
                                        sequence_id,
                                        share_access,
                                        share_deny,
                                    },
                                    s4,
                                ),
                            )
                        },
                    },
                },
            },
        }
    }

    proof fn lemma_round_trip(m: OpenDowngradeArgsModel, rest: Seq<u8>) {
        reveal(<OpenDowngradeArgs as Xdr>::wf);
        reveal(<OpenDowngradeArgs as Xdr>::wire);
        reveal(<OpenDowngradeArgs as Xdr>::parse);
        let w1 = StateId::wire(m.open_state_id);
        let w2 = SequenceId::wire(m.sequence_id);
        let w3 = ShareAccess::wire(m.share_access);
        let w4 = ShareDeny::wire(m.share_deny);
        let r4 = rest;
        let r3 = w4 + r4;
        let r2 = w3 + r3;
        let r1 = w2 + r2;
        lemma_concat_assoc(w1 + w2 + w3, w4, r4);
        lemma_concat_assoc(w1 + w2, w3, r3);
        lemma_concat_assoc(w1, w2, r2);
        StateId::lemma_round_trip(m.open_state_id, r1);
        SequenceId::lemma_round_trip(m.sequence_id, r2);
        ShareAccess::lemma_round_trip(m.share_access, r3);
        ShareDeny::lemma_round_trip(m.share_deny, r4);
    }

    fn encode(&self, out: &mut Vec<u8>) -> (r: Result<(), EncodeError>) {
        proof {
            reveal(<OpenDowngradeArgs as Xdr>::model);
            reveal(<OpenDowngradeArgs as Xdr>::wf);
            reveal(<OpenDowngradeArgs as Xdr>::wire);
        }
        let ghost m = self.model();
        let ghost w1 = StateId::wire(m.open_state_id);
        let ghost w2 = SequenceId::wire(m.sequence_id);
        let ghost w3 = ShareAccess::wire(m.share_access);
        let ghost w4 = ShareDeny::wire(m.share_deny);
        self.open_state_id.encode(out)?;
        self.sequence_id.encode(out)?;
        proof {
            lemma_concat_assoc(old(out)@, w1, w2);
        }
        self.share_access.encode(out)?;
        proof {
            lemma_concat_assoc(old(out)@, w1 + w2, w3);
        }
        self.share_deny.encode(out)?;
        proof {
            lemma_concat_assoc(old(out)@, w1 + w2 + w3, w4);
        }
        Ok(())
    }

    fn decode<'a>(input: &'a [u8]) -> (r: Result<(OpenDowngradeArgs, &'a [u8]), XdrError>) {
        proof {
            reveal(<OpenDowngradeArgs as Xdr>::model);
            reveal(<OpenDowngradeArgs as Xdr>::parse);
        }
        let (open_state_id, cur) = StateId::decode(input)?;
        let (sequence_id, cur) = SequenceId::decode(cur)?;
        let (share_access, cur) = ShareAccess::decode(cur)?;
        let (share_deny, cur) = ShareDeny::decode(cur)?;
        Ok((OpenDowngradeArgs { open_state_id, sequence_id, share_access, share_deny }, cur))
    }
}

#[derive(Clone, Debug, PartialEq, Eq)]
pub struct PutFhArgs {
    pub object: FileHandle,
}

/// What a [`PutFhArgs`] stands for.
pub struct PutFhArgsModel {
    pub object: FileHandleModel,
}

impl Xdr for PutFhArgs {
    type Model = PutFhArgsModel;

    #[verifier::opaque]
    open spec fn model(&self) -> PutFhArgsModel {
        PutFhArgsModel { object: self.object.model() }
    }

    #[verifier::opaque]
    open spec fn wf(m: PutFhArgsModel) -> bool {
        &&& FileHandle::wf(m.object)
    }

    #[verifier::opaque]
    open spec fn wire(m: PutFhArgsModel) -> Seq<u8> {
        FileHandle::wire(m.object)
    }

    #[verifier::opaque]
    open spec fn parse(s: Seq<u8>) -> Result<(PutFhArgsModel, Seq<u8>), XdrError> {
        match FileHandle::parse(s) {
            Err(e) => Err(e),
            Ok((object, s1)) => Ok((PutFhArgsModel { object }, s1)),
        }
    }

    proof fn lemma_round_trip(m: PutFhArgsModel, rest: Seq<u8>) {
        reveal(<PutFhArgs as Xdr>::wf);
        reveal(<PutFhArgs as Xdr>::wire);
        reveal(<PutFhArgs as Xdr>::parse);
        FileHandle::lemma_round_trip(m.object, rest);
    }

    fn encode(&self, out: &mut Vec<u8>) -> (r: Result<(), EncodeError>) {
        proof {
            reveal(<PutFhArgs as Xdr>::model);
            reveal(<PutFhArgs as Xdr>::wf);
            reveal(<PutFhArgs as Xdr>::wire);
        }
        self.object.encode(out)?;
        Ok(())
    }

    fn decode<'a>(input: &'a [u8]) -> (r: Result<(PutFhArgs, &'a [u8]), XdrError>) {
        proof {
            reveal(<PutFhArgs as Xdr>::model);
            reveal(<PutFhArgs as Xdr>::parse);
        }
        let (object, cur) = FileHandle::decode(input)?;
        Ok((PutFhArgs { object }, cur))
    }
}

#[derive(Clone, Debug, PartialEq, Eq)]
pub struct ReadArgs {
    pub state_id: StateId,
    pub offset: u64,
    pub count: u32,
}

/// What a [`ReadArgs`] stands for.
pub struct ReadArgsModel {
    pub state_id: StateIdModel,
    pub offset: u64,
    pub count: u32,
}

impl Xdr for ReadArgs {
    type Model = ReadArgsModel;

    #[verifier::opaque]
    open spec fn model(&self) -> ReadArgsModel {
        ReadArgsModel {
            state_id: self.state_id.model(),
            offset: self.offset.model(),
            count: self.count.model(),
        }
    }

    #[verifier::opaque]
    open spec fn wf(m: ReadArgsModel) -> bool {
        &&& StateId::wf(m.state_id)
    }

    #[verifier::opaque]
    open spec fn wire(m: ReadArgsModel) -> Seq<u8> {
        StateId::wire(m.state_id) + u64::wire(m.offset) + u32::wire(m.count)
    }

    #[verifier::opaque]
    open spec fn parse(s: Seq<u8>) -> Result<(ReadArgsModel, Seq<u8>), XdrError> {
        match StateId::parse(s) {
            Err(e) => Err(e),
            Ok((state_id, s1)) => match u64::parse(s1) {
                Err(e) => Err(e),
                Ok((offset, s2)) => match u32::parse(s2) {
                    Err(e) => Err(e),
                    Ok((count, s3)) => Ok((ReadArgsModel { state_id, offset, count }, s3)),
                },
            },
        }
    }

    proof fn lemma_round_trip(m: ReadArgsModel, rest: Seq<u8>) {
        reveal(<ReadArgs as Xdr>::wf);
        reveal(<ReadArgs as Xdr>::wire);
        reveal(<ReadArgs as Xdr>::parse);
        let w1 = StateId::wire(m.state_id);
        let w2 = u64::wire(m.offset);
        let w3 = u32::wire(m.count);
        let r3 = rest;
        let r2 = w3 + r3;
        let r1 = w2 + r2;
        lemma_concat_assoc(w1 + w2, w3, r3);
        lemma_concat_assoc(w1, w2, r2);
        StateId::lemma_round_trip(m.state_id, r1);
        u64::lemma_round_trip(m.offset, r2);
        u32::lemma_round_trip(m.count, r3);
    }

    fn encode(&self, out: &mut Vec<u8>) -> (r: Result<(), EncodeError>) {
        proof {
            reveal(<ReadArgs as Xdr>::model);
            reveal(<ReadArgs as Xdr>::wf);
            reveal(<ReadArgs as Xdr>::wire);
        }
        let ghost m = self.model();
        let ghost w1 = StateId::wire(m.state_id);
        let ghost w2 = u64::wire(m.offset);
        let ghost w3 = u32::wire(m.count);
        self.state_id.encode(out)?;
        let _ = self.offset.encode(out);
        proof {
            lemma_concat_assoc(old(out)@, w1, w2);
        }
        let _ = self.count.encode(out);
        proof {
            lemma_concat_assoc(old(out)@, w1 + w2, w3);
        }
        Ok(())
    }

    fn decode<'a>(input: &'a [u8]) -> (r: Result<(ReadArgs, &'a [u8]), XdrError>) {
        proof {
            reveal(<ReadArgs as Xdr>::model);
            reveal(<ReadArgs as Xdr>::parse);
        }
        let (state_id, cur) = StateId::decode(input)?;
        let (offset, cur) = u64::decode(cur)?;
        let (count, cur) = u32::decode(cur)?;
        Ok((ReadArgs { state_id, offset, count }, cur))
    }
}

#[derive(Clone, Debug, PartialEq, Eq)]
pub struct ReadDirArgs {
    pub cookie: Cookie,
    pub cookie_verifier: Verifier,
    pub directory_count: u32,
    pub max_count: u32,
    pub attr_request: EnumSet<FileAttributeId>,
}

/// What a [`ReadDirArgs`] stands for.
pub struct ReadDirArgsModel {
    pub cookie: Cookie,
    pub cookie_verifier: Verifier,
    pub directory_count: u32,
    pub max_count: u32,
    pub attr_request: Seq<FileAttributeId>,
}

impl Xdr for ReadDirArgs {
    type Model = ReadDirArgsModel;

    #[verifier::opaque]
    open spec fn model(&self) -> ReadDirArgsModel {
        ReadDirArgsModel {
            cookie: self.cookie.model(),
            cookie_verifier: self.cookie_verifier.model(),
            directory_count: self.directory_count.model(),
            max_count: self.max_count.model(),
            attr_request: self.attr_request.model(),
        }
    }

    #[verifier::opaque]
    open spec fn wf(m: ReadDirArgsModel) -> bool {
        &&& Cookie::wf(m.cookie)
        &&& Verifier::wf(m.cookie_verifier)
        &&& EnumSet::<FileAttributeId>::wf(m.attr_request)
    }

    #[verifier::opaque]
    open spec fn wire(m: ReadDirArgsModel) -> Seq<u8> {
        Cookie::wire(m.cookie)
            + Verifier::wire(m.cookie_verifier)
            + u32::wire(m.directory_count)
            + u32::wire(m.max_count)
            + EnumSet::<FileAttributeId>::wire(m.attr_request)
    }

    #[verifier::opaque]
    open spec fn parse(s: Seq<u8>) -> Result<(ReadDirArgsModel, Seq<u8>), XdrError> {
        match Cookie::parse(s) {
            Err(e) => Err(e),
            Ok((cookie, s1)) => match Verifier::parse(s1) {
                Err(e) => Err(e),
                Ok((cookie_verifier, s2)) => match u32::parse(s2) {
                    Err(e) => Err(e),
                    Ok((directory_count, s3)) => match u32::parse(s3) {
                        Err(e) => Err(e),
                        Ok((max_count, s4)) => match EnumSet::<FileAttributeId>::parse(s4) {
                            Err(e) => Err(e),
                            Ok((attr_request, s5)) => {
                                Ok(
                                    (
                                        ReadDirArgsModel {
                                            cookie,
                                            cookie_verifier,
                                            directory_count,
                                            max_count,
                                            attr_request,
                                        },
                                        s5,
                                    ),
                                )
                            },
                        },
                    },
                },
            },
        }
    }

    proof fn lemma_round_trip(m: ReadDirArgsModel, rest: Seq<u8>) {
        reveal(<ReadDirArgs as Xdr>::wf);
        reveal(<ReadDirArgs as Xdr>::wire);
        reveal(<ReadDirArgs as Xdr>::parse);
        let w1 = Cookie::wire(m.cookie);
        let w2 = Verifier::wire(m.cookie_verifier);
        let w3 = u32::wire(m.directory_count);
        let w4 = u32::wire(m.max_count);
        let w5 = EnumSet::<FileAttributeId>::wire(m.attr_request);
        let r5 = rest;
        let r4 = w5 + r5;
        let r3 = w4 + r4;
        let r2 = w3 + r3;
        let r1 = w2 + r2;
        lemma_concat_assoc(w1 + w2 + w3 + w4, w5, r5);
        lemma_concat_assoc(w1 + w2 + w3, w4, r4);
        lemma_concat_assoc(w1 + w2, w3, r3);
        lemma_concat_assoc(w1, w2, r2);
        Cookie::lemma_round_trip(m.cookie, r1);
        Verifier::lemma_round_trip(m.cookie_verifier, r2);
        u32::lemma_round_trip(m.directory_count, r3);
        u32::lemma_round_trip(m.max_count, r4);
        EnumSet::<FileAttributeId>::lemma_round_trip(m.attr_request, r5);
    }

    fn encode(&self, out: &mut Vec<u8>) -> (r: Result<(), EncodeError>) {
        proof {
            reveal(<ReadDirArgs as Xdr>::model);
            reveal(<ReadDirArgs as Xdr>::wf);
            reveal(<ReadDirArgs as Xdr>::wire);
        }
        let ghost m = self.model();
        let ghost w1 = Cookie::wire(m.cookie);
        let ghost w2 = Verifier::wire(m.cookie_verifier);
        let ghost w3 = u32::wire(m.directory_count);
        let ghost w4 = u32::wire(m.max_count);
        let ghost w5 = EnumSet::<FileAttributeId>::wire(m.attr_request);
        self.cookie.encode(out)?;
        self.cookie_verifier.encode(out)?;
        proof {
            lemma_concat_assoc(old(out)@, w1, w2);
        }
        let _ = self.directory_count.encode(out);
        proof {
            lemma_concat_assoc(old(out)@, w1 + w2, w3);
        }
        let _ = self.max_count.encode(out);
        proof {
            lemma_concat_assoc(old(out)@, w1 + w2 + w3, w4);
        }
        self.attr_request.encode(out)?;
        proof {
            lemma_concat_assoc(old(out)@, w1 + w2 + w3 + w4, w5);
        }
        Ok(())
    }

    fn decode<'a>(input: &'a [u8]) -> (r: Result<(ReadDirArgs, &'a [u8]), XdrError>) {
        proof {
            reveal(<ReadDirArgs as Xdr>::model);
            reveal(<ReadDirArgs as Xdr>::parse);
        }
        let (cookie, cur) = Cookie::decode(input)?;
        let (cookie_verifier, cur) = Verifier::decode(cur)?;
        let (directory_count, cur) = u32::decode(cur)?;
        let (max_count, cur) = u32::decode(cur)?;
        let (attr_request, cur) = EnumSet::<FileAttributeId>::decode(cur)?;
        Ok((ReadDirArgs { cookie, cookie_verifier, directory_count, max_count, attr_request }, cur))
    }
}

#[derive(Clone, Debug, PartialEq, Eq)]
pub struct RemoveArgs {
    pub target: String,
}

/// What a [`RemoveArgs`] stands for.
pub struct RemoveArgsModel {
    pub target: Seq<char>,
}

impl Xdr for RemoveArgs {
    type Model = RemoveArgsModel;

    #[verifier::opaque]
    open spec fn model(&self) -> RemoveArgsModel {
        RemoveArgsModel { target: self.target.model() }
    }

    #[verifier::opaque]
    open spec fn wf(m: RemoveArgsModel) -> bool {
        &&& String::wf(m.target)
    }

    #[verifier::opaque]
    open spec fn wire(m: RemoveArgsModel) -> Seq<u8> {
        String::wire(m.target)
    }

    #[verifier::opaque]
    open spec fn parse(s: Seq<u8>) -> Result<(RemoveArgsModel, Seq<u8>), XdrError> {
        match String::parse(s) {
            Err(e) => Err(e),
            Ok((target, s1)) => Ok((RemoveArgsModel { target }, s1)),
        }
    }

    proof fn lemma_round_trip(m: RemoveArgsModel, rest: Seq<u8>) {
        reveal(<RemoveArgs as Xdr>::wf);
        reveal(<RemoveArgs as Xdr>::wire);
        reveal(<RemoveArgs as Xdr>::parse);
        String::lemma_round_trip(m.target, rest);
    }

    fn encode(&self, out: &mut Vec<u8>) -> (r: Result<(), EncodeError>) {
        proof {
            reveal(<RemoveArgs as Xdr>::model);
            reveal(<RemoveArgs as Xdr>::wf);
            reveal(<RemoveArgs as Xdr>::wire);
        }
        self.target.encode(out)?;
        Ok(())
    }

    fn decode<'a>(input: &'a [u8]) -> (r: Result<(RemoveArgs, &'a [u8]), XdrError>) {
        proof {
            reveal(<RemoveArgs as Xdr>::model);
            reveal(<RemoveArgs as Xdr>::parse);
        }
        let (target, cur) = String::decode(input)?;
        Ok((RemoveArgs { target }, cur))
    }
}

#[derive(Clone, Debug, PartialEq, Eq)]
pub struct RenameArgs {
    pub old_name: String,
    pub new_name: String,
}

/// What a [`RenameArgs`] stands for.
pub struct RenameArgsModel {
    pub old_name: Seq<char>,
    pub new_name: Seq<char>,
}

impl Xdr for RenameArgs {
    type Model = RenameArgsModel;

    #[verifier::opaque]
    open spec fn model(&self) -> RenameArgsModel {
        RenameArgsModel { old_name: self.old_name.model(), new_name: self.new_name.model() }
    }

    #[verifier::opaque]
    open spec fn wf(m: RenameArgsModel) -> bool {
        &&& String::wf(m.old_name)
        &&& String::wf(m.new_name)
    }

    #[verifier::opaque]
    open spec fn wire(m: RenameArgsModel) -> Seq<u8> {
        String::wire(m.old_name) + String::wire(m.new_name)
    }

    #[verifier::opaque]
    open spec fn parse(s: Seq<u8>) -> Result<(RenameArgsModel, Seq<u8>), XdrError> {
        match String::parse(s) {
            Err(e) => Err(e),
            Ok((old_name, s1)) => match String::parse(s1) {
                Err(e) => Err(e),
                Ok((new_name, s2)) => Ok((RenameArgsModel { old_name, new_name }, s2)),
            },
        }
    }

    proof fn lemma_round_trip(m: RenameArgsModel, rest: Seq<u8>) {
        reveal(<RenameArgs as Xdr>::wf);
        reveal(<RenameArgs as Xdr>::wire);
        reveal(<RenameArgs as Xdr>::parse);
        let w1 = String::wire(m.old_name);
        let w2 = String::wire(m.new_name);
        let r2 = rest;
        let r1 = w2 + r2;
        lemma_concat_assoc(w1, w2, r2);
        String::lemma_round_trip(m.old_name, r1);
        String::lemma_round_trip(m.new_name, r2);
    }

    fn encode(&self, out: &mut Vec<u8>) -> (r: Result<(), EncodeError>) {
        proof {
            reveal(<RenameArgs as Xdr>::model);
            reveal(<RenameArgs as Xdr>::wf);
            reveal(<RenameArgs as Xdr>::wire);
        }
        let ghost m = self.model();
        let ghost w1 = String::wire(m.old_name);
        let ghost w2 = String::wire(m.new_name);
        self.old_name.encode(out)?;
        self.new_name.encode(out)?;
        proof {
            lemma_concat_assoc(old(out)@, w1, w2);
        }
        Ok(())
    }

    fn decode<'a>(input: &'a [u8]) -> (r: Result<(RenameArgs, &'a [u8]), XdrError>) {
        proof {
            reveal(<RenameArgs as Xdr>::model);
            reveal(<RenameArgs as Xdr>::parse);
        }
        let (old_name, cur) = String::decode(input)?;
        let (new_name, cur) = String::decode(cur)?;
        Ok((RenameArgs { old_name, new_name }, cur))
    }
}

#[derive(Clone, Debug, PartialEq, Eq)]
pub struct SecInfoArgs {
    pub name: String,
}

/// What a [`SecInfoArgs`] stands for.
pub struct SecInfoArgsModel {
    pub name: Seq<char>,
}

impl Xdr for SecInfoArgs {
    type Model = SecInfoArgsModel;

    #[verifier::opaque]
    open spec fn model(&self) -> SecInfoArgsModel {
        SecInfoArgsModel { name: self.name.model() }
    }

    #[verifier::opaque]
    open spec fn wf(m: SecInfoArgsModel) -> bool {
        &&& String::wf(m.name)
    }

    #[verifier::opaque]
    open spec fn wire(m: SecInfoArgsModel) -> Seq<u8> {
        String::wire(m.name)
    }

    #[verifier::opaque]
    open spec fn parse(s: Seq<u8>) -> Result<(SecInfoArgsModel, Seq<u8>), XdrError> {
        match String::parse(s) {
            Err(e) => Err(e),
            Ok((name, s1)) => Ok((SecInfoArgsModel { name }, s1)),
        }
    }

    proof fn lemma_round_trip(m: SecInfoArgsModel, rest: Seq<u8>) {
        reveal(<SecInfoArgs as Xdr>::wf);
        reveal(<SecInfoArgs as Xdr>::wire);
        reveal(<SecInfoArgs as Xdr>::parse);
        String::lemma_round_trip(m.name, rest);
    }

    fn encode(&self, out: &mut Vec<u8>) -> (r: Result<(), EncodeError>) {
        proof {
            reveal(<SecInfoArgs as Xdr>::model);
            reveal(<SecInfoArgs as Xdr>::wf);
            reveal(<SecInfoArgs as Xdr>::wire);
        }
        self.name.encode(out)?;
        Ok(())
    }

    fn decode<'a>(input: &'a [u8]) -> (r: Result<(SecInfoArgs, &'a [u8]), XdrError>) {
        proof {
            reveal(<SecInfoArgs as Xdr>::model);
            reveal(<SecInfoArgs as Xdr>::parse);
        }
        let (name, cur) = String::decode(input)?;
        Ok((SecInfoArgs { name }, cur))
    }
}

#[derive(Clone, Debug, PartialEq, Eq)]
pub struct SetAttrArgs {
    pub state_id: StateId,
    pub object_attributes: FileAttributes,
}

/// What a [`SetAttrArgs`] stands for.
pub struct SetAttrArgsModel {
    pub state_id: StateIdModel,
    pub object_attributes: Seq<FileAttributeModel>,
}

impl Xdr for SetAttrArgs {
    type Model = SetAttrArgsModel;

    #[verifier::opaque]
    open spec fn model(&self) -> SetAttrArgsModel {
        SetAttrArgsModel {
            state_id: self.state_id.model(),
            object_attributes: self.object_attributes.model(),
        }
    }

    #[verifier::opaque]
    open spec fn wf(m: SetAttrArgsModel) -> bool {
        &&& StateId::wf(m.state_id)
        &&& FileAttributes::wf(m.object_attributes)
    }

    #[verifier::opaque]
    open spec fn wire(m: SetAttrArgsModel) -> Seq<u8> {
        StateId::wire(m.state_id) + FileAttributes::wire(m.object_attributes)
    }

    #[verifier::opaque]
    open spec fn parse(s: Seq<u8>) -> Result<(SetAttrArgsModel, Seq<u8>), XdrError> {
        match StateId::parse(s) {
            Err(e) => Err(e),
            Ok((state_id, s1)) => match FileAttributes::parse(s1) {
                Err(e) => Err(e),
                Ok((object_attributes, s2)) => {
                    Ok((SetAttrArgsModel { state_id, object_attributes }, s2))
                },
            },
        }
    }

    proof fn lemma_round_trip(m: SetAttrArgsModel, rest: Seq<u8>) {
        reveal(<SetAttrArgs as Xdr>::wf);
        reveal(<SetAttrArgs as Xdr>::wire);
        reveal(<SetAttrArgs as Xdr>::parse);
        let w1 = StateId::wire(m.state_id);
        let w2 = FileAttributes::wire(m.object_attributes);
        let r2 = rest;
        let r1 = w2 + r2;
        lemma_concat_assoc(w1, w2, r2);
        StateId::lemma_round_trip(m.state_id, r1);
        FileAttributes::lemma_round_trip(m.object_attributes, r2);
    }

    fn encode(&self, out: &mut Vec<u8>) -> (r: Result<(), EncodeError>) {
        proof {
            reveal(<SetAttrArgs as Xdr>::model);
            reveal(<SetAttrArgs as Xdr>::wf);
            reveal(<SetAttrArgs as Xdr>::wire);
        }
        let ghost m = self.model();
        let ghost w1 = StateId::wire(m.state_id);
        let ghost w2 = FileAttributes::wire(m.object_attributes);
        self.state_id.encode(out)?;
        self.object_attributes.encode(out)?;
        proof {
            lemma_concat_assoc(old(out)@, w1, w2);
        }
        Ok(())
    }

    fn decode<'a>(input: &'a [u8]) -> (r: Result<(SetAttrArgs, &'a [u8]), XdrError>) {
        proof {
            reveal(<SetAttrArgs as Xdr>::model);
            reveal(<SetAttrArgs as Xdr>::parse);
        }
        let (state_id, cur) = StateId::decode(input)?;
        let (object_attributes, cur) = FileAttributes::decode(cur)?;
        Ok((SetAttrArgs { state_id, object_attributes }, cur))
    }
}

#[derive(Clone, Debug, PartialEq, Eq)]
pub struct VerifyArgs {
    pub object_attributes: FileAttributes,
}

/// What a [`VerifyArgs`] stands for.
pub struct VerifyArgsModel {
    pub object_attributes: Seq<FileAttributeModel>,
}

impl Xdr for VerifyArgs {
    type Model = VerifyArgsModel;

    #[verifier::opaque]
    open spec fn model(&self) -> VerifyArgsModel {
        VerifyArgsModel { object_attributes: self.object_attributes.model() }
    }

    #[verifier::opaque]
    open spec fn wf(m: VerifyArgsModel) -> bool {
        &&& FileAttributes::wf(m.object_attributes)
    }

    #[verifier::opaque]
    open spec fn wire(m: VerifyArgsModel) -> Seq<u8> {
        FileAttributes::wire(m.object_attributes)
    }

    #[verifier::opaque]
    open spec fn parse(s: Seq<u8>) -> Result<(VerifyArgsModel, Seq<u8>), XdrError> {
        match FileAttributes::parse(s) {
            Err(e) => Err(e),
            Ok((object_attributes, s1)) => Ok((VerifyArgsModel { object_attributes }, s1)),
        }
    }

    proof fn lemma_round_trip(m: VerifyArgsModel, rest: Seq<u8>) {
        reveal(<VerifyArgs as Xdr>::wf);
        reveal(<VerifyArgs as Xdr>::wire);
        reveal(<VerifyArgs as Xdr>::parse);
        FileAttributes::lemma_round_trip(m.object_attributes, rest);
    }

    fn encode(&self, out: &mut Vec<u8>) -> (r: Result<(), EncodeError>) {
        proof {
            reveal(<VerifyArgs as Xdr>::model);
            reveal(<VerifyArgs as Xdr>::wf);
            reveal(<VerifyArgs as Xdr>::wire);
        }
        self.object_attributes.encode(out)?;
        Ok(())
    }

    fn decode<'a>(input: &'a [u8]) -> (r: Result<(VerifyArgs, &'a [u8]), XdrError>) {
        proof {
            reveal(<VerifyArgs as Xdr>::model);
            reveal(<VerifyArgs as Xdr>::parse);
        }
        let (object_attributes, cur) = FileAttributes::decode(input)?;
        Ok((VerifyArgs { object_attributes }, cur))
    }
}

#[derive(Clone, Debug, PartialEq, Eq)]
pub struct WriteArgs {
    pub state_id: StateId,
    pub offset: u64,
    pub stable: StableHow,
    pub data: Vec<u8>,
}

/// What a [`WriteArgs`] stands for.
pub struct WriteArgsModel {
    pub state_id: StateIdModel,
    pub offset: u64,
    pub stable: StableHow,
    pub data: Seq<u8>,
}

impl Xdr for WriteArgs {
    type Model = WriteArgsModel;

    #[verifier::opaque]
    open spec fn model(&self) -> WriteArgsModel {
        WriteArgsModel {
            state_id: self.state_id.model(),
            offset: self.offset.model(),
            stable: self.stable.model(),
            data: self.data@,
        }
    }

    #[verifier::opaque]
    open spec fn wf(m: WriteArgsModel) -> bool {
        &&& StateId::wf(m.state_id)
        &&& StableHow::wf(m.stable)
        &&& wf_opaque(m.data)
    }

    #[verifier::opaque]
    open spec fn wire(m: WriteArgsModel) -> Seq<u8> {
        StateId::wire(m.state_id)
            + u64::wire(m.offset)
            + StableHow::wire(m.stable)
            + wire_opaque(m.data)
    }

    #[verifier::opaque]
    open spec fn parse(s: Seq<u8>) -> Result<(WriteArgsModel, Seq<u8>), XdrError> {
        match StateId::parse(s) {
            Err(e) => Err(e),
            Ok((state_id, s1)) => match u64::parse(s1) {
                Err(e) => Err(e),
                Ok((offset, s2)) => match StableHow::parse(s2) {
                    Err(e) => Err(e),
                    Ok((stable, s3)) => match parse_opaque(s3) {
                        Err(e) => Err(e),
                        Ok((data, s4)) => {
                            Ok((WriteArgsModel { state_id, offset, stable, data }, s4))
                        },
                    },
                },
            },
        }
    }

    proof fn lemma_round_trip(m: WriteArgsModel, rest: Seq<u8>) {
        reveal(<WriteArgs as Xdr>::wf);
        reveal(<WriteArgs as Xdr>::wire);
        reveal(<WriteArgs as Xdr>::parse);
        let w1 = StateId::wire(m.state_id);
        let w2 = u64::wire(m.offset);
        let w3 = StableHow::wire(m.stable);
        let w4 = wire_opaque(m.data);
        let r4 = rest;
        let r3 = w4 + r4;
        let r2 = w3 + r3;
        let r1 = w2 + r2;
        lemma_concat_assoc(w1 + w2 + w3, w4, r4);
        lemma_concat_assoc(w1 + w2, w3, r3);
        lemma_concat_assoc(w1, w2, r2);
        StateId::lemma_round_trip(m.state_id, r1);
        u64::lemma_round_trip(m.offset, r2);
        StableHow::lemma_round_trip(m.stable, r3);
        lemma_opaque_round_trip(m.data, r4);
    }

    fn encode(&self, out: &mut Vec<u8>) -> (r: Result<(), EncodeError>) {
        proof {
            reveal(<WriteArgs as Xdr>::model);
            reveal(<WriteArgs as Xdr>::wf);
            reveal(<WriteArgs as Xdr>::wire);
        }
        let ghost m = self.model();
        let ghost w1 = StateId::wire(m.state_id);
        let ghost w2 = u64::wire(m.offset);
        let ghost w3 = StableHow::wire(m.stable);
        let ghost w4 = wire_opaque(m.data);
        self.state_id.encode(out)?;
        let _ = self.offset.encode(out);
        proof {
            lemma_concat_assoc(old(out)@, w1, w2);
        }
        self.stable.encode(out)?;
        proof {
            lemma_concat_assoc(old(out)@, w1 + w2, w3);
        }
        encode_opaque(self.data.as_slice(), out)?;
        proof {
            lemma_concat_assoc(old(out)@, w1 + w2 + w3, w4);
        }
        Ok(())
    }

    fn decode<'a>(input: &'a [u8]) -> (r: Result<(WriteArgs, &'a [u8]), XdrError>) {
        proof {
            reveal(<WriteArgs as Xdr>::model);
            reveal(<WriteArgs as Xdr>::parse);
        }
        let (state_id, cur) = StateId::decode(input)?;
        let (offset, cur) = u64::decode(cur)?;
        let (stable, cur) = StableHow::decode(cur)?;
        let (data, cur) = decode_opaque(cur)?;
        let data = copy_bytes(data);
        Ok((WriteArgs { state_id, offset, stable, data }, cur))
    }
}

#[derive(Clone, Debug, PartialEq, Eq)]
pub struct GssCallbackHandles {
    pub service: RpcGssService,
    pub handle_from_server: GssHandle,
    pub handle_from_client: GssHandle,
}

/// What a [`GssCallbackHandles`] stands for.
pub struct GssCallbackHandlesModel {
    pub service: RpcGssService,
    pub handle_from_server: GssHandleModel,
    pub handle_from_client: GssHandleModel,
}

impl Xdr for GssCallbackHandles {
    type Model = GssCallbackHandlesModel;

    #[verifier::opaque]
    open spec fn model(&self) -> GssCallbackHandlesModel {
        GssCallbackHandlesModel {
            service: self.service.model(),
            handle_from_server: self.handle_from_server.model(),
            handle_from_client: self.handle_from_client.model(),
        }
    }

    #[verifier::opaque]
    open spec fn wf(m: GssCallbackHandlesModel) -> bool {
        &&& RpcGssService::wf(m.service)
        &&& GssHandle::wf(m.handle_from_server)
        &&& GssHandle::wf(m.handle_from_client)
    }

    #[verifier::opaque]
    open spec fn wire(m: GssCallbackHandlesModel) -> Seq<u8> {
        RpcGssService::wire(m.service)
            + GssHandle::wire(m.handle_from_server)
            + GssHandle::wire(m.handle_from_client)
    }

    #[verifier::opaque]
    open spec fn parse(s: Seq<u8>) -> Result<(GssCallbackHandlesModel, Seq<u8>), XdrError> {
        match RpcGssService::parse(s) {
            Err(e) => Err(e),
            Ok((service, s1)) => match GssHandle::parse(s1) {
                Err(e) => Err(e),
                Ok((handle_from_server, s2)) => match GssHandle::parse(s2) {
                    Err(e) => Err(e),
                    Ok((handle_from_client, s3)) => {
                        Ok(
                            (
                                GssCallbackHandlesModel {
                                    service,
                                    handle_from_server,
                                    handle_from_client,
                                },
                                s3,
                            ),
                        )
                    },
                },
            },
        }
    }

    proof fn lemma_round_trip(m: GssCallbackHandlesModel, rest: Seq<u8>) {
        reveal(<GssCallbackHandles as Xdr>::wf);
        reveal(<GssCallbackHandles as Xdr>::wire);
        reveal(<GssCallbackHandles as Xdr>::parse);
        let w1 = RpcGssService::wire(m.service);
        let w2 = GssHandle::wire(m.handle_from_server);
        let w3 = GssHandle::wire(m.handle_from_client);
        let r3 = rest;
        let r2 = w3 + r3;
        let r1 = w2 + r2;
        lemma_concat_assoc(w1 + w2, w3, r3);
        lemma_concat_assoc(w1, w2, r2);
        RpcGssService::lemma_round_trip(m.service, r1);
        GssHandle::lemma_round_trip(m.handle_from_server, r2);
        GssHandle::lemma_round_trip(m.handle_from_client, r3);
    }

    fn encode(&self, out: &mut Vec<u8>) -> (r: Result<(), EncodeError>) {
        proof {
            reveal(<GssCallbackHandles as Xdr>::model);
            reveal(<GssCallbackHandles as Xdr>::wf);
            reveal(<GssCallbackHandles as Xdr>::wire);
        }
        let ghost m = self.model();
        let ghost w1 = RpcGssService::wire(m.service);
        let ghost w2 = GssHandle::wire(m.handle_from_server);
        let ghost w3 = GssHandle::wire(m.handle_from_client);
        self.service.encode(out)?;
        self.handle_from_server.encode(out)?;
        proof {
            lemma_concat_assoc(old(out)@, w1, w2);
        }
        self.handle_from_client.encode(out)?;
        proof {
            lemma_concat_assoc(old(out)@, w1 + w2, w3);
        }
        Ok(())
    }

    fn decode<'a>(input: &'a [u8]) -> (r: Result<(GssCallbackHandles, &'a [u8]), XdrError>) {
        proof {
            reveal(<GssCallbackHandles as Xdr>::model);
            reveal(<GssCallbackHandles as Xdr>::parse);
        }
        let (service, cur) = RpcGssService::decode(input)?;
        let (handle_from_server, cur) = GssHandle::decode(cur)?;
        let (handle_from_client, cur) = GssHandle::decode(cur)?;
        Ok((GssCallbackHandles { service, handle_from_server, handle_from_client }, cur))
    }
}

#[derive(Clone, Debug, PartialEq, Eq)]
pub enum CallbackSecurityParameters {
    Null,
    Sys(AuthSysParameters),
    RpcSecGss(GssCallbackHandles),
}

/// What a [`CallbackSecurityParameters`] stands for.
pub enum CallbackSecurityParametersModel {
    Null,
    Sys(AuthSysParametersModel),
    RpcSecGss(GssCallbackHandlesModel),
}

impl CallbackSecurityParameters {
    /// The discriminant that leads the encoding of a value.
    pub open spec fn tag(m: CallbackSecurityParametersModel) -> u32 {
        match m {
            CallbackSecurityParametersModel::Null => 0,
            CallbackSecurityParametersModel::Sys(..) => 1,
            CallbackSecurityParametersModel::RpcSecGss(..) => 6,
        }
    }

    /// What follows the discriminant in the encoding of a value.
    #[verifier::opaque]
    pub open spec fn wire_payload(m: CallbackSecurityParametersModel) -> Seq<u8> {
        match m {
            CallbackSecurityParametersModel::Null => Seq::<u8>::empty(),
            CallbackSecurityParametersModel::Sys(f0) => AuthSysParameters::wire(f0),
            CallbackSecurityParametersModel::RpcSecGss(f0) => GssCallbackHandles::wire(f0),
        }
    }

    /// The value with the discriminant `tag` whose payload is at the front of `s`.
    #[verifier::opaque]
    pub open spec fn parse_payload(
        tag: u32,
        s: Seq<u8>,
    ) -> Result<(CallbackSecurityParametersModel, Seq<u8>), XdrError> {
        if tag == 0 {
            Ok((CallbackSecurityParametersModel::Null, s))
        } else if tag == 1 {
            match AuthSysParameters::parse(s) {
                Err(e) => Err(e),
                Ok((f0, s1)) => Ok((CallbackSecurityParametersModel::Sys(f0), s1)),
            }
        } else if tag == 6 {
            match GssCallbackHandles::parse(s) {
                Err(e) => Err(e),
                Ok((f0, s1)) => Ok((CallbackSecurityParametersModel::RpcSecGss(f0), s1)),
            }
        } else {
            Err(XdrError::BadDiscriminant("CallbackSecurityParameters", tag))
        }
    }

    pub proof fn lemma_payload_round_trip(m: CallbackSecurityParametersModel, rest: Seq<u8>)
        requires
            <CallbackSecurityParameters as Xdr>::wf(m),
        ensures
            Self::parse_payload(Self::tag(m), Self::wire_payload(m) + rest)
                == Ok::<(CallbackSecurityParametersModel, Seq<u8>), XdrError>((m, rest)),
    {
        reveal(<CallbackSecurityParameters as Xdr>::wf);
        reveal(CallbackSecurityParameters::wire_payload);
        reveal(CallbackSecurityParameters::parse_payload);
        match m {
            CallbackSecurityParametersModel::Null => {
                assert(Seq::<u8>::empty() + rest =~= rest);
            },
            CallbackSecurityParametersModel::Sys(f0) => {
                AuthSysParameters::lemma_round_trip(f0, rest);
            },
            CallbackSecurityParametersModel::RpcSecGss(f0) => {
                GssCallbackHandles::lemma_round_trip(f0, rest);
            },
        }
    }

    /// The encoding of a value begins with its discriminant, big-endian.
    pub proof fn lemma_wire_leads_with_tag(m: CallbackSecurityParametersModel)
        ensures
            <CallbackSecurityParameters as Xdr>::wire(m).len() >= 4,
            <CallbackSecurityParameters as Xdr>::wire(m).take(4) == wire_u32(Self::tag(m)),
    {
        reveal(<CallbackSecurityParameters as Xdr>::wire);
        reveal(wire_u32);
        assert((wire_u32(Self::tag(m)) + Self::wire_payload(m)).take(4) =~= wire_u32(Self::tag(m)));
    }

    /// The discriminant of a value.
    pub fn tag_of(&self) -> (t: u32)
        ensures
            t == Self::tag(self.model()),
    {
        proof {
            reveal(<CallbackSecurityParameters as Xdr>::model);
        }
        match self {
            CallbackSecurityParameters::Null => 0,
            CallbackSecurityParameters::Sys(..) => 1,
            CallbackSecurityParameters::RpcSecGss(..) => 6,
        }
    }

    /// Appends what follows the discriminant in the encoding of `self`.
    pub fn encode_payload(&self, out: &mut Vec<u8>) -> (r: Result<(), EncodeError>)
        ensures
            r is Ok <==> <CallbackSecurityParameters as Xdr>::wf(self.model()),
            r is Ok ==> final(out)@ == old(out)@ + Self::wire_payload(self.model()),
    {
        proof {
            reveal(<CallbackSecurityParameters as Xdr>::model);
            reveal(<CallbackSecurityParameters as Xdr>::wf);
            reveal(CallbackSecurityParameters::wire_payload);
        }
        match self {
            CallbackSecurityParameters::Null => {
                assert(out@ =~= old(out)@ + Seq::<u8>::empty());
            },
            CallbackSecurityParameters::Sys(f0) => {
                f0.encode(out)?;
            },
            CallbackSecurityParameters::RpcSecGss(f0) => {
                f0.encode(out)?;
            },
        }
        Ok(())
    }

    /// Decodes the payload of the value with the discriminant `tag`.
    pub fn decode_payload<'a>(
        tag: u32,
        input: &'a [u8],
    ) -> (r: Result<(CallbackSecurityParameters, &'a [u8]), XdrError>)
        ensures
            match r {
                Ok((v, rest)) => {
                    Self::parse_payload(tag, input@)
                        == Ok::<(CallbackSecurityParametersModel, Seq<u8>), XdrError>(
                            (v.model(), rest@),
                        )
                },
                Err(e) => {
                    Self::parse_payload(tag, input@)
                        == Err::<(CallbackSecurityParametersModel, Seq<u8>), XdrError>(e)
                },
            },
    {
        proof {
            reveal(<CallbackSecurityParameters as Xdr>::model);
            reveal(CallbackSecurityParameters::parse_payload);
        }
        if tag == 0 {
            Ok((CallbackSecurityParameters::Null, input))
        } else if tag == 1 {
            let (f0, cur) = AuthSysParameters::decode(input)?;
            Ok((CallbackSecurityParameters::Sys(f0), cur))
        } else if tag == 6 {
            let (f0, cur) = GssCallbackHandles::decode(input)?;
            Ok((CallbackSecurityParameters::RpcSecGss(f0), cur))
        } else {
            Err(XdrError::BadDiscriminant("CallbackSecurityParameters", tag))
        }
    }
}

impl Xdr for CallbackSecurityParameters {
    type Model = CallbackSecurityParametersModel;

    #[verifier::opaque]
    open spec fn model(&self) -> CallbackSecurityParametersModel {
        match self {
            CallbackSecurityParameters::Null => CallbackSecurityParametersModel::Null,
            CallbackSecurityParameters::Sys(f0) => CallbackSecurityParametersModel::Sys(f0.model()),
            CallbackSecurityParameters::RpcSecGss(f0) => {
                CallbackSecurityParametersModel::RpcSecGss(f0.model())
            },
        }
    }

    #[verifier::opaque]
    open spec fn wf(m: CallbackSecurityParametersModel) -> bool {
        match m {
            CallbackSecurityParametersModel::Null => true,
            CallbackSecurityParametersModel::Sys(f0) => AuthSysParameters::wf(f0),
            CallbackSecurityParametersModel::RpcSecGss(f0) => GssCallbackHandles::wf(f0),
        }
    }

    #[verifier::opaque]
    open spec fn wire(m: CallbackSecurityParametersModel) -> Seq<u8> {
        wire_u32(Self::tag(m)) + Self::wire_payload(m)
    }

    #[verifier::opaque]
    open spec fn parse(s: Seq<u8>) -> Result<(CallbackSecurityParametersModel, Seq<u8>), XdrError> {
        match parse_u32(s) {
            Ok((tag, r)) => Self::parse_payload(tag, r),
            Err(e) => Err(e),
        }
    }

    proof fn lemma_round_trip(m: CallbackSecurityParametersModel, rest: Seq<u8>) {
        reveal(<CallbackSecurityParameters as Xdr>::wire);
        reveal(<CallbackSecurityParameters as Xdr>::parse);
        lemma_concat_assoc(wire_u32(Self::tag(m)), Self::wire_payload(m), rest);
        lemma_u32_round_trip(Self::tag(m), Self::wire_payload(m) + rest);
        Self::lemma_payload_round_trip(m, rest);
    }

    fn encode(&self, out: &mut Vec<u8>) -> (r: Result<(), EncodeError>) {
        proof {
            reveal(<CallbackSecurityParameters as Xdr>::wire);
        }
        let tag = self.tag_of();
        let _ = tag.encode(out);
        self.encode_payload(out)?;
        proof {
            lemma_concat_assoc(old(out)@, wire_u32(tag), Self::wire_payload(self.model()));
        }
        Ok(())
    }

    fn decode<'a>(
        input: &'a [u8],
    ) -> (r: Result<(CallbackSecurityParameters, &'a [u8]), XdrError>) {
        proof {
            reveal(<CallbackSecurityParameters as Xdr>::parse);
        }
        let (tag, cur) = u32::decode(input)?;
        Self::decode_payload(tag, cur)
    }
}

#[derive(Clone, Debug, PartialEq, Eq)]
pub struct BackchannelCtlArgs {
    pub cp_program: u32,
    pub security_parameters: Vec<CallbackSecurityParameters>,
}

/// What a [`BackchannelCtlArgs`] stands for.
pub struct BackchannelCtlArgsModel {
    pub cp_program: u32,
    pub security_parameters: Seq<CallbackSecurityParametersModel>,
}

impl Xdr for BackchannelCtlArgs {
    type Model = BackchannelCtlArgsModel;

    #[verifier::opaque]
    open spec fn model(&self) -> BackchannelCtlArgsModel {
        BackchannelCtlArgsModel {
            cp_program: self.cp_program.model(),
            security_parameters: self.security_parameters.model(),
        }
    }

    #[verifier::opaque]
    open spec fn wf(m: BackchannelCtlArgsModel) -> bool {
        &&& Vec::<CallbackSecurityParameters>::wf(m.security_parameters)
    }

    #[verifier::opaque]
    open spec fn wire(m: BackchannelCtlArgsModel) -> Seq<u8> {
        u32::wire(m.cp_program) + Vec::<CallbackSecurityParameters>::wire(m.security_parameters)
    }

    #[verifier::opaque]
    open spec fn parse(s: Seq<u8>) -> Result<(BackchannelCtlArgsModel, Seq<u8>), XdrError> {
        match u32::parse(s) {
            Err(e) => Err(e),
            Ok((cp_program, s1)) => match Vec::<CallbackSecurityParameters>::parse(s1) {
                Err(e) => Err(e),
                Ok((security_parameters, s2)) => {
                    Ok((BackchannelCtlArgsModel { cp_program, security_parameters }, s2))
                },
            },
        }
    }

    proof fn lemma_round_trip(m: BackchannelCtlArgsModel, rest: Seq<u8>) {
        reveal(<BackchannelCtlArgs as Xdr>::wf);
        reveal(<BackchannelCtlArgs as Xdr>::wire);
        reveal(<BackchannelCtlArgs as Xdr>::parse);
        let w1 = u32::wire(m.cp_program);
        let w2 = Vec::<CallbackSecurityParameters>::wire(m.security_parameters);
        let r2 = rest;
        let r1 = w2 + r2;
        lemma_concat_assoc(w1, w2, r2);
        u32::lemma_round_trip(m.cp_program, r1);
        Vec::<CallbackSecurityParameters>::lemma_round_trip(m.security_parameters, r2);
    }

    fn encode(&self, out: &mut Vec<u8>) -> (r: Result<(), EncodeError>) {
        proof {
            reveal(<BackchannelCtlArgs as Xdr>::model);
            reveal(<BackchannelCtlArgs as Xdr>::wf);
            reveal(<BackchannelCtlArgs as Xdr>::wire);
        }
        let ghost m = self.model();
        let ghost w1 = u32::wire(m.cp_program);
        let ghost w2 = Vec::<CallbackSecurityParameters>::wire(m.security_parameters);
        let _ = self.cp_program.encode(out);
        self.security_parameters.encode(out)?;
        proof {
            lemma_concat_assoc(old(out)@, w1, w2);
        }
        Ok(())
    }

    fn decode<'a>(input: &'a [u8]) -> (r: Result<(BackchannelCtlArgs, &'a [u8]), XdrError>) {
        proof {
            reveal(<BackchannelCtlArgs as Xdr>::model);
            reveal(<BackchannelCtlArgs as Xdr>::parse);
        }
        let (cp_program, cur) = u32::decode(input)?;
        let (security_parameters, cur) = Vec::<CallbackSecurityParameters>::decode(cur)?;
        Ok((BackchannelCtlArgs { cp_program, security_parameters }, cur))
    }
}

#[derive(Clone, Debug, PartialEq, Eq)]
pub struct BindConnToSessionArgs {
    pub session_id: SessionId,
    pub direction: ChannelDirectionFromServer,
    pub use_connection_in_rdma_mode: bool,
}

/// What a [`BindConnToSessionArgs`] stands for.
pub struct BindConnToSessionArgsModel {
    pub session_id: SessionIdModel,
    pub direction: ChannelDirectionFromServer,
    pub use_connection_in_rdma_mode: bool,
}

impl Xdr for BindConnToSessionArgs {
    type Model = BindConnToSessionArgsModel;

    #[verifier::opaque]
    open spec fn model(&self) -> BindConnToSessionArgsModel {
        BindConnToSessionArgsModel {
            session_id: self.session_id.model(),
            direction: self.direction.model(),
            use_connection_in_rdma_mode: self.use_connection_in_rdma_mode.model(),
        }
    }

    #[verifier::opaque]
    open spec fn wf(m: BindConnToSessionArgsModel) -> bool {
        &&& SessionId::wf(m.session_id)
        &&& ChannelDirectionFromServer::wf(m.direction)
    }

    #[verifier::opaque]
    open spec fn wire(m: BindConnToSessionArgsModel) -> Seq<u8> {
        SessionId::wire(m.session_id)
            + ChannelDirectionFromServer::wire(m.direction)
            + bool::wire(m.use_connection_in_rdma_mode)
    }

    #[verifier::opaque]
    open spec fn parse(s: Seq<u8>) -> Result<(BindConnToSessionArgsModel, Seq<u8>), XdrError> {
        match SessionId::parse(s) {
            Err(e) => Err(e),
            Ok((session_id, s1)) => match ChannelDirectionFromServer::parse(s1) {
                Err(e) => Err(e),
                Ok((direction, s2)) => match bool::parse(s2) {
                    Err(e) => Err(e),
                    Ok((use_connection_in_rdma_mode, s3)) => {
                        Ok(
                            (
                                BindConnToSessionArgsModel {
                                    session_id,
                                    direction,
                                    use_connection_in_rdma_mode,
                                },
                                s3,
                            ),
                        )
                    },
                },
            },
        }
    }

    proof fn lemma_round_trip(m: BindConnToSessionArgsModel, rest: Seq<u8>) {
        reveal(<BindConnToSessionArgs as Xdr>::wf);
        reveal(<BindConnToSessionArgs as Xdr>::wire);
        reveal(<BindConnToSessionArgs as Xdr>::parse);
        let w1 = SessionId::wire(m.session_id);
        let w2 = ChannelDirectionFromServer::wire(m.direction);
        let w3 = bool::wire(m.use_connection_in_rdma_mode);
        let r3 = rest;
        let r2 = w3 + r3;
        let r1 = w2 + r2;
        lemma_concat_assoc(w1 + w2, w3, r3);
        lemma_concat_assoc(w1, w2, r2);
        SessionId::lemma_round_trip(m.session_id, r1);
        ChannelDirectionFromServer::lemma_round_trip(m.direction, r2);
        bool::lemma_round_trip(m.use_connection_in_rdma_mode, r3);
    }

    fn encode(&self, out: &mut Vec<u8>) -> (r: Result<(), EncodeError>) {
        proof {
            reveal(<BindConnToSessionArgs as Xdr>::model);
            reveal(<BindConnToSessionArgs as Xdr>::wf);
            reveal(<BindConnToSessionArgs as Xdr>::wire);
        }
        let ghost m = self.model();
        let ghost w1 = SessionId::wire(m.session_id);
        let ghost w2 = ChannelDirectionFromServer::wire(m.direction);
        let ghost w3 = bool::wire(m.use_connection_in_rdma_mode);
        self.session_id.encode(out)?;
        self.direction.encode(out)?;
        proof {
            lemma_concat_assoc(old(out)@, w1, w2);
        }
        let _ = self.use_connection_in_rdma_mode.encode(out);
        proof {
            lemma_concat_assoc(old(out)@, w1 + w2, w3);
        }
        Ok(())
    }

    fn decode<'a>(input: &'a [u8]) -> (r: Result<(BindConnToSessionArgs, &'a [u8]), XdrError>) {
        proof {
            reveal(<BindConnToSessionArgs as Xdr>::model);
            reveal(<BindConnToSessionArgs as Xdr>::parse);
        }
        let (session_id, cur) = SessionId::decode(input)?;
        let (direction, cur) = ChannelDirectionFromServer::decode(cur)?;
        let (use_connection_in_rdma_mode, cur) = bool::decode(cur)?;
        Ok((BindConnToSessionArgs { session_id, direction, use_connection_in_rdma_mode }, cur))
    }
}

/// Who a client is across restarts: a verifier and octets of its choosing.
#[derive(Clone, Debug, PartialEq, Eq)]
pub struct ClientOwner {
    pub verifier: Verifier,
    pub owner_id: Vec<u8>,
}

/// What a [`ClientOwner`] stands for.
pub struct ClientOwnerModel {
    pub verifier: Verifier,
    pub owner_id: Seq<u8>,
}

impl Xdr for ClientOwner {
    type Model = ClientOwnerModel;

    #[verifier::opaque]
    open spec fn model(&self) -> ClientOwnerModel {
        ClientOwnerModel { verifier: self.verifier.model(), owner_id: self.owner_id@ }
    }

    #[verifier::opaque]
    open spec fn wf(m: ClientOwnerModel) -> bool {
        &&& Verifier::wf(m.verifier)
        &&& wf_opaque(m.owner_id)
    }

    #[verifier::opaque]
    open spec fn wire(m: ClientOwnerModel) -> Seq<u8> {
        Verifier::wire(m.verifier) + wire_opaque(m.owner_id)
    }

    #[verifier::opaque]
    open spec fn parse(s: Seq<u8>) -> Result<(ClientOwnerModel, Seq<u8>), XdrError> {
        match Verifier::parse(s) {
            Err(e) => Err(e),
            Ok((verifier, s1)) => match parse_opaque(s1) {
                Err(e) => Err(e),
                Ok((owner_id, s2)) => Ok((ClientOwnerModel { verifier, owner_id }, s2)),
            },
        }
    }

    proof fn lemma_round_trip(m: ClientOwnerModel, rest: Seq<u8>) {
        reveal(<ClientOwner as Xdr>::wf);
        reveal(<ClientOwner as Xdr>::wire);
        reveal(<ClientOwner as Xdr>::parse);
        let w1 = Verifier::wire(m.verifier);
        let w2 = wire_opaque(m.owner_id);
        let r2 = rest;
        let r1 = w2 + r2;
        lemma_concat_assoc(w1, w2, r2);
        Verifier::lemma_round_trip(m.verifier, r1);
        lemma_opaque_round_trip(m.owner_id, r2);
    }

    fn encode(&self, out: &mut Vec<u8>) -> (r: Result<(), EncodeError>) {
        proof {
            reveal(<ClientOwner as Xdr>::model);
            reveal(<ClientOwner as Xdr>::wf);
            reveal(<ClientOwner as Xdr>::wire);
        }
        let ghost m = self.model();
        let ghost w1 = Verifier::wire(m.verifier);
        let ghost w2 = wire_opaque(m.owner_id);
        self.verifier.encode(out)?;
        encode_opaque(self.owner_id.as_slice(), out)?;
        proof {
            lemma_concat_assoc(old(out)@, w1, w2);
        }
        Ok(())
    }

    fn decode<'a>(input: &'a [u8]) -> (r: Result<(ClientOwner, &'a [u8]), XdrError>) {
        proof {
            reveal(<ClientOwner as Xdr>::model);
            reveal(<ClientOwner as Xdr>::parse);
        }
        let (verifier, cur) = Verifier::decode(input)?;
        let (owner_id, cur) = decode_opaque(cur)?;
        let owner_id = copy_bytes(owner_id);
        Ok((ClientOwner { verifier, owner_id }, cur))
    }
}

#[derive(Clone, Debug, PartialEq, Eq)]
pub struct StateProtectOps {
    pub must_enforce: EnumSet<OperationId>,
    pub must_allow: EnumSet<OperationId>,
}

/// What a [`StateProtectOps`] stands for.
pub struct StateProtectOpsModel {
    pub must_enforce: Seq<OperationId>,
    pub must_allow: Seq<OperationId>,
}

impl Xdr for StateProtectOps {
    type Model = StateProtectOpsModel;

    #[verifier::opaque]
    open spec fn model(&self) -> StateProtectOpsModel {
        StateProtectOpsModel {
            must_enforce: self.must_enforce.model(),
            must_allow: self.must_allow.model(),
        }
    }

    #[verifier::opaque]
    open spec fn wf(m: StateProtectOpsModel) -> bool {
        &&& EnumSet::<OperationId>::wf(m.must_enforce)
        &&& EnumSet::<OperationId>::wf(m.must_allow)
    }

    #[verifier::opaque]
    open spec fn wire(m: StateProtectOpsModel) -> Seq<u8> {
        EnumSet::<OperationId>::wire(m.must_enforce) + EnumSet::<OperationId>::wire(m.must_allow)
    }

    #[verifier::opaque]
    open spec fn parse(s: Seq<u8>) -> Result<(StateProtectOpsModel, Seq<u8>), XdrError> {
        match EnumSet::<OperationId>::parse(s) {
            Err(e) => Err(e),
            Ok((must_enforce, s1)) => match EnumSet::<OperationId>::parse(s1) {
                Err(e) => Err(e),
                Ok((must_allow, s2)) => Ok((StateProtectOpsModel { must_enforce, must_allow }, s2)),
            },
        }
    }

    proof fn lemma_round_trip(m: StateProtectOpsModel, rest: Seq<u8>) {
        reveal(<StateProtectOps as Xdr>::wf);
        reveal(<StateProtectOps as Xdr>::wire);
        reveal(<StateProtectOps as Xdr>::parse);
        let w1 = EnumSet::<OperationId>::wire(m.must_enforce);
        let w2 = EnumSet::<OperationId>::wire(m.must_allow);
        let r2 = rest;
        let r1 = w2 + r2;
        lemma_concat_assoc(w1, w2, r2);
        EnumSet::<OperationId>::lemma_round_trip(m.must_enforce, r1);
        EnumSet::<OperationId>::lemma_round_trip(m.must_allow, r2);
    }

    fn encode(&self, out: &mut Vec<u8>) -> (r: Result<(), EncodeError>) {
        proof {
            reveal(<StateProtectOps as Xdr>::model);
            reveal(<StateProtectOps as Xdr>::wf);
            reveal(<StateProtectOps as Xdr>::wire);
        }
        let ghost m = self.model();
        let ghost w1 = EnumSet::<OperationId>::wire(m.must_enforce);
        let ghost w2 = EnumSet::<OperationId>::wire(m.must_allow);
        self.must_enforce.encode(out)?;
        self.must_allow.encode(out)?;
        proof {
            lemma_concat_assoc(old(out)@, w1, w2);
        }
        Ok(())
    }

    fn decode<'a>(input: &'a [u8]) -> (r: Result<(StateProtectOps, &'a [u8]), XdrError>) {
        proof {
            reveal(<StateProtectOps as Xdr>::model);
            reveal(<StateProtectOps as Xdr>::parse);
        }
        let (must_enforce, cur) = EnumSet::<OperationId>::decode(input)?;
        let (must_allow, cur) = EnumSet::<OperationId>::decode(cur)?;
        Ok((StateProtectOps { must_enforce, must_allow }, cur))
    }
}

#[derive(Clone, Debug, PartialEq, Eq)]
pub struct SsvProtInfo {
    pub ops: StateProtectOps,
    pub hash_algorithm: u32,
    pub encryption_algorithm: u32,
    pub ssv_length: u32,
    pub window: u32,
    pub handles: Vec<GssHandle>,
}

/// What a [`SsvProtInfo`] stands for.
pub struct SsvProtInfoModel {
    pub ops: StateProtectOpsModel,
    pub hash_algorithm: u32,
    pub encryption_algorithm: u32,
    pub ssv_length: u32,
    pub window: u32,
    pub handles: Seq<GssHandleModel>,
}

impl Xdr for SsvProtInfo {
    type Model = SsvProtInfoModel;

    #[verifier::opaque]
    open spec fn model(&self) -> SsvProtInfoModel {
        SsvProtInfoModel {
            ops: self.ops.model(),
            hash_algorithm: self.hash_algorithm.model(),
            encryption_algorithm: self.encryption_algorithm.model(),
            ssv_length: self.ssv_length.model(),
            window: self.window.model(),
            handles: self.handles.model(),
        }
    }

    #[verifier::opaque]
    open spec fn wf(m: SsvProtInfoModel) -> bool {
        &&& StateProtectOps::wf(m.ops)
        &&& Vec::<GssHandle>::wf(m.handles)
    }

    #[verifier::opaque]
    open spec fn wire(m: SsvProtInfoModel) -> Seq<u8> {
        StateProtectOps::wire(m.ops)
            + u32::wire(m.hash_algorithm)
            + u32::wire(m.encryption_algorithm)
            + u32::wire(m.ssv_length)
            + u32::wire(m.window)
            + Vec::<GssHandle>::wire(m.handles)
    }

    #[verifier::opaque]
    open spec fn parse(s: Seq<u8>) -> Result<(SsvProtInfoModel, Seq<u8>), XdrError> {
        match StateProtectOps::parse(s) {
            Err(e) => Err(e),
            Ok((ops, s1)) => match u32::parse(s1) {
                Err(e) => Err(e),
                Ok((hash_algorithm, s2)) => match u32::parse(s2) {
                    Err(e) => Err(e),
                    Ok((encryption_algorithm, s3)) => match u32::parse(s3) {
                        Err(e) => Err(e),
                        Ok((ssv_length, s4)) => match u32::parse(s4) {
                            Err(e) => Err(e),
                            Ok((window, s5)) => match Vec::<GssHandle>::parse(s5) {
                                Err(e) => Err(e),
                                Ok((handles, s6)) => {
                                    Ok(
                                        (
                                            SsvProtInfoModel {
                                                ops,
                                                hash_algorithm,
                                                encryption_algorithm,
                                                ssv_length,
                                                window,
                                                handles,
                                            },
                                            s6,
                                        ),
                                    )
                                },
                            },
                        },
                    },
                },
            },
        }
    }

    proof fn lemma_round_trip(m: SsvProtInfoModel, rest: Seq<u8>) {
        reveal(<SsvProtInfo as Xdr>::wf);
        reveal(<SsvProtInfo as Xdr>::wire);
        reveal(<SsvProtInfo as Xdr>::parse);
        let w1 = StateProtectOps::wire(m.ops);
        let w2 = u32::wire(m.hash_algorithm);
        let w3 = u32::wire(m.encryption_algorithm);
        let w4 = u32::wire(m.ssv_length);
        let w5 = u32::wire(m.window);
        let w6 = Vec::<GssHandle>::wire(m.handles);
        let r6 = rest;
        let r5 = w6 + r6;
        let r4 = w5 + r5;
        let r3 = w4 + r4;
        let r2 = w3 + r3;
        let r1 = w2 + r2;
        lemma_concat_assoc(w1 + w2 + w3 + w4 + w5, w6, r6);
        lemma_concat_assoc(w1 + w2 + w3 + w4, w5, r5);
        lemma_concat_assoc(w1 + w2 + w3, w4, r4);
        lemma_concat_assoc(w1 + w2, w3, r3);
        lemma_concat_assoc(w1, w2, r2);
        StateProtectOps::lemma_round_trip(m.ops, r1);
        u32::lemma_round_trip(m.hash_algorithm, r2);
        u32::lemma_round_trip(m.encryption_algorithm, r3);
        u32::lemma_round_trip(m.ssv_length, r4);
        u32::lemma_round_trip(m.window, r5);
        Vec::<GssHandle>::lemma_round_trip(m.handles, r6);
    }

    fn encode(&self, out: &mut Vec<u8>) -> (r: Result<(), EncodeError>) {
        proof {
            reveal(<SsvProtInfo as Xdr>::model);
            reveal(<SsvProtInfo as Xdr>::wf);
            reveal(<SsvProtInfo as Xdr>::wire);
        }
        let ghost m = self.model();
        let ghost w1 = StateProtectOps::wire(m.ops);
        let ghost w2 = u32::wire(m.hash_algorithm);
        let ghost w3 = u32::wire(m.encryption_algorithm);
        let ghost w4 = u32::wire(m.ssv_length);
        let ghost w5 = u32::wire(m.window);
        let ghost w6 = Vec::<GssHandle>::wire(m.handles);
        self.ops.encode(out)?;
        let _ = self.hash_algorithm.encode(out);
        proof {
            lemma_concat_assoc(old(out)@, w1, w2);
        }
        let _ = self.encryption_algorithm.encode(out);
        proof {
            lemma_concat_assoc(old(out)@, w1 + w2, w3);
        }
        let _ = self.ssv_length.encode(out);
        proof {
            lemma_concat_assoc(old(out)@, w1 + w2 + w3, w4);
        }
        let _ = self.window.encode(out);
        proof {
            lemma_concat_assoc(old(out)@, w1 + w2 + w3 + w4, w5);
        }
        self.handles.encode(out)?;
        proof {
            lemma_concat_assoc(old(out)@, w1 + w2 + w3 + w4 + w5, w6);
        }
        Ok(())
    }

    fn decode<'a>(input: &'a [u8]) -> (r: Result<(SsvProtInfo, &'a [u8]), XdrError>) {
        proof {
            reveal(<SsvProtInfo as Xdr>::model);
            reveal(<SsvProtInfo as Xdr>::parse);
        }
        let (ops, cur) = StateProtectOps::decode(input)?;
        let (hash_algorithm, cur) = u32::decode(cur)?;
        let (encryption_algorithm, cur) = u32::decode(cur)?;
        let (ssv_length, cur) = u32::decode(cur)?;
        let (window, cur) = u32::decode(cur)?;
        let (handles, cur) = Vec::<GssHandle>::decode(cur)?;
        Ok(
            (
                SsvProtInfo {
                    ops,
                    hash_algorithm,
                    encryption_algorithm,
                    ssv_length,
                    window,
                    handles,
                },
                cur,
            ),
        )
    }
}

#[derive(Clone, Debug, PartialEq, Eq)]
pub struct SsvStateProtectParams {
    pub ops: StateProtectOps,
    pub hash_algorithms: Vec<SecOid>,
    pub encryption_algorithms: Vec<SecOid>,
    pub window: u32,
    pub num_gss_handles: u32,
}

/// What a [`SsvStateProtectParams`] stands for.
pub struct SsvStateProtectParamsModel {
    pub ops: StateProtectOpsModel,
    pub hash_algorithms: Seq<SecOidModel>,
    pub encryption_algorithms: Seq<SecOidModel>,
    pub window: u32,
    pub num_gss_handles: u32,
}

impl Xdr for SsvStateProtectParams {
    type Model = SsvStateProtectParamsModel;

    #[verifier::opaque]
    open spec fn model(&self) -> SsvStateProtectParamsModel {
        SsvStateProtectParamsModel {
            ops: self.ops.model(),
            hash_algorithms: self.hash_algorithms.model(),
            encryption_algorithms: self.encryption_algorithms.model(),
            window: self.window.model(),
            num_gss_handles: self.num_gss_handles.model(),
        }
    }

    #[verifier::opaque]
    open spec fn wf(m: SsvStateProtectParamsModel) -> bool {
        &&& StateProtectOps::wf(m.ops)
        &&& Vec::<SecOid>::wf(m.hash_algorithms)
        &&& Vec::<SecOid>::wf(m.encryption_algorithms)
    }

    #[verifier::opaque]
    open spec fn wire(m: SsvStateProtectParamsModel) -> Seq<u8> {
        StateProtectOps::wire(m.ops)
            + Vec::<SecOid>::wire(m.hash_algorithms)
            + Vec::<SecOid>::wire(m.encryption_algorithms)
            + u32::wire(m.window)
            + u32::wire(m.num_gss_handles)
    }

    #[verifier::opaque]
    open spec fn parse(s: Seq<u8>) -> Result<(SsvStateProtectParamsModel, Seq<u8>), XdrError> {
        match StateProtectOps::parse(s) {
            Err(e) => Err(e),
            Ok((ops, s1)) => match Vec::<SecOid>::parse(s1) {
                Err(e) => Err(e),
                Ok((hash_algorithms, s2)) => match Vec::<SecOid>::parse(s2) {
                    Err(e) => Err(e),
                    Ok((encryption_algorithms, s3)) => match u32::parse(s3) {
                        Err(e) => Err(e),
                        Ok((window, s4)) => match u32::parse(s4) {
                            Err(e) => Err(e),
                            Ok((num_gss_handles, s5)) => {
                                Ok(
                                    (
                                        SsvStateProtectParamsModel {
                                            ops,
                                            hash_algorithms,
                                            encryption_algorithms,
                                            window,
                                            num_gss_handles,
                                        },
                                        s5,
                                    ),
                                )
                            },
                        },
                    },
                },
            },
        }
    }

    proof fn lemma_round_trip(m: SsvStateProtectParamsModel, rest: Seq<u8>) {
        reveal(<SsvStateProtectParams as Xdr>::wf);
        reveal(<SsvStateProtectParams as Xdr>::wire);
        reveal(<SsvStateProtectParams as Xdr>::parse);
        let w1 = StateProtectOps::wire(m.ops);
        let w2 = Vec::<SecOid>::wire(m.hash_algorithms);
        let w3 = Vec::<SecOid>::wire(m.encryption_algorithms);
        let w4 = u32::wire(m.window);
        let w5 = u32::wire(m.num_gss_handles);
        let r5 = rest;
        let r4 = w5 + r5;
        let r3 = w4 + r4;
        let r2 = w3 + r3;
        let r1 = w2 + r2;
        lemma_concat_assoc(w1 + w2 + w3 + w4, w5, r5);
        lemma_concat_assoc(w1 + w2 + w3, w4, r4);
        lemma_concat_assoc(w1 + w2, w3, r3);
        lemma_concat_assoc(w1, w2, r2);
        StateProtectOps::lemma_round_trip(m.ops, r1);
        Vec::<SecOid>::lemma_round_trip(m.hash_algorithms, r2);
        Vec::<SecOid>::lemma_round_trip(m.encryption_algorithms, r3);
        u32::lemma_round_trip(m.window, r4);
        u32::lemma_round_trip(m.num_gss_handles, r5);
    }

    fn encode(&self, out: &mut Vec<u8>) -> (r: Result<(), EncodeError>) {
        proof {
            reveal(<SsvStateProtectParams as Xdr>::model);
            reveal(<SsvStateProtectParams as Xdr>::wf);
            reveal(<SsvStateProtectParams as Xdr>::wire);
        }
        let ghost m = self.model();
        let ghost w1 = StateProtectOps::wire(m.ops);
        let ghost w2 = Vec::<SecOid>::wire(m.hash_algorithms);
        let ghost w3 = Vec::<SecOid>::wire(m.encryption_algorithms);
        let ghost w4 = u32::wire(m.window);
        let ghost w5 = u32::wire(m.num_gss_handles);
        self.ops.encode(out)?;
        self.hash_algorithms.encode(out)?;
        proof {
            lemma_concat_assoc(old(out)@, w1, w2);
        }
        self.encryption_algorithms.encode(out)?;
        proof {
            lemma_concat_assoc(old(out)@, w1 + w2, w3);
        }
        let _ = self.window.encode(out);
        proof {
            lemma_concat_assoc(old(out)@, w1 + w2 + w3, w4);
        }
        let _ = self.num_gss_handles.encode(out);
        proof {
            lemma_concat_assoc(old(out)@, w1 + w2 + w3 + w4, w5);
        }
        Ok(())
    }

    fn decode<'a>(input: &'a [u8]) -> (r: Result<(SsvStateProtectParams, &'a [u8]), XdrError>) {
        proof {
            reveal(<SsvStateProtectParams as Xdr>::model);
            reveal(<SsvStateProtectParams as Xdr>::parse);
        }
        let (ops, cur) = StateProtectOps::decode(input)?;
        let (hash_algorithms, cur) = Vec::<SecOid>::decode(cur)?;
        let (encryption_algorithms, cur) = Vec::<SecOid>::decode(cur)?;
        let (window, cur) = u32::decode(cur)?;
        let (num_gss_handles, cur) = u32::decode(cur)?;
        Ok(
            (
                SsvStateProtectParams {
                    ops,
                    hash_algorithms,
                    encryption_algorithms,
                    window,
                    num_gss_handles,
                },
                cur,
            ),
        )
    }
}

#[derive(Clone, Debug, PartialEq, Eq)]
pub enum StateProtect {
    Null,
    MachCred(StateProtectOps),
    Ssv(SsvStateProtectParams),
}

/// What a [`StateProtect`] stands for.
pub enum StateProtectModel {
    Null,
    MachCred(StateProtectOpsModel),
    Ssv(SsvStateProtectParamsModel),
}

impl StateProtect {
    /// The discriminant that leads the encoding of a value.
    pub open spec fn tag(m: StateProtectModel) -> u32 {
        match m {
            StateProtectModel::Null => 0,
            StateProtectModel::MachCred(..) => 1,
            StateProtectModel::Ssv(..) => 2,
        }
    }

    /// What follows the discriminant in the encoding of a value.
    #[verifier::opaque]
    pub open spec fn wire_payload(m: StateProtectModel) -> Seq<u8> {
        match m {
            StateProtectModel::Null => Seq::<u8>::empty(),
            StateProtectModel::MachCred(f0) => StateProtectOps::wire(f0),
            StateProtectModel::Ssv(f0) => SsvStateProtectParams::wire(f0),
        }
    }

    /// The value with the discriminant `tag` whose payload is at the front of `s`.
    #[verifier::opaque]
    pub open spec fn parse_payload(
        tag: u32,
        s: Seq<u8>,
    ) -> Result<(StateProtectModel, Seq<u8>), XdrError> {
        if tag == 0 {
            Ok((StateProtectModel::Null, s))
        } else if tag == 1 {
            match StateProtectOps::parse(s) {
                Err(e) => Err(e),
                Ok((f0, s1)) => Ok((StateProtectModel::MachCred(f0), s1)),
            }
        } else if tag == 2 {
            match SsvStateProtectParams::parse(s) {
                Err(e) => Err(e),
                Ok((f0, s1)) => Ok((StateProtectModel::Ssv(f0), s1)),
            }
        } else {
            Err(XdrError::BadDiscriminant("StateProtect", tag))
        }
    }

    pub proof fn lemma_payload_round_trip(m: StateProtectModel, rest: Seq<u8>)
        requires
            <StateProtect as Xdr>::wf(m),
        ensures
            Self::parse_payload(Self::tag(m), Self::wire_payload(m) + rest)
                == Ok::<(StateProtectModel, Seq<u8>), XdrError>((m, rest)),
    {
        reveal(<StateProtect as Xdr>::wf);
        reveal(StateProtect::wire_payload);
        reveal(StateProtect::parse_payload);
        match m {
            StateProtectModel::Null => {
                assert(Seq::<u8>::empty() + rest =~= rest);
            },
            StateProtectModel::MachCred(f0) => {
                StateProtectOps::lemma_round_trip(f0, rest);
            },
            StateProtectModel::Ssv(f0) => {
                SsvStateProtectParams::lemma_round_trip(f0, rest);
            },
        }
    }

    /// The encoding of a value begins with its discriminant, big-endian.
    pub proof fn lemma_wire_leads_with_tag(m: StateProtectModel)
        ensures
            <StateProtect as Xdr>::wire(m).len() >= 4,
            <StateProtect as Xdr>::wire(m).take(4) == wire_u32(Self::tag(m)),
    {
        reveal(<StateProtect as Xdr>::wire);
        reveal(wire_u32);
        assert((wire_u32(Self::tag(m)) + Self::wire_payload(m)).take(4) =~= wire_u32(Self::tag(m)));
    }

    /// The discriminant of a value.
    pub fn tag_of(&self) -> (t: u32)
        ensures
            t == Self::tag(self.model()),
    {
        proof {
            reveal(<StateProtect as Xdr>::model);
        }
        match self {
            StateProtect::Null => 0,
            StateProtect::MachCred(..) => 1,
            StateProtect::Ssv(..) => 2,
        }
    }

    /// Appends what follows the discriminant in the encoding of `self`.
    pub fn encode_payload(&self, out: &mut Vec<u8>) -> (r: Result<(), EncodeError>)
        ensures
            r is Ok <==> <StateProtect as Xdr>::wf(self.model()),
            r is Ok ==> final(out)@ == old(out)@ + Self::wire_payload(self.model()),
    {
        proof {
            reveal(<StateProtect as Xdr>::model);
            reveal(<StateProtect as Xdr>::wf);
            reveal(StateProtect::wire_payload);
        }
        match self {
            StateProtect::Null => {
                assert(out@ =~= old(out)@ + Seq::<u8>::empty());
            },
            StateProtect::MachCred(f0) => {
                f0.encode(out)?;
            },
            StateProtect::Ssv(f0) => {
                f0.encode(out)?;
            },
        }
        Ok(())
    }

    /// Decodes the payload of the value with the discriminant `tag`.
    pub fn decode_payload<'a>(
        tag: u32,
        input: &'a [u8],
    ) -> (r: Result<(StateProtect, &'a [u8]), XdrError>)
        ensures
            match r {
                Ok((v, rest)) => {
                    Self::parse_payload(tag, input@)
                        == Ok::<(StateProtectModel, Seq<u8>), XdrError>((v.model(), rest@))
                },
                Err(e) => {
                    Self::parse_payload(tag, input@)
                        == Err::<(StateProtectModel, Seq<u8>), XdrError>(e)
                },
            },
    {
        proof {
            reveal(<StateProtect as Xdr>::model);
            reveal(StateProtect::parse_payload);
        }
        if tag == 0 {
            Ok((StateProtect::Null, input))
        } else if tag == 1 {
            let (f0, cur) = StateProtectOps::decode(input)?;
            Ok((StateProtect::MachCred(f0), cur))
        } else if tag == 2 {
            let (f0, cur) = SsvStateProtectParams::decode(input)?;
            Ok((StateProtect::Ssv(f0), cur))
        } else {
            Err(XdrError::BadDiscriminant("StateProtect", tag))
        }
    }
}

impl Xdr for StateProtect {
    type Model = StateProtectModel;

    #[verifier::opaque]
    open spec fn model(&self) -> StateProtectModel {
        match self {
            StateProtect::Null => StateProtectModel::Null,
            StateProtect::MachCred(f0) => StateProtectModel::MachCred(f0.model()),
            StateProtect::Ssv(f0) => StateProtectModel::Ssv(f0.model()),
        }
    }

    #[verifier::opaque]
    open spec fn wf(m: StateProtectModel) -> bool {
        match m {
            StateProtectModel::Null => true,
            StateProtectModel::MachCred(f0) => StateProtectOps::wf(f0),
            StateProtectModel::Ssv(f0) => SsvStateProtectParams::wf(f0),
        }
    }

    #[verifier::opaque]
    open spec fn wire(m: StateProtectModel) -> Seq<u8> {
        wire_u32(Self::tag(m)) + Self::wire_payload(m)
    }

    #[verifier::opaque]
    open spec fn parse(s: Seq<u8>) -> Result<(StateProtectModel, Seq<u8>), XdrError> {
        match parse_u32(s) {
            Ok((tag, r)) => Self::parse_payload(tag, r),
            Err(e) => Err(e),
        }
    }

    proof fn lemma_round_trip(m: StateProtectModel, rest: Seq<u8>) {
        reveal(<StateProtect as Xdr>::wire);
        reveal(<StateProtect as Xdr>::parse);
        lemma_concat_assoc(wire_u32(Self::tag(m)), Self::wire_payload(m), rest);
        lemma_u32_round_trip(Self::tag(m), Self::wire_payload(m) + rest);
        Self::lemma_payload_round_trip(m, rest);
    }

    fn encode(&self, out: &mut Vec<u8>) -> (r: Result<(), EncodeError>) {
        proof {
            reveal(<StateProtect as Xdr>::wire);
        }
        let tag = self.tag_of();
        let _ = tag.encode(out);
        self.encode_payload(out)?;
        proof {
            lemma_concat_assoc(old(out)@, wire_u32(tag), Self::wire_payload(self.model()));
        }
        Ok(())
    }

    fn decode<'a>(input: &'a [u8]) -> (r: Result<(StateProtect, &'a [u8]), XdrError>) {
        proof {
            reveal(<StateProtect as Xdr>::parse);
        }
        let (tag, cur) = u32::decode(input)?;
        Self::decode_payload(tag, cur)
    }
}

#[derive(Clone, Debug, PartialEq, Eq)]
pub struct ExchangeIdArgs {
    pub client_owner: ClientOwner,
    pub flags: ExchangeIdFlags,
    pub state_protect: StateProtect,
    pub client_impl_id: Option<ImplId>,
}

/// What a [`ExchangeIdArgs`] stands for.
pub struct ExchangeIdArgsModel {
    pub client_owner: ClientOwnerModel,
    pub flags: ExchangeIdFlags,
    pub state_protect: StateProtectModel,
    pub client_impl_id: Option<ImplIdModel>,
}

impl Xdr for ExchangeIdArgs {
    type Model = ExchangeIdArgsModel;

    #[verifier::opaque]
    open spec fn model(&self) -> ExchangeIdArgsModel {
        ExchangeIdArgsModel {
            client_owner: self.client_owner.model(),
            flags: self.flags.model(),
            state_protect: self.state_protect.model(),
            client_impl_id: self.client_impl_id.model(),
        }
    }

    #[verifier::opaque]
    open spec fn wf(m: ExchangeIdArgsModel) -> bool {
        &&& ClientOwner::wf(m.client_owner)
        &&& ExchangeIdFlags::wf(m.flags)
        &&& StateProtect::wf(m.state_protect)
        &&& Option::<ImplId>::wf(m.client_impl_id)
    }

    #[verifier::opaque]
    open spec fn wire(m: ExchangeIdArgsModel) -> Seq<u8> {
        ClientOwner::wire(m.client_owner)
            + ExchangeIdFlags::wire(m.flags)
            + StateProtect::wire(m.state_protect)
            + Option::<ImplId>::wire(m.client_impl_id)
    }

    #[verifier::opaque]
    open spec fn parse(s: Seq<u8>) -> Result<(ExchangeIdArgsModel, Seq<u8>), XdrError> {
        match ClientOwner::parse(s) {
            Err(e) => Err(e),
            Ok((client_owner, s1)) => match ExchangeIdFlags::parse(s1) {
                Err(e) => Err(e),
                Ok((flags, s2)) => match StateProtect::parse(s2) {
                    Err(e) => Err(e),
                    Ok((state_protect, s3)) => match Option::<ImplId>::parse(s3) {
                        Err(e) => Err(e),
                        Ok((client_impl_id, s4)) => {
                            Ok(
                                (
                                    ExchangeIdArgsModel {
                                        client_owner,
                                        flags,
                                        state_protect,
                                        client_impl_id,
                                    },
                                    s4,
                                ),
                            )
                        },
                    },
                },
            },
        }
    }

    proof fn lemma_round_trip(m: ExchangeIdArgsModel, rest: Seq<u8>) {
        reveal(<ExchangeIdArgs as Xdr>::wf);
        reveal(<ExchangeIdArgs as Xdr>::wire);
        reveal(<ExchangeIdArgs as Xdr>::parse);
        let w1 = ClientOwner::wire(m.client_owner);
        let w2 = ExchangeIdFlags::wire(m.flags);
        let w3 = StateProtect::wire(m.state_protect);
        let w4 = Option::<ImplId>::wire(m.client_impl_id);
        let r4 = rest;
        let r3 = w4 + r4;
        let r2 = w3 + r3;
        let r1 = w2 + r2;
        lemma_concat_assoc(w1 + w2 + w3, w4, r4);
        lemma_concat_assoc(w1 + w2, w3, r3);
        lemma_concat_assoc(w1, w2, r2);
        ClientOwner::lemma_round_trip(m.client_owner, r1);
        ExchangeIdFlags::lemma_round_trip(m.flags, r2);
        StateProtect::lemma_round_trip(m.state_protect, r3);
        Option::<ImplId>::lemma_round_trip(m.client_impl_id, r4);
    }

    fn encode(&self, out: &mut Vec<u8>) -> (r: Result<(), EncodeError>) {
        proof {
            reveal(<ExchangeIdArgs as Xdr>::model);
            reveal(<ExchangeIdArgs as Xdr>::wf);
            reveal(<ExchangeIdArgs as Xdr>::wire);
        }
        let ghost m = self.model();
        let ghost w1 = ClientOwner::wire(m.client_owner);
        let ghost w2 = ExchangeIdFlags::wire(m.flags);
        let ghost w3 = StateProtect::wire(m.state_protect);
        let ghost w4 = Option::<ImplId>::wire(m.client_impl_id);
        self.client_owner.encode(out)?;
        self.flags.encode(out)?;
        proof {
            lemma_concat_assoc(old(out)@, w1, w2);
        }
        self.state_protect.encode(out)?;
        proof {
            lemma_concat_assoc(old(out)@, w1 + w2, w3);
        }
        self.client_impl_id.encode(out)?;
        proof {
            lemma_concat_assoc(old(out)@, w1 + w2 + w3, w4);
        }
        Ok(())
    }

    fn decode<'a>(input: &'a [u8]) -> (r: Result<(ExchangeIdArgs, &'a [u8]), XdrError>) {
        proof {
            reveal(<ExchangeIdArgs as Xdr>::model);
            reveal(<ExchangeIdArgs as Xdr>::parse);
        }
        let (client_owner, cur) = ClientOwner::decode(input)?;
        let (flags, cur) = ExchangeIdFlags::decode(cur)?;
        let (state_protect, cur) = StateProtect::decode(cur)?;
        let (client_impl_id, cur) = Option::<ImplId>::decode(cur)?;
        Ok((ExchangeIdArgs { client_owner, flags, state_protect, client_impl_id }, cur))
    }
}

#[derive(Clone, Debug, PartialEq, Eq)]
pub struct CreateSessionArgs {
    pub client_id: ClientId,
    pub sequence_id: SequenceId,
    pub flags: CreateSessionFlags,
    pub fore_channel_attrs: ChannelAttrs,
    pub back_channel_attrs: ChannelAttrs,
    pub program: u32,
    pub security_parameters: Vec<CallbackSecurityParameters>,
}

/// What a [`CreateSessionArgs`] stands for.
pub struct CreateSessionArgsModel {
    pub client_id: ClientId,
    pub sequence_id: SequenceId,
    pub flags: CreateSessionFlags,
    pub fore_channel_attrs: ChannelAttrsModel,
    pub back_channel_attrs: ChannelAttrsModel,
    pub program: u32,
    pub security_parameters: Seq<CallbackSecurityParametersModel>,
}

impl Xdr for CreateSessionArgs {
    type Model = CreateSessionArgsModel;

    #[verifier::opaque]
    open spec fn model(&self) -> CreateSessionArgsModel {
        CreateSessionArgsModel {
            client_id: self.client_id.model(),
            sequence_id: self.sequence_id.model(),
            flags: self.flags.model(),
            fore_channel_attrs: self.fore_channel_attrs.model(),
            back_channel_attrs: self.back_channel_attrs.model(),
            program: self.program.model(),
            security_parameters: self.security_parameters.model(),
        }
    }

    #[verifier::opaque]
    open spec fn wf(m: CreateSessionArgsModel) -> bool {
        &&& ClientId::wf(m.client_id)
        &&& SequenceId::wf(m.sequence_id)
        &&& CreateSessionFlags::wf(m.flags)
        &&& ChannelAttrs::wf(m.fore_channel_attrs)
        &&& ChannelAttrs::wf(m.back_channel_attrs)
        &&& Vec::<CallbackSecurityParameters>::wf(m.security_parameters)
    }

    #[verifier::opaque]
    open spec fn wire(m: CreateSessionArgsModel) -> Seq<u8> {
        ClientId::wire(m.client_id)
            + SequenceId::wire(m.sequence_id)
            + CreateSessionFlags::wire(m.flags)
            + ChannelAttrs::wire(m.fore_channel_attrs)
            + ChannelAttrs::wire(m.back_channel_attrs)
            + u32::wire(m.program)
            + Vec::<CallbackSecurityParameters>::wire(m.security_parameters)
    }

    #[verifier::opaque]
    open spec fn parse(s: Seq<u8>) -> Result<(CreateSessionArgsModel, Seq<u8>), XdrError> {
        match ClientId::parse(s) {
            Err(e) => Err(e),
            Ok((client_id, s1)) => match SequenceId::parse(s1) {
                Err(e) => Err(e),
                Ok((sequence_id, s2)) => match CreateSessionFlags::parse(s2) {
                    Err(e) => Err(e),
                    Ok((flags, s3)) => match ChannelAttrs::parse(s3) {
                        Err(e) => Err(e),
                        Ok((fore_channel_attrs, s4)) => match ChannelAttrs::parse(s4) {
                            Err(e) => Err(e),
                            Ok((back_channel_attrs, s5)) => match u32::parse(s5) {
                                Err(e) => Err(e),
                                Ok(
                                    (program, s6),
                                ) => match Vec::<CallbackSecurityParameters>::parse(s6) {
                                    Err(e) => Err(e),
                                    Ok((security_parameters, s7)) => {
                                        Ok(
                                            (
                                                CreateSessionArgsModel {
                                                    client_id,
                                                    sequence_id,
                                                    flags,
                                                    fore_channel_attrs,
                                                    back_channel_attrs,
                                                    program,
                                                    security_parameters,
                                                },
                                                s7,
                                            ),
                                        )
                                    },
                                },
                            },
                        },
                    },
                },
            },
        }
    }

    proof fn lemma_round_trip(m: CreateSessionArgsModel, rest: Seq<u8>) {
        reveal(<CreateSessionArgs as Xdr>::wf);
        reveal(<CreateSessionArgs as Xdr>::wire);
        reveal(<CreateSessionArgs as Xdr>::parse);
        let w1 = ClientId::wire(m.client_id);
        let w2 = SequenceId::wire(m.sequence_id);
        let w3 = CreateSessionFlags::wire(m.flags);
        let w4 = ChannelAttrs::wire(m.fore_channel_attrs);
        let w5 = ChannelAttrs::wire(m.back_channel_attrs);
        let w6 = u32::wire(m.program);
        let w7 = Vec::<CallbackSecurityParameters>::wire(m.security_parameters);
        let r7 = rest;
        let r6 = w7 + r7;
        let r5 = w6 + r6;
        let r4 = w5 + r5;
        let r3 = w4 + r4;
        let r2 = w3 + r3;
        let r1 = w2 + r2;
        lemma_concat_assoc(w1 + w2 + w3 + w4 + w5 + w6, w7, r7);
        lemma_concat_assoc(w1 + w2 + w3 + w4 + w5, w6, r6);
        lemma_concat_assoc(w1 + w2 + w3 + w4, w5, r5);
        lemma_concat_assoc(w1 + w2 + w3, w4, r4);
        lemma_concat_assoc(w1 + w2, w3, r3);
        lemma_concat_assoc(w1, w2, r2);
        ClientId::lemma_round_trip(m.client_id, r1);
        SequenceId::lemma_round_trip(m.sequence_id, r2);
        CreateSessionFlags::lemma_round_trip(m.flags, r3);
        ChannelAttrs::lemma_round_trip(m.fore_channel_attrs, r4);
        ChannelAttrs::lemma_round_trip(m.back_channel_attrs, r5);
        u32::lemma_round_trip(m.program, r6);
        Vec::<CallbackSecurityParameters>::lemma_round_trip(m.security_parameters, r7);
    }

    fn encode(&self, out: &mut Vec<u8>) -> (r: Result<(), EncodeError>) {
        proof {
            reveal(<CreateSessionArgs as Xdr>::model);
            reveal(<CreateSessionArgs as Xdr>::wf);
            reveal(<CreateSessionArgs as Xdr>::wire);
        }
        let ghost m = self.model();
        let ghost w1 = ClientId::wire(m.client_id);
        let ghost w2 = SequenceId::wire(m.sequence_id);
        let ghost w3 = CreateSessionFlags::wire(m.flags);
        let ghost w4 = ChannelAttrs::wire(m.fore_channel_attrs);
        let ghost w5 = ChannelAttrs::wire(m.back_channel_attrs);
        let ghost w6 = u32::wire(m.program);
        let ghost w7 = Vec::<CallbackSecurityParameters>::wire(m.security_parameters);
        self.client_id.encode(out)?;
        self.sequence_id.encode(out)?;
        proof {
            lemma_concat_assoc(old(out)@, w1, w2);
        }
        self.flags.encode(out)?;
        proof {
            lemma_concat_assoc(old(out)@, w1 + w2, w3);
        }
        self.fore_channel_attrs.encode(out)?;
        proof {
            lemma_concat_assoc(old(out)@, w1 + w2 + w3, w4);
        }
        self.back_channel_attrs.encode(out)?;
        proof {
            lemma_concat_assoc(old(out)@, w1 + w2 + w3 + w4, w5);
        }
        let _ = self.program.encode(out);
        proof {
            lemma_concat_assoc(old(out)@, w1 + w2 + w3 + w4 + w5, w6);
        }
        self.security_parameters.encode(out)?;
        proof {
            lemma_concat_assoc(old(out)@, w1 + w2 + w3 + w4 + w5 + w6, w7);
        }
        Ok(())
    }

    fn decode<'a>(input: &'a [u8]) -> (r: Result<(CreateSessionArgs, &'a [u8]), XdrError>) {
        proof {
            reveal(<CreateSessionArgs as Xdr>::model);
            reveal(<CreateSessionArgs as Xdr>::parse);
        }
        let (client_id, cur) = ClientId::decode(input)?;
        let (sequence_id, cur) = SequenceId::decode(cur)?;
        let (flags, cur) = CreateSessionFlags::decode(cur)?;
        let (fore_channel_attrs, cur) = ChannelAttrs::decode(cur)?;
        let (back_channel_attrs, cur) = ChannelAttrs::decode(cur)?;
        let (program, cur) = u32::decode(cur)?;
        let (security_parameters, cur) = Vec::<CallbackSecurityParameters>::decode(cur)?;
        Ok(
            (
                CreateSessionArgs {
                    client_id,
                    sequence_id,
                    flags,
                    fore_channel_attrs,
                    back_channel_attrs,
                    program,
                    security_parameters,
                },
                cur,
            ),
        )
    }
}

#[derive(Clone, Debug, PartialEq, Eq)]
pub struct DestroySessionArgs {
    pub session_id: SessionId,
}

/// What a [`DestroySessionArgs`] stands for.
pub struct DestroySessionArgsModel {
    pub session_id: SessionIdModel,
}

impl Xdr for DestroySessionArgs {
    type Model = DestroySessionArgsModel;

    #[verifier::opaque]
    open spec fn model(&self) -> DestroySessionArgsModel {
        DestroySessionArgsModel { session_id: self.session_id.model() }
    }

    #[verifier::opaque]
    open spec fn wf(m: DestroySessionArgsModel) -> bool {
        &&& SessionId::wf(m.session_id)
    }

    #[verifier::opaque]
    open spec fn wire(m: DestroySessionArgsModel) -> Seq<u8> {
        SessionId::wire(m.session_id)
    }

    #[verifier::opaque]
    open spec fn parse(s: Seq<u8>) -> Result<(DestroySessionArgsModel, Seq<u8>), XdrError> {
        match SessionId::parse(s) {
            Err(e) => Err(e),
            Ok((session_id, s1)) => Ok((DestroySessionArgsModel { session_id }, s1)),
        }
    }

    proof fn lemma_round_trip(m: DestroySessionArgsModel, rest: Seq<u8>) {
        reveal(<DestroySessionArgs as Xdr>::wf);
        reveal(<DestroySessionArgs as Xdr>::wire);
        reveal(<DestroySessionArgs as Xdr>::parse);
        SessionId::lemma_round_trip(m.session_id, rest);
    }

    fn encode(&self, out: &mut Vec<u8>) -> (r: Result<(), EncodeError>) {
        proof {
            reveal(<DestroySessionArgs as Xdr>::model);
            reveal(<DestroySessionArgs as Xdr>::wf);
            reveal(<DestroySessionArgs as Xdr>::wire);
        }
        self.session_id.encode(out)?;
        Ok(())
    }

    fn decode<'a>(input: &'a [u8]) -> (r: Result<(DestroySessionArgs, &'a [u8]), XdrError>) {
        proof {
            reveal(<DestroySessionArgs as Xdr>::model);
            reveal(<DestroySessionArgs as Xdr>::parse);
        }
        let (session_id, cur) = SessionId::decode(input)?;
        Ok((DestroySessionArgs { session_id }, cur))
    }
}

#[derive(Clone, Debug, PartialEq, Eq)]
pub struct FreeStateidArgs {
    pub state_id: StateId,
}

/// What a [`FreeStateidArgs`] stands for.
pub struct FreeStateidArgsModel {
    pub state_id: StateIdModel,
}

impl Xdr for FreeStateidArgs {
    type Model = FreeStateidArgsModel;

    #[verifier::opaque]
    open spec fn model(&self) -> FreeStateidArgsModel {
        FreeStateidArgsModel { state_id: self.state_id.model() }
    }

    #[verifier::opaque]
    open spec fn wf(m: FreeStateidArgsModel) -> bool {
        &&& StateId::wf(m.state_id)
    }

    #[verifier::opaque]
    open spec fn wire(m: FreeStateidArgsModel) -> Seq<u8> {
        StateId::wire(m.state_id)
    }

    #[verifier::opaque]
    open spec fn parse(s: Seq<u8>) -> Result<(FreeStateidArgsModel, Seq<u8>), XdrError> {
        match StateId::parse(s) {
            Err(e) => Err(e),
            Ok((state_id, s1)) => Ok((FreeStateidArgsModel { state_id }, s1)),
        }
    }

    proof fn lemma_round_trip(m: FreeStateidArgsModel, rest: Seq<u8>) {
        reveal(<FreeStateidArgs as Xdr>::wf);
        reveal(<FreeStateidArgs as Xdr>::wire);
        reveal(<FreeStateidArgs as Xdr>::parse);
        StateId::lemma_round_trip(m.state_id, rest);
    }

    fn encode(&self, out: &mut Vec<u8>) -> (r: Result<(), EncodeError>) {
        proof {
            reveal(<FreeStateidArgs as Xdr>::model);
            reveal(<FreeStateidArgs as Xdr>::wf);
            reveal(<FreeStateidArgs as Xdr>::wire);
        }
        self.state_id.encode(out)?;
        Ok(())
    }

    fn decode<'a>(input: &'a [u8]) -> (r: Result<(FreeStateidArgs, &'a [u8]), XdrError>) {
        proof {
            reveal(<FreeStateidArgs as Xdr>::model);
            reveal(<FreeStateidArgs as Xdr>::parse);
        }
        let (state_id, cur) = StateId::decode(input)?;
        Ok((FreeStateidArgs { state_id }, cur))
    }
}

#[derive(Clone, Copy, Debug, PartialEq, Eq, PartialOrd, Ord)]
pub enum NotifyType {
    ChangeChildAttrs,
    ChangeDirAttrs,
    RemoveEntry,
    AddEntry,
    RenameEntry,
    ChangeCookieVerifier,
}

impl NotifyType {
    /// The discriminant that leads the encoding of a value.
    pub open spec fn tag(m: NotifyType) -> u32 {
        match m {
            NotifyType::ChangeChildAttrs => 0,
            NotifyType::ChangeDirAttrs => 1,
            NotifyType::RemoveEntry => 2,
            NotifyType::AddEntry => 3,
            NotifyType::RenameEntry => 4,
            NotifyType::ChangeCookieVerifier => 5,
        }
    }

    /// What follows the discriminant in the encoding of a value.
    #[verifier::opaque]
    pub open spec fn wire_payload(m: NotifyType) -> Seq<u8> {
        match m {
            NotifyType::ChangeChildAttrs => Seq::<u8>::empty(),
            NotifyType::ChangeDirAttrs => Seq::<u8>::empty(),
            NotifyType::RemoveEntry => Seq::<u8>::empty(),
            NotifyType::AddEntry => Seq::<u8>::empty(),
            NotifyType::RenameEntry => Seq::<u8>::empty(),
            NotifyType::ChangeCookieVerifier => Seq::<u8>::empty(),
        }
    }

    /// The value with the discriminant `tag` whose payload is at the front of `s`.
    #[verifier::opaque]
    pub open spec fn parse_payload(
        tag: u32,
        s: Seq<u8>,
    ) -> Result<(NotifyType, Seq<u8>), XdrError> {
        if tag == 0 {
            Ok((NotifyType::ChangeChildAttrs, s))
        } else if tag == 1 {
            Ok((NotifyType::ChangeDirAttrs, s))
        } else if tag == 2 {
            Ok((NotifyType::RemoveEntry, s))
        } else if tag == 3 {
            Ok((NotifyType::AddEntry, s))
        } else if tag == 4 {
            Ok((NotifyType::RenameEntry, s))
        } else if tag == 5 {
            Ok((NotifyType::ChangeCookieVerifier, s))
        } else {
            Err(XdrError::BadDiscriminant("NotifyType", tag))
        }
    }

    pub proof fn lemma_payload_round_trip(m: NotifyType, rest: Seq<u8>)
        requires
            <NotifyType as Xdr>::wf(m),
        ensures
            Self::parse_payload(Self::tag(m), Self::wire_payload(m) + rest)
                == Ok::<(NotifyType, Seq<u8>), XdrError>((m, rest)),
    {
        reveal(NotifyType::wire_payload);
        reveal(NotifyType::parse_payload);
        match m {
            NotifyType::ChangeChildAttrs => {
                assert(Seq::<u8>::empty() + rest =~= rest);
            },
            NotifyType::ChangeDirAttrs => {
                assert(Seq::<u8>::empty() + rest =~= rest);
            },
            NotifyType::RemoveEntry => {
                assert(Seq::<u8>::empty() + rest =~= rest);
            },
            NotifyType::AddEntry => {
                assert(Seq::<u8>::empty() + rest =~= rest);
            },
            NotifyType::RenameEntry => {
                assert(Seq::<u8>::empty() + rest =~= rest);
            },
            NotifyType::ChangeCookieVerifier => {
                assert(Seq::<u8>::empty() + rest =~= rest);
            },
        }
    }

    /// The encoding of a value begins with its discriminant, big-endian.
    pub proof fn lemma_wire_leads_with_tag(m: NotifyType)
        ensures
            <NotifyType as Xdr>::wire(m).len() >= 4,
            <NotifyType as Xdr>::wire(m).take(4) == wire_u32(Self::tag(m)),
    {
        reveal(<NotifyType as Xdr>::wire);
        reveal(wire_u32);
        assert((wire_u32(Self::tag(m)) + Self::wire_payload(m)).take(4) =~= wire_u32(Self::tag(m)));
    }

    /// The discriminant of a value.
    pub fn tag_of(&self) -> (t: u32)
        ensures
            t == Self::tag(self.model()),
    {
        match self {
            NotifyType::ChangeChildAttrs => 0,
            NotifyType::ChangeDirAttrs => 1,
            NotifyType::RemoveEntry => 2,
            NotifyType::AddEntry => 3,
            NotifyType::RenameEntry => 4,
            NotifyType::ChangeCookieVerifier => 5,
        }
    }

    /// Appends what follows the discriminant in the encoding of `self`.
    pub fn encode_payload(&self, out: &mut Vec<u8>) -> (r: Result<(), EncodeError>)
        ensures
            r is Ok <==> <NotifyType as Xdr>::wf(self.model()),
            r is Ok ==> final(out)@ == old(out)@ + Self::wire_payload(self.model()),
    {
        proof {
            reveal(NotifyType::wire_payload);
        }
        match self {
            NotifyType::ChangeChildAttrs => {
                assert(out@ =~= old(out)@ + Seq::<u8>::empty());
            },
            NotifyType::ChangeDirAttrs => {
                assert(out@ =~= old(out)@ + Seq::<u8>::empty());
            },
            NotifyType::RemoveEntry => {
                assert(out@ =~= old(out)@ + Seq::<u8>::empty());
            },
            NotifyType::AddEntry => {
                assert(out@ =~= old(out)@ + Seq::<u8>::empty());
            },
            NotifyType::RenameEntry => {
                assert(out@ =~= old(out)@ + Seq::<u8>::empty());
            },
            NotifyType::ChangeCookieVerifier => {
                assert(out@ =~= old(out)@ + Seq::<u8>::empty());
            },
        }
        Ok(())
    }

    /// Decodes the payload of the value with the discriminant `tag`.
    pub fn decode_payload<'a>(
        tag: u32,
        input: &'a [u8],
    ) -> (r: Result<(NotifyType, &'a [u8]), XdrError>)
        ensures
            match r {
                Ok((v, rest)) => {
                    Self::parse_payload(tag, input@)
                        == Ok::<(NotifyType, Seq<u8>), XdrError>((v.model(), rest@))
                },
                Err(e) => {
                    Self::parse_payload(tag, input@) == Err::<(NotifyType, Seq<u8>), XdrError>(e)
                },
            },
    {
        proof {
            reveal(NotifyType::parse_payload);
        }
        if tag == 0 {
            Ok((NotifyType::ChangeChildAttrs, input))
        } else if tag == 1 {
            Ok((NotifyType::ChangeDirAttrs, input))
        } else if tag == 2 {
            Ok((NotifyType::RemoveEntry, input))
        } else if tag == 3 {
            Ok((NotifyType::AddEntry, input))
        } else if tag == 4 {
            Ok((NotifyType::RenameEntry, input))
        } else if tag == 5 {
            Ok((NotifyType::ChangeCookieVerifier, input))
        } else {
            Err(XdrError::BadDiscriminant("NotifyType", tag))
        }
    }
}

impl Xdr for NotifyType {
    type Model = NotifyType;

    open spec fn model(&self) -> NotifyType {
        *self
    }

    open spec fn wf(m: NotifyType) -> bool {
        true
    }

    #[verifier::opaque]
    open spec fn wire(m: NotifyType) -> Seq<u8> {
        wire_u32(Self::tag(m)) + Self::wire_payload(m)
    }

    #[verifier::opaque]
    open spec fn parse(s: Seq<u8>) -> Result<(NotifyType, Seq<u8>), XdrError> {
        match parse_u32(s) {
            Ok((tag, r)) => Self::parse_payload(tag, r),
            Err(e) => Err(e),
        }
    }

    proof fn lemma_round_trip(m: NotifyType, rest: Seq<u8>) {
        reveal(<NotifyType as Xdr>::wire);
        reveal(<NotifyType as Xdr>::parse);
        lemma_concat_assoc(wire_u32(Self::tag(m)), Self::wire_payload(m), rest);
        lemma_u32_round_trip(Self::tag(m), Self::wire_payload(m) + rest);
        Self::lemma_payload_round_trip(m, rest);
    }

    fn encode(&self, out: &mut Vec<u8>) -> (r: Result<(), EncodeError>) {
        proof {
            reveal(<NotifyType as Xdr>::wire);
        }
        let tag = self.tag_of();
        let _ = tag.encode(out);
        self.encode_payload(out)?;
        proof {
            lemma_concat_assoc(old(out)@, wire_u32(tag), Self::wire_payload(self.model()));
        }
        Ok(())
    }

    fn decode<'a>(input: &'a [u8]) -> (r: Result<(NotifyType, &'a [u8]), XdrError>) {
        proof {
            reveal(<NotifyType as Xdr>::parse);
        }
        let (tag, cur) = u32::decode(input)?;
        Self::decode_payload(tag, cur)
    }
}

impl EnumId for NotifyType {
    open spec fn id(self) -> u32 {
        Self::tag(self)
    }

    open spec fn from_id(id: u32) -> Option<Self> {
        if id == 0 {
            Some(NotifyType::ChangeChildAttrs)
        } else if id == 1 {
            Some(NotifyType::ChangeDirAttrs)
        } else if id == 2 {
            Some(NotifyType::RemoveEntry)
        } else if id == 3 {
            Some(NotifyType::AddEntry)
        } else if id == 4 {
            Some(NotifyType::RenameEntry)
        } else if id == 5 {
            Some(NotifyType::ChangeCookieVerifier)
        } else {
            None
        }
    }

    proof fn lemma_from_id(id: u32) {
    }

    proof fn lemma_id(k: Self) {
    }

    fn to_u32(self) -> (r: u32) {
        self.tag_of()
    }

    fn try_from_u32(id: u32) -> (r: Option<Self>) {
        if id == 0 {
            Some(NotifyType::ChangeChildAttrs)
        } else if id == 1 {
            Some(NotifyType::ChangeDirAttrs)
        } else if id == 2 {
            Some(NotifyType::RemoveEntry)
        } else if id == 3 {
            Some(NotifyType::AddEntry)
        } else if id == 4 {
            Some(NotifyType::RenameEntry)
        } else if id == 5 {
            Some(NotifyType::ChangeCookieVerifier)
        } else {
            None
        }
    }
}

#[derive(Clone, Debug, PartialEq, Eq)]
pub struct GetDirDelegationArgs {
    pub signal_delegation_available: bool,
    pub notification_types: EnumSet<NotifyType>,
    pub child_attr_delay: Time,
    pub dir_attr_delay: Time,
    pub child_attributes: EnumSet<FileAttributeId>,
    pub dir_attributes: EnumSet<FileAttributeId>,
}

/// What a [`GetDirDelegationArgs`] stands for.
pub struct GetDirDelegationArgsModel {
    pub signal_delegation_available: bool,
    pub notification_types: Seq<NotifyType>,
    pub child_attr_delay: Time,
    pub dir_attr_delay: Time,
    pub child_attributes: Seq<FileAttributeId>,
    pub dir_attributes: Seq<FileAttributeId>,
}

impl Xdr for GetDirDelegationArgs {
    type Model = GetDirDelegationArgsModel;

    #[verifier::opaque]
    open spec fn model(&self) -> GetDirDelegationArgsModel {
        GetDirDelegationArgsModel {
            signal_delegation_available: self.signal_delegation_available.model(),
            notification_types: self.notification_types.model(),
            child_attr_delay: self.child_attr_delay.model(),
            dir_attr_delay: self.dir_attr_delay.model(),
            child_attributes: self.child_attributes.model(),
            dir_attributes: self.dir_attributes.model(),
        }
    }

    #[verifier::opaque]
    open spec fn wf(m: GetDirDelegationArgsModel) -> bool {
        &&& EnumSet::<NotifyType>::wf(m.notification_types)
        &&& Time::wf(m.child_attr_delay)
        &&& Time::wf(m.dir_attr_delay)
        &&& EnumSet::<FileAttributeId>::wf(m.child_attributes)
        &&& EnumSet::<FileAttributeId>::wf(m.dir_attributes)
    }

    #[verifier::opaque]
    open spec fn wire(m: GetDirDelegationArgsModel) -> Seq<u8> {
        bool::wire(m.signal_delegation_available)
            + EnumSet::<NotifyType>::wire(m.notification_types)
            + Time::wire(m.child_attr_delay)
            + Time::wire(m.dir_attr_delay)
            + EnumSet::<FileAttributeId>::wire(m.child_attributes)
            + EnumSet::<FileAttributeId>::wire(m.dir_attributes)
    }

    #[verifier::opaque]
    open spec fn parse(s: Seq<u8>) -> Result<(GetDirDelegationArgsModel, Seq<u8>), XdrError> {
        match bool::parse(s) {
            Err(e) => Err(e),
            Ok((signal_delegation_available, s1)) => match EnumSet::<NotifyType>::parse(s1) {
                Err(e) => Err(e),
                Ok((notification_types, s2)) => match Time::parse(s2) {
                    Err(e) => Err(e),
                    Ok((child_attr_delay, s3)) => match Time::parse(s3) {
                        Err(e) => Err(e),
                        Ok((dir_attr_delay, s4)) => match EnumSet::<FileAttributeId>::parse(s4) {
                            Err(e) => Err(e),
                            Ok(
                                (child_attributes, s5),
                            ) => match EnumSet::<FileAttributeId>::parse(s5) {
                                Err(e) => Err(e),
                                Ok((dir_attributes, s6)) => {
                                    Ok(
                                        (
                                            GetDirDelegationArgsModel {
                                                signal_delegation_available,
                                                notification_types,
                                                child_attr_delay,
                                                dir_attr_delay,
                                                child_attributes,
                                                dir_attributes,
                                            },
                                            s6,
                                        ),
                                    )
                                },
                            },
                        },
                    },
                },
            },
        }
    }

    proof fn lemma_round_trip(m: GetDirDelegationArgsModel, rest: Seq<u8>) {
        reveal(<GetDirDelegationArgs as Xdr>::wf);
        reveal(<GetDirDelegationArgs as Xdr>::wire);
        reveal(<GetDirDelegationArgs as Xdr>::parse);
        let w1 = bool::wire(m.signal_delegation_available);
        let w2 = EnumSet::<NotifyType>::wire(m.notification_types);
        let w3 = Time::wire(m.child_attr_delay);
        let w4 = Time::wire(m.dir_attr_delay);
        let w5 = EnumSet::<FileAttributeId>::wire(m.child_attributes);
        let w6 = EnumSet::<FileAttributeId>::wire(m.dir_attributes);
        let r6 = rest;
        let r5 = w6 + r6;
        let r4 = w5 + r5;
        let r3 = w4 + r4;
        let r2 = w3 + r3;
        let r1 = w2 + r2;
        lemma_concat_assoc(w1 + w2 + w3 + w4 + w5, w6, r6);
        lemma_concat_assoc(w1 + w2 + w3 + w4, w5, r5);
        lemma_concat_assoc(w1 + w2 + w3, w4, r4);
        lemma_concat_assoc(w1 + w2, w3, r3);
        lemma_concat_assoc(w1, w2, r2);
        bool::lemma_round_trip(m.signal_delegation_available, r1);
        EnumSet::<NotifyType>::lemma_round_trip(m.notification_types, r2);
        Time::lemma_round_trip(m.child_attr_delay, r3);
        Time::lemma_round_trip(m.dir_attr_delay, r4);
        EnumSet::<FileAttributeId>::lemma_round_trip(m.child_attributes, r5);
        EnumSet::<FileAttributeId>::lemma_round_trip(m.dir_attributes, r6);
    }

    fn encode(&self, out: &mut Vec<u8>) -> (r: Result<(), EncodeError>) {
        proof {
            reveal(<GetDirDelegationArgs as Xdr>::model);
            reveal(<GetDirDelegationArgs as Xdr>::wf);
            reveal(<GetDirDelegationArgs as Xdr>::wire);
        }
        let ghost m = self.model();
        let ghost w1 = bool::wire(m.signal_delegation_available);
        let ghost w2 = EnumSet::<NotifyType>::wire(m.notification_types);
        let ghost w3 = Time::wire(m.child_attr_delay);
        let ghost w4 = Time::wire(m.dir_attr_delay);
        let ghost w5 = EnumSet::<FileAttributeId>::wire(m.child_attributes);
        let ghost w6 = EnumSet::<FileAttributeId>::wire(m.dir_attributes);
        let _ = self.signal_delegation_available.encode(out);
        self.notification_types.encode(out)?;
        proof {
            lemma_concat_assoc(old(out)@, w1, w2);
        }
        self.child_attr_delay.encode(out)?;
        proof {
            lemma_concat_assoc(old(out)@, w1 + w2, w3);
        }
        self.dir_attr_delay.encode(out)?;
        proof {
            lemma_concat_assoc(old(out)@, w1 + w2 + w3, w4);
        }
        self.child_attributes.encode(out)?;
        proof {
            lemma_concat_assoc(old(out)@, w1 + w2 + w3 + w4, w5);
        }
        self.dir_attributes.encode(out)?;
        proof {
            lemma_concat_assoc(old(out)@, w1 + w2 + w3 + w4 + w5, w6);
        }
        Ok(())
    }

    fn decode<'a>(input: &'a [u8]) -> (r: Result<(GetDirDelegationArgs, &'a [u8]), XdrError>) {
        proof {
            reveal(<GetDirDelegationArgs as Xdr>::model);
            reveal(<GetDirDelegationArgs as Xdr>::parse);
        }
        let (signal_delegation_available, cur) = bool::decode(input)?;
        let (notification_types, cur) = EnumSet::<NotifyType>::decode(cur)?;
        let (child_attr_delay, cur) = Time::decode(cur)?;
        let (dir_attr_delay, cur) = Time::decode(cur)?;
        let (child_attributes, cur) = EnumSet::<FileAttributeId>::decode(cur)?;
        let (dir_attributes, cur) = EnumSet::<FileAttributeId>::decode(cur)?;
        Ok(
            (
                GetDirDelegationArgs {
                    signal_delegation_available,
                    notification_types,
                    child_attr_delay,
                    dir_attr_delay,
                    child_attributes,
                    dir_attributes,
                },
                cur,
            ),
        )
    }
}

#[derive(Clone, Debug, PartialEq, Eq)]
pub struct GetDeviceInfoArgs {
    pub device_id: DeviceId,
    pub util: Util,
    pub first_stripe_index: u32,
    pub pattern_offset: u64,
    pub fh_list: Vec<FileHandle>,
}

/// What a [`GetDeviceInfoArgs`] stands for.
pub struct GetDeviceInfoArgsModel {
    pub device_id: DeviceIdModel,
    pub util: Util,
    pub first_stripe_index: u32,
    pub pattern_offset: u64,
    pub fh_list: Seq<FileHandleModel>,
}

impl Xdr for GetDeviceInfoArgs {
    type Model = GetDeviceInfoArgsModel;

    #[verifier::opaque]
    open spec fn model(&self) -> GetDeviceInfoArgsModel {
        GetDeviceInfoArgsModel {
            device_id: self.device_id.model(),
            util: self.util.model(),
            first_stripe_index: self.first_stripe_index.model(),
            pattern_offset: self.pattern_offset.model(),
            fh_list: self.fh_list.model(),
        }
    }

    #[verifier::opaque]
    open spec fn wf(m: GetDeviceInfoArgsModel) -> bool {
        &&& DeviceId::wf(m.device_id)
        &&& Util::wf(m.util)
        &&& Vec::<FileHandle>::wf(m.fh_list)
    }

    #[verifier::opaque]
    open spec fn wire(m: GetDeviceInfoArgsModel) -> Seq<u8> {
        DeviceId::wire(m.device_id)
            + Util::wire(m.util)
            + u32::wire(m.first_stripe_index)
            + u64::wire(m.pattern_offset)
            + Vec::<FileHandle>::wire(m.fh_list)
    }

    #[verifier::opaque]
    open spec fn parse(s: Seq<u8>) -> Result<(GetDeviceInfoArgsModel, Seq<u8>), XdrError> {
        match DeviceId::parse(s) {
            Err(e) => Err(e),
            Ok((device_id, s1)) => match Util::parse(s1) {
                Err(e) => Err(e),
                Ok((util, s2)) => match u32::parse(s2) {
                    Err(e) => Err(e),
                    Ok((first_stripe_index, s3)) => match u64::parse(s3) {
                        Err(e) => Err(e),
                        Ok((pattern_offset, s4)) => match Vec::<FileHandle>::parse(s4) {
                            Err(e) => Err(e),
                            Ok((fh_list, s5)) => {
                                Ok(
                                    (
                                        GetDeviceInfoArgsModel {
                                            device_id,
                                            util,
                                            first_stripe_index,
                                            pattern_offset,
                                            fh_list,
                                        },
                                        s5,
                                    ),
                                )
                            },
                        },
                    },
                },
            },
        }
    }

    proof fn lemma_round_trip(m: GetDeviceInfoArgsModel, rest: Seq<u8>) {
        reveal(<GetDeviceInfoArgs as Xdr>::wf);
        reveal(<GetDeviceInfoArgs as Xdr>::wire);
        reveal(<GetDeviceInfoArgs as Xdr>::parse);
        let w1 = DeviceId::wire(m.device_id);
        let w2 = Util::wire(m.util);
        let w3 = u32::wire(m.first_stripe_index);
        let w4 = u64::wire(m.pattern_offset);
        let w5 = Vec::<FileHandle>::wire(m.fh_list);
        let r5 = rest;
        let r4 = w5 + r5;
        let r3 = w4 + r4;
        let r2 = w3 + r3;
        let r1 = w2 + r2;
        lemma_concat_assoc(w1 + w2 + w3 + w4, w5, r5);
        lemma_concat_assoc(w1 + w2 + w3, w4, r4);
        lemma_concat_assoc(w1 + w2, w3, r3);
        lemma_concat_assoc(w1, w2, r2);
        DeviceId::lemma_round_trip(m.device_id, r1);
        Util::lemma_round_trip(m.util, r2);
        u32::lemma_round_trip(m.first_stripe_index, r3);
        u64::lemma_round_trip(m.pattern_offset, r4);
        Vec::<FileHandle>::lemma_round_trip(m.fh_list, r5);
    }

    fn encode(&self, out: &mut Vec<u8>) -> (r: Result<(), EncodeError>) {
        proof {
            reveal(<GetDeviceInfoArgs as Xdr>::model);
            reveal(<GetDeviceInfoArgs as Xdr>::wf);
            reveal(<GetDeviceInfoArgs as Xdr>::wire);
        }
        let ghost m = self.model();
        let ghost w1 = DeviceId::wire(m.device_id);
        let ghost w2 = Util::wire(m.util);
        let ghost w3 = u32::wire(m.first_stripe_index);
        let ghost w4 = u64::wire(m.pattern_offset);
        let ghost w5 = Vec::<FileHandle>::wire(m.fh_list);
        self.device_id.encode(out)?;
        self.util.encode(out)?;
        proof {
            lemma_concat_assoc(old(out)@, w1, w2);
        }
        let _ = self.first_stripe_index.encode(out);
        proof {
            lemma_concat_assoc(old(out)@, w1 + w2, w3);
        }
        let _ = self.pattern_offset.encode(out);
        proof {
            lemma_concat_assoc(old(out)@, w1 + w2 + w3, w4);
        }
        self.fh_list.encode(out)?;
        proof {
            lemma_concat_assoc(old(out)@, w1 + w2 + w3 + w4, w5);
        }
        Ok(())
    }

    fn decode<'a>(input: &'a [u8]) -> (r: Result<(GetDeviceInfoArgs, &'a [u8]), XdrError>) {
        proof {
            reveal(<GetDeviceInfoArgs as Xdr>::model);
            reveal(<GetDeviceInfoArgs as Xdr>::parse);
        }
        let (device_id, cur) = DeviceId::decode(input)?;
        let (util, cur) = Util::decode(cur)?;
        let (first_stripe_index, cur) = u32::decode(cur)?;
        let (pattern_offset, cur) = u64::decode(cur)?;
        let (fh_list, cur) = Vec::<FileHandle>::decode(cur)?;
        Ok(
            (
                GetDeviceInfoArgs { device_id, util, first_stripe_index, pattern_offset, fh_list },
                cur,
            ),
        )
    }
}

#[derive(Clone, Debug, PartialEq, Eq)]
pub struct GetDeviceListArgs {
    pub layout_type: LayoutType,
    pub max_devices: u32,
    pub cookie: Cookie,
    pub cookie_verifier: Verifier,
}

impl Xdr for GetDeviceListArgs {
    type Model = GetDeviceListArgs;

    open spec fn model(&self) -> GetDeviceListArgs {
        *self
    }

    #[verifier::opaque]
    open spec fn wf(m: GetDeviceListArgs) -> bool {
        &&& LayoutType::wf(m.layout_type)
        &&& Cookie::wf(m.cookie)
        &&& Verifier::wf(m.cookie_verifier)
    }

    #[verifier::opaque]
    open spec fn wire(m: GetDeviceListArgs) -> Seq<u8> {
        LayoutType::wire(m.layout_type)
            + u32::wire(m.max_devices)
            + Cookie::wire(m.cookie)
            + Verifier::wire(m.cookie_verifier)
    }

    #[verifier::opaque]
    open spec fn parse(s: Seq<u8>) -> Result<(GetDeviceListArgs, Seq<u8>), XdrError> {
        match LayoutType::parse(s) {
            Err(e) => Err(e),
            Ok((layout_type, s1)) => match u32::parse(s1) {
                Err(e) => Err(e),
                Ok((max_devices, s2)) => match Cookie::parse(s2) {
                    Err(e) => Err(e),
                    Ok((cookie, s3)) => match Verifier::parse(s3) {
                        Err(e) => Err(e),
                        Ok((cookie_verifier, s4)) => {
                            Ok(
                                (
                                    GetDeviceListArgs {
                                        layout_type,
                                        max_devices,
                                        cookie,
                                        cookie_verifier,
                                    },
                                    s4,
                                ),
                            )
                        },
                    },
                },
            },
        }
    }

    proof fn lemma_round_trip(m: GetDeviceListArgs, rest: Seq<u8>) {
        reveal(<GetDeviceListArgs as Xdr>::wf);
        reveal(<GetDeviceListArgs as Xdr>::wire);
        reveal(<GetDeviceListArgs as Xdr>::parse);
        let w1 = LayoutType::wire(m.layout_type);
        let w2 = u32::wire(m.max_devices);
        let w3 = Cookie::wire(m.cookie);
        let w4 = Verifier::wire(m.cookie_verifier);
        let r4 = rest;
        let r3 = w4 + r4;
        let r2 = w3 + r3;
        let r1 = w2 + r2;
        lemma_concat_assoc(w1 + w2 + w3, w4, r4);
        lemma_concat_assoc(w1 + w2, w3, r3);
        lemma_concat_assoc(w1, w2, r2);
        LayoutType::lemma_round_trip(m.layout_type, r1);
        u32::lemma_round_trip(m.max_devices, r2);
        Cookie::lemma_round_trip(m.cookie, r3);
        Verifier::lemma_round_trip(m.cookie_verifier, r4);
    }

    fn encode(&self, out: &mut Vec<u8>) -> (r: Result<(), EncodeError>) {
        proof {
            reveal(<GetDeviceListArgs as Xdr>::wf);
            reveal(<GetDeviceListArgs as Xdr>::wire);
        }
        let ghost m = self.model();
        let ghost w1 = LayoutType::wire(m.layout_type);
        let ghost w2 = u32::wire(m.max_devices);
        let ghost w3 = Cookie::wire(m.cookie);
        let ghost w4 = Verifier::wire(m.cookie_verifier);
        self.layout_type.encode(out)?;
        let _ = self.max_devices.encode(out);
        proof {
            lemma_concat_assoc(old(out)@, w1, w2);
        }
        self.cookie.encode(out)?;
        proof {
            lemma_concat_assoc(old(out)@, w1 + w2, w3);
        }
        self.cookie_verifier.encode(out)?;
        proof {
            lemma_concat_assoc(old(out)@, w1 + w2 + w3, w4);
        }
        Ok(())
    }

    fn decode<'a>(input: &'a [u8]) -> (r: Result<(GetDeviceListArgs, &'a [u8]), XdrError>) {
        proof {
            reveal(<GetDeviceListArgs as Xdr>::parse);
        }
        let (layout_type, cur) = LayoutType::decode(input)?;
        let (max_devices, cur) = u32::decode(cur)?;
        let (cookie, cur) = Cookie::decode(cur)?;
        let (cookie_verifier, cur) = Verifier::decode(cur)?;
        Ok((GetDeviceListArgs { layout_type, max_devices, cookie, cookie_verifier }, cur))
    }
}

#[derive(Clone, Debug, PartialEq, Eq)]
pub struct LayoutUpdate {
    pub type_: LayoutType,
    pub body: Vec<u8>,
}

/// What a [`LayoutUpdate`] stands for.
pub struct LayoutUpdateModel {
    pub type_: LayoutType,
    pub body: Seq<u8>,
}

impl Xdr for LayoutUpdate {
    type Model = LayoutUpdateModel;

    #[verifier::opaque]
    open spec fn model(&self) -> LayoutUpdateModel {
        LayoutUpdateModel { type_: self.type_.model(), body: self.body@ }
    }

    #[verifier::opaque]
    open spec fn wf(m: LayoutUpdateModel) -> bool {
        &&& LayoutType::wf(m.type_)
        &&& wf_opaque(m.body)
    }

    #[verifier::opaque]
    open spec fn wire(m: LayoutUpdateModel) -> Seq<u8> {
        LayoutType::wire(m.type_) + wire_opaque(m.body)
    }

    #[verifier::opaque]
    open spec fn parse(s: Seq<u8>) -> Result<(LayoutUpdateModel, Seq<u8>), XdrError> {
        match LayoutType::parse(s) {
            Err(e) => Err(e),
            Ok((type_, s1)) => match parse_opaque(s1) {
                Err(e) => Err(e),
                Ok((body, s2)) => Ok((LayoutUpdateModel { type_, body }, s2)),
            },
        }
    }

    proof fn lemma_round_trip(m: LayoutUpdateModel, rest: Seq<u8>) {
        reveal(<LayoutUpdate as Xdr>::wf);
        reveal(<LayoutUpdate as Xdr>::wire);
        reveal(<LayoutUpdate as Xdr>::parse);
        let w1 = LayoutType::wire(m.type_);
        let w2 = wire_opaque(m.body);
        let r2 = rest;
        let r1 = w2 + r2;
        lemma_concat_assoc(w1, w2, r2);
        LayoutType::lemma_round_trip(m.type_, r1);
        lemma_opaque_round_trip(m.body, r2);
    }

    fn encode(&self, out: &mut Vec<u8>) -> (r: Result<(), EncodeError>) {
        proof {
            reveal(<LayoutUpdate as Xdr>::model);
            reveal(<LayoutUpdate as Xdr>::wf);
            reveal(<LayoutUpdate as Xdr>::wire);
        }
        let ghost m = self.model();
        let ghost w1 = LayoutType::wire(m.type_);
        let ghost w2 = wire_opaque(m.body);
        self.type_.encode(out)?;
        encode_opaque(self.body.as_slice(), out)?;
        proof {
            lemma_concat_assoc(old(out)@, w1, w2);
        }
        Ok(())
    }

    fn decode<'a>(input: &'a [u8]) -> (r: Result<(LayoutUpdate, &'a [u8]), XdrError>) {
        proof {
            reveal(<LayoutUpdate as Xdr>::model);
            reveal(<LayoutUpdate as Xdr>::parse);
        }
        let (type_, cur) = LayoutType::decode(input)?;
        let (body, cur) = decode_opaque(cur)?;
        let body = copy_bytes(body);
        Ok((LayoutUpdate { type_, body }, cur))
    }
}

#[derive(Clone, Debug, PartialEq, Eq)]
pub struct LayoutCommitArgs {
    pub offset: u64,
    pub length: u64,
    pub reclaim: bool,
    pub state_id: StateId,
    pub last_write_offset: Option<u64>,
    pub time_modify: Option<Time>,
    pub layout_update: LayoutUpdate,
}

/// What a [`LayoutCommitArgs`] stands for.
pub struct LayoutCommitArgsModel {
    pub offset: u64,
    pub length: u64,
    pub reclaim: bool,
    pub state_id: StateIdModel,
    pub last_write_offset: Option<u64>,
    pub time_modify: Option<Time>,
    pub layout_update: LayoutUpdateModel,
}

impl Xdr for LayoutCommitArgs {
    type Model = LayoutCommitArgsModel;

    #[verifier::opaque]
    open spec fn model(&self) -> LayoutCommitArgsModel {
        LayoutCommitArgsModel {
            offset: self.offset.model(),
            length: self.length.model(),
            reclaim: self.reclaim.model(),
            state_id: self.state_id.model(),
            last_write_offset: self.last_write_offset.model(),
            time_modify: self.time_modify.model(),
            layout_update: self.layout_update.model(),
        }
    }

    #[verifier::opaque]
    open spec fn wf(m: LayoutCommitArgsModel) -> bool {
        &&& StateId::wf(m.state_id)
        &&& Option::<u64>::wf(m.last_write_offset)
        &&& Option::<Time>::wf(m.time_modify)
        &&& LayoutUpdate::wf(m.layout_update)
    }

    #[verifier::opaque]
    open spec fn wire(m: LayoutCommitArgsModel) -> Seq<u8> {
        u64::wire(m.offset)
            + u64::wire(m.length)
            + bool::wire(m.reclaim)
            + StateId::wire(m.state_id)
            + Option::<u64>::wire(m.last_write_offset)
            + Option::<Time>::wire(m.time_modify)
            + LayoutUpdate::wire(m.layout_update)
    }

    #[verifier::opaque]
    open spec fn parse(s: Seq<u8>) -> Result<(LayoutCommitArgsModel, Seq<u8>), XdrError> {
        match u64::parse(s) {
            Err(e) => Err(e),
            Ok((offset, s1)) => match u64::parse(s1) {
                Err(e) => Err(e),
                Ok((length, s2)) => match bool::parse(s2) {
                    Err(e) => Err(e),
                    Ok((reclaim, s3)) => match StateId::parse(s3) {
                        Err(e) => Err(e),
                        Ok((state_id, s4)) => match Option::<u64>::parse(s4) {
                            Err(e) => Err(e),
                            Ok((last_write_offset, s5)) => match Option::<Time>::parse(s5) {
                                Err(e) => Err(e),
                                Ok((time_modify, s6)) => match LayoutUpdate::parse(s6) {
                                    Err(e) => Err(e),
                                    Ok((layout_update, s7)) => {
                                        Ok(
                                            (
                                                LayoutCommitArgsModel {
                                                    offset,
                                                    length,
                                                    reclaim,
                                                    state_id,
                                                    last_write_offset,
                                                    time_modify,
                                                    layout_update,
                                                },
                                                s7,
                                            ),
                                        )
                                    },
                                },
                            },
                        },
                    },
                },
            },
        }
    }

    proof fn lemma_round_trip(m: LayoutCommitArgsModel, rest: Seq<u8>) {
        reveal(<LayoutCommitArgs as Xdr>::wf);
        reveal(<LayoutCommitArgs as Xdr>::wire);
        reveal(<LayoutCommitArgs as Xdr>::parse);
        let w1 = u64::wire(m.offset);
        let w2 = u64::wire(m.length);
        let w3 = bool::wire(m.reclaim);
        let w4 = StateId::wire(m.state_id);
        let w5 = Option::<u64>::wire(m.last_write_offset);
        let w6 = Option::<Time>::wire(m.time_modify);
        let w7 = LayoutUpdate::wire(m.layout_update);
        let r7 = rest;
        let r6 = w7 + r7;
        let r5 = w6 + r6;
        let r4 = w5 + r5;
        let r3 = w4 + r4;
        let r2 = w3 + r3;
        let r1 = w2 + r2;
        lemma_concat_assoc(w1 + w2 + w3 + w4 + w5 + w6, w7, r7);
        lemma_concat_assoc(w1 + w2 + w3 + w4 + w5, w6, r6);
        lemma_concat_assoc(w1 + w2 + w3 + w4, w5, r5);
        lemma_concat_assoc(w1 + w2 + w3, w4, r4);
        lemma_concat_assoc(w1 + w2, w3, r3);
        lemma_concat_assoc(w1, w2, r2);
        u64::lemma_round_trip(m.offset, r1);
        u64::lemma_round_trip(m.length, r2);
        bool::lemma_round_trip(m.reclaim, r3);
        StateId::lemma_round_trip(m.state_id, r4);
        Option::<u64>::lemma_round_trip(m.last_write_offset, r5);
        Option::<Time>::lemma_round_trip(m.time_modify, r6);
        LayoutUpdate::lemma_round_trip(m.layout_update, r7);
    }

    fn encode(&self, out: &mut Vec<u8>) -> (r: Result<(), EncodeError>) {
        proof {
            reveal(<LayoutCommitArgs as Xdr>::model);
            reveal(<LayoutCommitArgs as Xdr>::wf);
            reveal(<LayoutCommitArgs as Xdr>::wire);
        }
        let ghost m = self.model();
        let ghost w1 = u64::wire(m.offset);
        let ghost w2 = u64::wire(m.length);
        let ghost w3 = bool::wire(m.reclaim);
        let ghost w4 = StateId::wire(m.state_id);
        let ghost w5 = Option::<u64>::wire(m.last_write_offset);
        let ghost w6 = Option::<Time>::wire(m.time_modify);
        let ghost w7 = LayoutUpdate::wire(m.layout_update);
        let _ = self.offset.encode(out);
        let _ = self.length.encode(out);
        proof {
            lemma_concat_assoc(old(out)@, w1, w2);
        }
        let _ = self.reclaim.encode(out);
        proof {
            lemma_concat_assoc(old(out)@, w1 + w2, w3);
        }
        self.state_id.encode(out)?;
        proof {
            lemma_concat_assoc(old(out)@, w1 + w2 + w3, w4);
        }
        self.last_write_offset.encode(out)?;
        proof {
            lemma_concat_assoc(old(out)@, w1 + w2 + w3 + w4, w5);
        }
        self.time_modify.encode(out)?;
        proof {
            lemma_concat_assoc(old(out)@, w1 + w2 + w3 + w4 + w5, w6);
        }
        self.layout_update.encode(out)?;
        proof {
            lemma_concat_assoc(old(out)@, w1 + w2 + w3 + w4 + w5 + w6, w7);
        }
        Ok(())
    }

    fn decode<'a>(input: &'a [u8]) -> (r: Result<(LayoutCommitArgs, &'a [u8]), XdrError>) {
        proof {
            reveal(<LayoutCommitArgs as Xdr>::model);
            reveal(<LayoutCommitArgs as Xdr>::parse);
        }
        let (offset, cur) = u64::decode(input)?;
        let (length, cur) = u64::decode(cur)?;
        let (reclaim, cur) = bool::decode(cur)?;
        let (state_id, cur) = StateId::decode(cur)?;
        let (last_write_offset, cur) = Option::<u64>::decode(cur)?;
        let (time_modify, cur) = Option::<Time>::decode(cur)?;
        let (layout_update, cur) = LayoutUpdate::decode(cur)?;
        Ok(
            (
                LayoutCommitArgs {
                    offset,
                    length,
                    reclaim,
                    state_id,
                    last_write_offset,
                    time_modify,
                    layout_update,
                },
                cur,
            ),
        )
    }
}

#[derive(Clone, Debug, PartialEq, Eq)]
pub struct LayoutGetArgs {
    pub signal_layout_available: bool,
    pub layout_type: LayoutType,
    pub io_mode: LayoutIoMode,
    pub offset: u64,
    pub length: u64,
    pub min_length: u64,
    pub state_id: StateId,
    pub max_count: u32,
}

/// What a [`LayoutGetArgs`] stands for.
pub struct LayoutGetArgsModel {
    pub signal_layout_available: bool,
    pub layout_type: LayoutType,
    pub io_mode: LayoutIoMode,
    pub offset: u64,
    pub length: u64,
    pub min_length: u64,
    pub state_id: StateIdModel,
    pub max_count: u32,
}

impl Xdr for LayoutGetArgs {
    type Model = LayoutGetArgsModel;

    #[verifier::opaque]
    open spec fn model(&self) -> LayoutGetArgsModel {
        LayoutGetArgsModel {
            signal_layout_available: self.signal_layout_available.model(),
            layout_type: self.layout_type.model(),
            io_mode: self.io_mode.model(),
            offset: self.offset.model(),
            length: self.length.model(),
            min_length: self.min_length.model(),
            state_id: self.state_id.model(),
            max_count: self.max_count.model(),
        }
    }

    #[verifier::opaque]
    open spec fn wf(m: LayoutGetArgsModel) -> bool {
        &&& LayoutType::wf(m.layout_type)
        &&& LayoutIoMode::wf(m.io_mode)
        &&& StateId::wf(m.state_id)
    }

    #[verifier::opaque]
    open spec fn wire(m: LayoutGetArgsModel) -> Seq<u8> {
        bool::wire(m.signal_layout_available)
            + LayoutType::wire(m.layout_type)
            + LayoutIoMode::wire(m.io_mode)
            + u64::wire(m.offset)
            + u64::wire(m.length)
            + u64::wire(m.min_length)
            + StateId::wire(m.state_id)
            + u32::wire(m.max_count)
    }

    #[verifier::opaque]
    open spec fn parse(s: Seq<u8>) -> Result<(LayoutGetArgsModel, Seq<u8>), XdrError> {
        match bool::parse(s) {
            Err(e) => Err(e),
            Ok((signal_layout_available, s1)) => match LayoutType::parse(s1) {
                Err(e) => Err(e),
                Ok((layout_type, s2)) => match LayoutIoMode::parse(s2) {
                    Err(e) => Err(e),
                    Ok((io_mode, s3)) => match u64::parse(s3) {
                        Err(e) => Err(e),
                        Ok((offset, s4)) => match u64::parse(s4) {
                            Err(e) => Err(e),
                            Ok((length, s5)) => match u64::parse(s5) {
                                Err(e) => Err(e),
                                Ok((min_length, s6)) => match StateId::parse(s6) {
                                    Err(e) => Err(e),
                                    Ok((state_id, s7)) => match u32::parse(s7) {
                                        Err(e) => Err(e),
                                        Ok((max_count, s8)) => {
                                            Ok(
                                                (
                                                    LayoutGetArgsModel {
                                                        signal_layout_available,
                                                        layout_type,
                                                        io_mode,
                                                        offset,
                                                        length,
                                                        min_length,
                                                        state_id,
                                                        max_count,
                                                    },
                                                    s8,
                                                ),
                                            )
                                        },
                                    },
                                },
                            },
                        },
                    },
                },
            },
        }
    }

    proof fn lemma_round_trip(m: LayoutGetArgsModel, rest: Seq<u8>) {
        reveal(<LayoutGetArgs as Xdr>::wf);
        reveal(<LayoutGetArgs as Xdr>::wire);
        reveal(<LayoutGetArgs as Xdr>::parse);
        let w1 = bool::wire(m.signal_layout_available);
        let w2 = LayoutType::wire(m.layout_type);
        let w3 = LayoutIoMode::wire(m.io_mode);
        let w4 = u64::wire(m.offset);
        let w5 = u64::wire(m.length);
        let w6 = u64::wire(m.min_length);
        let w7 = StateId::wire(m.state_id);
        let w8 = u32::wire(m.max_count);
        let r8 = rest;
        let r7 = w8 + r8;
        let r6 = w7 + r7;
        let r5 = w6 + r6;
        let r4 = w5 + r5;
        let r3 = w4 + r4;
        let r2 = w3 + r3;
        let r1 = w2 + r2;
        lemma_concat_assoc(w1 + w2 + w3 + w4 + w5 + w6 + w7, w8, r8);
        lemma_concat_assoc(w1 + w2 + w3 + w4 + w5 + w6, w7, r7);
        lemma_concat_assoc(w1 + w2 + w3 + w4 + w5, w6, r6);
        lemma_concat_assoc(w1 + w2 + w3 + w4, w5, r5);
        lemma_concat_assoc(w1 + w2 + w3, w4, r4);
        lemma_concat_assoc(w1 + w2, w3, r3);
        lemma_concat_assoc(w1, w2, r2);
        bool::lemma_round_trip(m.signal_layout_available, r1);
        LayoutType::lemma_round_trip(m.layout_type, r2);
        LayoutIoMode::lemma_round_trip(m.io_mode, r3);
        u64::lemma_round_trip(m.offset, r4);
        u64::lemma_round_trip(m.length, r5);
        u64::lemma_round_trip(m.min_length, r6);
        StateId::lemma_round_trip(m.state_id, r7);
        u32::lemma_round_trip(m.max_count, r8);
    }

    fn encode(&self, out: &mut Vec<u8>) -> (r: Result<(), EncodeError>) {
        proof {
            reveal(<LayoutGetArgs as Xdr>::model);
            reveal(<LayoutGetArgs as Xdr>::wf);
            reveal(<LayoutGetArgs as Xdr>::wire);
        }
        let ghost m = self.model();
        let ghost w1 = bool::wire(m.signal_layout_available);
        let ghost w2 = LayoutType::wire(m.layout_type);
        let ghost w3 = LayoutIoMode::wire(m.io_mode);
        let ghost w4 = u64::wire(m.offset);
        let ghost w5 = u64::wire(m.length);
        let ghost w6 = u64::wire(m.min_length);
        let ghost w7 = StateId::wire(m.state_id);
        let ghost w8 = u32::wire(m.max_count);
        let _ = self.signal_layout_available.encode(out);
        self.layout_type.encode(out)?;
        proof {
            lemma_concat_assoc(old(out)@, w1, w2);
        }
        self.io_mode.encode(out)?;
        proof {
            lemma_concat_assoc(old(out)@, w1 + w2, w3);
        }
        let _ = self.offset.encode(out);
        proof {
            lemma_concat_assoc(old(out)@, w1 + w2 + w3, w4);
        }
        let _ = self.length.encode(out);
        proof {
            lemma_concat_assoc(old(out)@, w1 + w2 + w3 + w4, w5);
        }
        let _ = self.min_length.encode(out);
        proof {
            lemma_concat_assoc(old(out)@, w1 + w2 + w3 + w4 + w5, w6);
        }
        self.state_id.encode(out)?;
        proof {
            lemma_concat_assoc(old(out)@, w1 + w2 + w3 + w4 + w5 + w6, w7);
        }
        let _ = self.max_count.encode(out);
        proof {
            lemma_concat_assoc(old(out)@, w1 + w2 + w3 + w4 + w5 + w6 + w7, w8);
        }
        Ok(())
    }

    fn decode<'a>(input: &'a [u8]) -> (r: Result<(LayoutGetArgs, &'a [u8]), XdrError>) {
        proof {
            reveal(<LayoutGetArgs as Xdr>::model);
            reveal(<LayoutGetArgs as Xdr>::parse);
        }
        let (signal_layout_available, cur) = bool::decode(input)?;
        let (layout_type, cur) = LayoutType::decode(cur)?;
        let (io_mode, cur) = LayoutIoMode::decode(cur)?;
        let (offset, cur) = u64::decode(cur)?;
        let (length, cur) = u64::decode(cur)?;
        let (min_length, cur) = u64::decode(cur)?;
        let (state_id, cur) = StateId::decode(cur)?;
        let (max_count, cur) = u32::decode(cur)?;
        Ok(
            (
                LayoutGetArgs {
                    signal_layout_available,
                    layout_type,
                    io_mode,
                    offset,
                    length,
                    min_length,
                    state_id,
                    max_count,
                },
                cur,
            ),
        )
    }
}

#[derive(Clone, Debug, PartialEq, Eq)]
pub enum LayoutReturnType {
    File,
    FsId,
    All,
}

impl LayoutReturnType {
    /// The discriminant that leads the encoding of a value.
    pub open spec fn tag(m: LayoutReturnType) -> u32 {
        match m {
            LayoutReturnType::File => 1,
            LayoutReturnType::FsId => 2,
            LayoutReturnType::All => 3,
        }
    }

    /// What follows the discriminant in the encoding of a value.
    #[verifier::opaque]
    pub open spec fn wire_payload(m: LayoutReturnType) -> Seq<u8> {
        match m {
            LayoutReturnType::File => Seq::<u8>::empty(),
            LayoutReturnType::FsId => Seq::<u8>::empty(),
            LayoutReturnType::All => Seq::<u8>::empty(),
        }
    }

    /// The value with the discriminant `tag` whose payload is at the front of `s`.
    #[verifier::opaque]
    pub open spec fn parse_payload(
        tag: u32,
        s: Seq<u8>,
    ) -> Result<(LayoutReturnType, Seq<u8>), XdrError> {
        if tag == 1 {
            Ok((LayoutReturnType::File, s))
        } else if tag == 2 {
            Ok((LayoutReturnType::FsId, s))
        } else if tag == 3 {
            Ok((LayoutReturnType::All, s))
        } else {
            Err(XdrError::BadDiscriminant("LayoutReturnType", tag))
        }
    }

    pub proof fn lemma_payload_round_trip(m: LayoutReturnType, rest: Seq<u8>)
        requires
            <LayoutReturnType as Xdr>::wf(m),
        ensures
            Self::parse_payload(Self::tag(m), Self::wire_payload(m) + rest)
                == Ok::<(LayoutReturnType, Seq<u8>), XdrError>((m, rest)),
    {
        reveal(LayoutReturnType::wire_payload);
        reveal(LayoutReturnType::parse_payload);
        match m {
            LayoutReturnType::File => {
                assert(Seq::<u8>::empty() + rest =~= rest);
            },
            LayoutReturnType::FsId => {
                assert(Seq::<u8>::empty() + rest =~= rest);
            },
            LayoutReturnType::All => {
                assert(Seq::<u8>::empty() + rest =~= rest);
            },
        }
    }

    /// The encoding of a value begins with its discriminant, big-endian.
    pub proof fn lemma_wire_leads_with_tag(m: LayoutReturnType)
        ensures
            <LayoutReturnType as Xdr>::wire(m).len() >= 4,
            <LayoutReturnType as Xdr>::wire(m).take(4) == wire_u32(Self::tag(m)),
    {
        reveal(<LayoutReturnType as Xdr>::wire);
        reveal(wire_u32);
        assert((wire_u32(Self::tag(m)) + Self::wire_payload(m)).take(4) =~= wire_u32(Self::tag(m)));
    }

    /// The discriminant of a value.
    pub fn tag_of(&self) -> (t: u32)
        ensures
            t == Self::tag(self.model()),
    {
        match self {
            LayoutReturnType::File => 1,
            LayoutReturnType::FsId => 2,
            LayoutReturnType::All => 3,
        }
    }

    /// Appends what follows the discriminant in the encoding of `self`.
    pub fn encode_payload(&self, out: &mut Vec<u8>) -> (r: Result<(), EncodeError>)
        ensures
            r is Ok <==> <LayoutReturnType as Xdr>::wf(self.model()),
            r is Ok ==> final(out)@ == old(out)@ + Self::wire_payload(self.model()),
    {
        proof {
            reveal(LayoutReturnType::wire_payload);
        }
        match self {
            LayoutReturnType::File => {
                assert(out@ =~= old(out)@ + Seq::<u8>::empty());
            },
            LayoutReturnType::FsId => {
                assert(out@ =~= old(out)@ + Seq::<u8>::empty());
            },
            LayoutReturnType::All => {
                assert(out@ =~= old(out)@ + Seq::<u8>::empty());
            },
        }
        Ok(())
    }

    /// Decodes the payload of the value with the discriminant `tag`.
    pub fn decode_payload<'a>(
        tag: u32,
        input: &'a [u8],
    ) -> (r: Result<(LayoutReturnType, &'a [u8]), XdrError>)
        ensures
            match r {
                Ok((v, rest)) => {
                    Self::parse_payload(tag, input@)
                        == Ok::<(LayoutReturnType, Seq<u8>), XdrError>((v.model(), rest@))
                },
                Err(e) => {
                    Self::parse_payload(tag, input@)
                        == Err::<(LayoutReturnType, Seq<u8>), XdrError>(e)
                },
            },
    {
        proof {
            reveal(LayoutReturnType::parse_payload);
        }
        if tag == 1 {
            Ok((LayoutReturnType::File, input))
        } else if tag == 2 {
            Ok((LayoutReturnType::FsId, input))
        } else if tag == 3 {
            Ok((LayoutReturnType::All, input))
        } else {
            Err(XdrError::BadDiscriminant("LayoutReturnType", tag))
        }
    }
}

impl Xdr for LayoutReturnType {
    type Model = LayoutReturnType;

    open spec fn model(&self) -> LayoutReturnType {
        *self
    }

    open spec fn wf(m: LayoutReturnType) -> bool {
        true
    }

    #[verifier::opaque]
    open spec fn wire(m: LayoutReturnType) -> Seq<u8> {
        wire_u32(Self::tag(m)) + Self::wire_payload(m)
    }

    #[verifier::opaque]
    open spec fn parse(s: Seq<u8>) -> Result<(LayoutReturnType, Seq<u8>), XdrError> {
        match parse_u32(s) {
            Ok((tag, r)) => Self::parse_payload(tag, r),
            Err(e) => Err(e),
        }
    }

    proof fn lemma_round_trip(m: LayoutReturnType, rest: Seq<u8>) {
        reveal(<LayoutReturnType as Xdr>::wire);
        reveal(<LayoutReturnType as Xdr>::parse);
        lemma_concat_assoc(wire_u32(Self::tag(m)), Self::wire_payload(m), rest);
        lemma_u32_round_trip(Self::tag(m), Self::wire_payload(m) + rest);
        Self::lemma_payload_round_trip(m, rest);
    }

    fn encode(&self, out: &mut Vec<u8>) -> (r: Result<(), EncodeError>) {
        proof {
            reveal(<LayoutReturnType as Xdr>::wire);
        }
        let tag = self.tag_of();
        let _ = tag.encode(out);
        self.encode_payload(out)?;
        proof {
            lemma_concat_assoc(old(out)@, wire_u32(tag), Self::wire_payload(self.model()));
        }
        Ok(())
    }

    fn decode<'a>(input: &'a [u8]) -> (r: Result<(LayoutReturnType, &'a [u8]), XdrError>) {
        proof {
            reveal(<LayoutReturnType as Xdr>::parse);
        }
        let (tag, cur) = u32::decode(input)?;
        Self::decode_payload(tag, cur)
    }
}

#[derive(Clone, Debug, PartialEq, Eq)]
pub struct LayoutReturnFile {
    pub offset: u64,
    pub length: u64,
    pub state_id: StateId,
    pub body: Vec<u8>,
}

/// What a [`LayoutReturnFile`] stands for.
pub struct LayoutReturnFileModel {
    pub offset: u64,
    pub length: u64,
    pub state_id: StateIdModel,
    pub body: Seq<u8>,
}

impl Xdr for LayoutReturnFile {
    type Model = LayoutReturnFileModel;

    #[verifier::opaque]
    open spec fn model(&self) -> LayoutReturnFileModel {
        LayoutReturnFileModel {
            offset: self.offset.model(),
            length: self.length.model(),
            state_id: self.state_id.model(),
            body: self.body@,
        }
    }

    #[verifier::opaque]
    open spec fn wf(m: LayoutReturnFileModel) -> bool {
        &&& StateId::wf(m.state_id)
        &&& wf_opaque(m.body)
    }

    #[verifier::opaque]
    open spec fn wire(m: LayoutReturnFileModel) -> Seq<u8> {
        u64::wire(m.offset) + u64::wire(m.length) + StateId::wire(m.state_id) + wire_opaque(m.body)
    }

    #[verifier::opaque]
    open spec fn parse(s: Seq<u8>) -> Result<(LayoutReturnFileModel, Seq<u8>), XdrError> {
        match u64::parse(s) {
            Err(e) => Err(e),
            Ok((offset, s1)) => match u64::parse(s1) {
                Err(e) => Err(e),
                Ok((length, s2)) => match StateId::parse(s2) {
                    Err(e) => Err(e),
                    Ok((state_id, s3)) => match parse_opaque(s3) {
                        Err(e) => Err(e),
                        Ok((body, s4)) => {
                            Ok((LayoutReturnFileModel { offset, length, state_id, body }, s4))
                        },
                    },
                },
            },
        }
    }

    proof fn lemma_round_trip(m: LayoutReturnFileModel, rest: Seq<u8>) {
        reveal(<LayoutReturnFile as Xdr>::wf);
        reveal(<LayoutReturnFile as Xdr>::wire);
        reveal(<LayoutReturnFile as Xdr>::parse);
        let w1 = u64::wire(m.offset);
        let w2 = u64::wire(m.length);
        let w3 = StateId::wire(m.state_id);
        let w4 = wire_opaque(m.body);
        let r4 = rest;
        let r3 = w4 + r4;
        let r2 = w3 + r3;
        let r1 = w2 + r2;
        lemma_concat_assoc(w1 + w2 + w3, w4, r4);
        lemma_concat_assoc(w1 + w2, w3, r3);
        lemma_concat_assoc(w1, w2, r2);
        u64::lemma_round_trip(m.offset, r1);
        u64::lemma_round_trip(m.length, r2);
        StateId::lemma_round_trip(m.state_id, r3);
        lemma_opaque_round_trip(m.body, r4);
    }

    fn encode(&self, out: &mut Vec<u8>) -> (r: Result<(), EncodeError>) {
        proof {
            reveal(<LayoutReturnFile as Xdr>::model);
            reveal(<LayoutReturnFile as Xdr>::wf);
            reveal(<LayoutReturnFile as Xdr>::wire);
        }
        let ghost m = self.model();
        let ghost w1 = u64::wire(m.offset);
        let ghost w2 = u64::wire(m.length);
        let ghost w3 = StateId::wire(m.state_id);
        let ghost w4 = wire_opaque(m.body);
        let _ = self.offset.encode(out);
        let _ = self.length.encode(out);
        proof {
            lemma_concat_assoc(old(out)@, w1, w2);
        }
        self.state_id.encode(out)?;
        proof {
            lemma_concat_assoc(old(out)@, w1 + w2, w3);
        }
        encode_opaque(self.body.as_slice(), out)?;
        proof {
            lemma_concat_assoc(old(out)@, w1 + w2 + w3, w4);
        }
        Ok(())
    }

    fn decode<'a>(input: &'a [u8]) -> (r: Result<(LayoutReturnFile, &'a [u8]), XdrError>) {
        proof {
            reveal(<LayoutReturnFile as Xdr>::model);
            reveal(<LayoutReturnFile as Xdr>::parse);
        }
        let (offset, cur) = u64::decode(input)?;
        let (length, cur) = u64::decode(cur)?;
        let (state_id, cur) = StateId::decode(cur)?;
        let (body, cur) = decode_opaque(cur)?;
        let body = copy_bytes(body);
        Ok((LayoutReturnFile { offset, length, state_id, body }, cur))
    }
}

#[derive(Clone, Debug, PartialEq, Eq)]
pub enum LayoutReturn {
    File(LayoutReturnFile),
    FsId,
    All,
}

/// What a [`LayoutReturn`] stands for.
pub enum LayoutReturnModel {
    File(LayoutReturnFileModel),
    FsId,
    All,
}

impl LayoutReturn {
    /// The discriminant that leads the encoding of a value.
    pub open spec fn tag(m: LayoutReturnModel) -> u32 {
        match m {
            LayoutReturnModel::File(..) => 1,
            LayoutReturnModel::FsId => 2,
            LayoutReturnModel::All => 3,
        }
    }

    /// What follows the discriminant in the encoding of a value.
    #[verifier::opaque]
    pub open spec fn wire_payload(m: LayoutReturnModel) -> Seq<u8> {
        match m {
            LayoutReturnModel::File(f0) => LayoutReturnFile::wire(f0),
            LayoutReturnModel::FsId => Seq::<u8>::empty(),
            LayoutReturnModel::All => Seq::<u8>::empty(),
        }
    }

    /// The value with the discriminant `tag` whose payload is at the front of `s`.
    #[verifier::opaque]
    pub open spec fn parse_payload(
        tag: u32,
        s: Seq<u8>,
    ) -> Result<(LayoutReturnModel, Seq<u8>), XdrError> {
        if tag == 1 {
            match LayoutReturnFile::parse(s) {
                Err(e) => Err(e),
                Ok((f0, s1)) => Ok((LayoutReturnModel::File(f0), s1)),
            }
        } else if tag == 2 {
            Ok((LayoutReturnModel::FsId, s))
        } else if tag == 3 {
            Ok((LayoutReturnModel::All, s))
        } else {
            Err(XdrError::BadDiscriminant("LayoutReturn", tag))
        }
    }

    pub proof fn lemma_payload_round_trip(m: LayoutReturnModel, rest: Seq<u8>)
        requires
            <LayoutReturn as Xdr>::wf(m),
        ensures
            Self::parse_payload(Self::tag(m), Self::wire_payload(m) + rest)
                == Ok::<(LayoutReturnModel, Seq<u8>), XdrError>((m, rest)),
    {
        reveal(<LayoutReturn as Xdr>::wf);
        reveal(LayoutReturn::wire_payload);
        reveal(LayoutReturn::parse_payload);
        match m {
            LayoutReturnModel::File(f0) => {
                LayoutReturnFile::lemma_round_trip(f0, rest);
            },
            LayoutReturnModel::FsId => {
                assert(Seq::<u8>::empty() + rest =~= rest);
            },
            LayoutReturnModel::All => {
                assert(Seq::<u8>::empty() + rest =~= rest);
            },
        }
    }

    /// The encoding of a value begins with its discriminant, big-endian.
    pub proof fn lemma_wire_leads_with_tag(m: LayoutReturnModel)
        ensures
            <LayoutReturn as Xdr>::wire(m).len() >= 4,
            <LayoutReturn as Xdr>::wire(m).take(4) == wire_u32(Self::tag(m)),
    {
        reveal(<LayoutReturn as Xdr>::wire);
        reveal(wire_u32);
        assert((wire_u32(Self::tag(m)) + Self::wire_payload(m)).take(4) =~= wire_u32(Self::tag(m)));
    }

    /// The discriminant of a value.
    pub fn tag_of(&self) -> (t: u32)
        ensures
            t == Self::tag(self.model()),
    {
        proof {
            reveal(<LayoutReturn as Xdr>::model);
        }
        match self {
            LayoutReturn::File(..) => 1,
            LayoutReturn::FsId => 2,
            LayoutReturn::All => 3,
        }
    }

    /// Appends what follows the discriminant in the encoding of `self`.
    pub fn encode_payload(&self, out: &mut Vec<u8>) -> (r: Result<(), EncodeError>)
        ensures
            r is Ok <==> <LayoutReturn as Xdr>::wf(self.model()),
            r is Ok ==> final(out)@ == old(out)@ + Self::wire_payload(self.model()),
    {
        proof {
            reveal(<LayoutReturn as Xdr>::model);
            reveal(<LayoutReturn as Xdr>::wf);
            reveal(LayoutReturn::wire_payload);
        }
        match self {
            LayoutReturn::File(f0) => {
                f0.encode(out)?;
            },
            LayoutReturn::FsId => {
                assert(out@ =~= old(out)@ + Seq::<u8>::empty());
            },
            LayoutReturn::All => {
                assert(out@ =~= old(out)@ + Seq::<u8>::empty());
            },
        }
        Ok(())
    }

    /// Decodes the payload of the value with the discriminant `tag`.
    pub fn decode_payload<'a>(
        tag: u32,
        input: &'a [u8],
    ) -> (r: Result<(LayoutReturn, &'a [u8]), XdrError>)
        ensures
            match r {
                Ok((v, rest)) => {
                    Self::parse_payload(tag, input@)
                        == Ok::<(LayoutReturnModel, Seq<u8>), XdrError>((v.model(), rest@))
                },
                Err(e) => {
                    Self::parse_payload(tag, input@)
                        == Err::<(LayoutReturnModel, Seq<u8>), XdrError>(e)
                },
            },
    {
        proof {
            reveal(<LayoutReturn as Xdr>::model);
            reveal(LayoutReturn::parse_payload);
        }
        if tag == 1 {
            let (f0, cur) = LayoutReturnFile::decode(input)?;
            Ok((LayoutReturn::File(f0), cur))
        } else if tag == 2 {
            Ok((LayoutReturn::FsId, input))
        } else if tag == 3 {
            Ok((LayoutReturn::All, input))
        } else {
            Err(XdrError::BadDiscriminant("LayoutReturn", tag))
        }
    }
}

impl Xdr for LayoutReturn {
    type Model = LayoutReturnModel;

    #[verifier::opaque]
    open spec fn model(&self) -> LayoutReturnModel {
        match self {
            LayoutReturn::File(f0) => LayoutReturnModel::File(f0.model()),
            LayoutReturn::FsId => LayoutReturnModel::FsId,
            LayoutReturn::All => LayoutReturnModel::All,
        }
    }

    #[verifier::opaque]
    open spec fn wf(m: LayoutReturnModel) -> bool {
        match m {
            LayoutReturnModel::File(f0) => LayoutReturnFile::wf(f0),
            LayoutReturnModel::FsId => true,
            LayoutReturnModel::All => true,
        }
    }

    #[verifier::opaque]
    open spec fn wire(m: LayoutReturnModel) -> Seq<u8> {
        wire_u32(Self::tag(m)) + Self::wire_payload(m)
    }

    #[verifier::opaque]
    open spec fn parse(s: Seq<u8>) -> Result<(LayoutReturnModel, Seq<u8>), XdrError> {
        match parse_u32(s) {
            Ok((tag, r)) => Self::parse_payload(tag, r),
            Err(e) => Err(e),
        }
    }

    proof fn lemma_round_trip(m: LayoutReturnModel, rest: Seq<u8>) {
        reveal(<LayoutReturn as Xdr>::wire);
        reveal(<LayoutReturn as Xdr>::parse);
        lemma_concat_assoc(wire_u32(Self::tag(m)), Self::wire_payload(m), rest);
        lemma_u32_round_trip(Self::tag(m), Self::wire_payload(m) + rest);
        Self::lemma_payload_round_trip(m, rest);
    }

    fn encode(&self, out: &mut Vec<u8>) -> (r: Result<(), EncodeError>) {
        proof {
            reveal(<LayoutReturn as Xdr>::wire);
        }
        let tag = self.tag_of();
        let _ = tag.encode(out);
        self.encode_payload(out)?;
        proof {
            lemma_concat_assoc(old(out)@, wire_u32(tag), Self::wire_payload(self.model()));
        }
        Ok(())
    }

    fn decode<'a>(input: &'a [u8]) -> (r: Result<(LayoutReturn, &'a [u8]), XdrError>) {
        proof {
            reveal(<LayoutReturn as Xdr>::parse);
        }
        let (tag, cur) = u32::decode(input)?;
        Self::decode_payload(tag, cur)
    }
}

#[derive(Clone, Debug, PartialEq, Eq)]
pub struct LayoutReturnArgs {
    pub reclaim: bool,
    pub layout_type: LayoutType,
    pub io_mode: LayoutIoMode,
    pub layout_return: LayoutReturn,
}

/// What a [`LayoutReturnArgs`] stands for.
pub struct LayoutReturnArgsModel {
    pub reclaim: bool,
    pub layout_type: LayoutType,
    pub io_mode: LayoutIoMode,
    pub layout_return: LayoutReturnModel,
}

impl Xdr for LayoutReturnArgs {
    type Model = LayoutReturnArgsModel;

    #[verifier::opaque]
    open spec fn model(&self) -> LayoutReturnArgsModel {
        LayoutReturnArgsModel {
            reclaim: self.reclaim.model(),
            layout_type: self.layout_type.model(),
            io_mode: self.io_mode.model(),
            layout_return: self.layout_return.model(),
        }
    }

    #[verifier::opaque]
    open spec fn wf(m: LayoutReturnArgsModel) -> bool {
        &&& LayoutType::wf(m.layout_type)
        &&& LayoutIoMode::wf(m.io_mode)
        &&& LayoutReturn::wf(m.layout_return)
    }

    #[verifier::opaque]
    open spec fn wire(m: LayoutReturnArgsModel) -> Seq<u8> {
        bool::wire(m.reclaim)
            + LayoutType::wire(m.layout_type)
            + LayoutIoMode::wire(m.io_mode)
            + LayoutReturn::wire(m.layout_return)
    }

    #[verifier::opaque]
    open spec fn parse(s: Seq<u8>) -> Result<(LayoutReturnArgsModel, Seq<u8>), XdrError> {
        match bool::parse(s) {
            Err(e) => Err(e),
            Ok((reclaim, s1)) => match LayoutType::parse(s1) {
                Err(e) => Err(e),
                Ok((layout_type, s2)) => match LayoutIoMode::parse(s2) {
                    Err(e) => Err(e),
                    Ok((io_mode, s3)) => match LayoutReturn::parse(s3) {
                        Err(e) => Err(e),
                        Ok((layout_return, s4)) => {
                            Ok(
                                (
                                    LayoutReturnArgsModel {
                                        reclaim,
                                        layout_type,
                                        io_mode,
                                        layout_return,
                                    },
                                    s4,
                                ),
                            )
                        },
                    },
                },
            },
        }
    }

    proof fn lemma_round_trip(m: LayoutReturnArgsModel, rest: Seq<u8>) {
        reveal(<LayoutReturnArgs as Xdr>::wf);
        reveal(<LayoutReturnArgs as Xdr>::wire);
        reveal(<LayoutReturnArgs as Xdr>::parse);
        let w1 = bool::wire(m.reclaim);
        let w2 = LayoutType::wire(m.layout_type);
        let w3 = LayoutIoMode::wire(m.io_mode);
        let w4 = LayoutReturn::wire(m.layout_return);
        let r4 = rest;
        let r3 = w4 + r4;
        let r2 = w3 + r3;
        let r1 = w2 + r2;
        lemma_concat_assoc(w1 + w2 + w3, w4, r4);
        lemma_concat_assoc(w1 + w2, w3, r3);
        lemma_concat_assoc(w1, w2, r2);
        bool::lemma_round_trip(m.reclaim, r1);
        LayoutType::lemma_round_trip(m.layout_type, r2);
        LayoutIoMode::lemma_round_trip(m.io_mode, r3);
        LayoutReturn::lemma_round_trip(m.layout_return, r4);
    }

    fn encode(&self, out: &mut Vec<u8>) -> (r: Result<(), EncodeError>) {
        proof {
            reveal(<LayoutReturnArgs as Xdr>::model);
            reveal(<LayoutReturnArgs as Xdr>::wf);
            reveal(<LayoutReturnArgs as Xdr>::wire);
        }
        let ghost m = self.model();
        let ghost w1 = bool::wire(m.reclaim);
        let ghost w2 = LayoutType::wire(m.layout_type);
        let ghost w3 = LayoutIoMode::wire(m.io_mode);
        let ghost w4 = LayoutReturn::wire(m.layout_return);
        let _ = self.reclaim.encode(out);
        self.layout_type.encode(out)?;
        proof {
            lemma_concat_assoc(old(out)@, w1, w2);
        }
        self.io_mode.encode(out)?;
        proof {
            lemma_concat_assoc(old(out)@, w1 + w2, w3);
        }
        self.layout_return.encode(out)?;
        proof {
            lemma_concat_assoc(old(out)@, w1 + w2 + w3, w4);
        }
        Ok(())
    }

    fn decode<'a>(input: &'a [u8]) -> (r: Result<(LayoutReturnArgs, &'a [u8]), XdrError>) {
        proof {
            reveal(<LayoutReturnArgs as Xdr>::model);
            reveal(<LayoutReturnArgs as Xdr>::parse);
        }
        let (reclaim, cur) = bool::decode(input)?;
        let (layout_type, cur) = LayoutType::decode(cur)?;
        let (io_mode, cur) = LayoutIoMode::decode(cur)?;
        let (layout_return, cur) = LayoutReturn::decode(cur)?;
        Ok((LayoutReturnArgs { reclaim, layout_type, io_mode, layout_return }, cur))
    }
}

#[derive(Clone, Debug, PartialEq, Eq)]
pub enum SecInfoStyle {
    CurrentFh,
    Parent,
}

impl SecInfoStyle {
    /// The discriminant that leads the encoding of a value.
    pub open spec fn tag(m: SecInfoStyle) -> u32 {
        match m {
            SecInfoStyle::CurrentFh => 0,
            SecInfoStyle::Parent => 1,
        }
    }

    /// What follows the discriminant in the encoding of a value.
    #[verifier::opaque]
    pub open spec fn wire_payload(m: SecInfoStyle) -> Seq<u8> {
        match m {
            SecInfoStyle::CurrentFh => Seq::<u8>::empty(),
            SecInfoStyle::Parent => Seq::<u8>::empty(),
        }
    }

    /// The value with the discriminant `tag` whose payload is at the front of `s`.
    #[verifier::opaque]
    pub open spec fn parse_payload(
        tag: u32,
        s: Seq<u8>,
    ) -> Result<(SecInfoStyle, Seq<u8>), XdrError> {
        if tag == 0 {
            Ok((SecInfoStyle::CurrentFh, s))
        } else if tag == 1 {
            Ok((SecInfoStyle::Parent, s))
        } else {
            Err(XdrError::BadDiscriminant("SecInfoStyle", tag))
        }
    }

    pub proof fn lemma_payload_round_trip(m: SecInfoStyle, rest: Seq<u8>)
        requires
            <SecInfoStyle as Xdr>::wf(m),
        ensures
            Self::parse_payload(Self::tag(m), Self::wire_payload(m) + rest)
                == Ok::<(SecInfoStyle, Seq<u8>), XdrError>((m, rest)),
    {
        reveal(SecInfoStyle::wire_payload);
        reveal(SecInfoStyle::parse_payload);
        match m {
            SecInfoStyle::CurrentFh => {
                assert(Seq::<u8>::empty() + rest =~= rest);
            },
            SecInfoStyle::Parent => {
                assert(Seq::<u8>::empty() + rest =~= rest);
            },
        }
    }

    /// The encoding of a value begins with its discriminant, big-endian.
    pub proof fn lemma_wire_leads_with_tag(m: SecInfoStyle)
        ensures
            <SecInfoStyle as Xdr>::wire(m).len() >= 4,
            <SecInfoStyle as Xdr>::wire(m).take(4) == wire_u32(Self::tag(m)),
    {
        reveal(<SecInfoStyle as Xdr>::wire);
        reveal(wire_u32);
        assert((wire_u32(Self::tag(m)) + Self::wire_payload(m)).take(4) =~= wire_u32(Self::tag(m)));
    }

    /// The discriminant of a value.
    pub fn tag_of(&self) -> (t: u32)
        ensures
            t == Self::tag(self.model()),
    {
        match self {
            SecInfoStyle::CurrentFh => 0,
            SecInfoStyle::Parent => 1,
        }
    }

    /// Appends what follows the discriminant in the encoding of `self`.
    pub fn encode_payload(&self, out: &mut Vec<u8>) -> (r: Result<(), EncodeError>)
        ensures
            r is Ok <==> <SecInfoStyle as Xdr>::wf(self.model()),
            r is Ok ==> final(out)@ == old(out)@ + Self::wire_payload(self.model()),
    {
        proof {
            reveal(SecInfoStyle::wire_payload);
        }
        match self {
            SecInfoStyle::CurrentFh => {
                assert(out@ =~= old(out)@ + Seq::<u8>::empty());
            },
            SecInfoStyle::Parent => {
                assert(out@ =~= old(out)@ + Seq::<u8>::empty());
            },
        }
        Ok(())
    }

    /// Decodes the payload of the value with the discriminant `tag`.
    pub fn decode_payload<'a>(
        tag: u32,
        input: &'a [u8],
    ) -> (r: Result<(SecInfoStyle, &'a [u8]), XdrError>)
        ensures
            match r {
                Ok((v, rest)) => {
                    Self::parse_payload(tag, input@)
                        == Ok::<(SecInfoStyle, Seq<u8>), XdrError>((v.model(), rest@))
                },
                Err(e) => {
                    Self::parse_payload(tag, input@) == Err::<(SecInfoStyle, Seq<u8>), XdrError>(e)
                },
            },
    {
        proof {
            reveal(SecInfoStyle::parse_payload);
        }
        if tag == 0 {
            Ok((SecInfoStyle::CurrentFh, input))
        } else if tag == 1 {
            Ok((SecInfoStyle::Parent, input))
        } else {
            Err(XdrError::BadDiscriminant("SecInfoStyle", tag))
        }
    }
}

impl Xdr for SecInfoStyle {
    type Model = SecInfoStyle;

    open spec fn model(&self) -> SecInfoStyle {
        *self
    }

    open spec fn wf(m: SecInfoStyle) -> bool {
        true
    }

    #[verifier::opaque]
    open spec fn wire(m: SecInfoStyle) -> Seq<u8> {
        wire_u32(Self::tag(m)) + Self::wire_payload(m)
    }

    #[verifier::opaque]
    open spec fn parse(s: Seq<u8>) -> Result<(SecInfoStyle, Seq<u8>), XdrError> {
        match parse_u32(s) {
            Ok((tag, r)) => Self::parse_payload(tag, r),
            Err(e) => Err(e),
        }
    }

    proof fn lemma_round_trip(m: SecInfoStyle, rest: Seq<u8>) {
        reveal(<SecInfoStyle as Xdr>::wire);
        reveal(<SecInfoStyle as Xdr>::parse);
        lemma_concat_assoc(wire_u32(Self::tag(m)), Self::wire_payload(m), rest);
        lemma_u32_round_trip(Self::tag(m), Self::wire_payload(m) + rest);
        Self::lemma_payload_round_trip(m, rest);
    }

    fn encode(&self, out: &mut Vec<u8>) -> (r: Result<(), EncodeError>) {
        proof {
            reveal(<SecInfoStyle as Xdr>::wire);
        }
        let tag = self.tag_of();
        let _ = tag.encode(out);
        self.encode_payload(out)?;
        proof {
            lemma_concat_assoc(old(out)@, wire_u32(tag), Self::wire_payload(self.model()));
        }
        Ok(())
    }

    fn decode<'a>(input: &'a [u8]) -> (r: Result<(SecInfoStyle, &'a [u8]), XdrError>) {
        proof {
            reveal(<SecInfoStyle as Xdr>::parse);
        }
        let (tag, cur) = u32::decode(input)?;
        Self::decode_payload(tag, cur)
    }
}

#[derive(Clone, Debug, PartialEq, Eq)]
pub struct SecInfoNoNameArgs {
    pub style: SecInfoStyle,
}

impl Xdr for SecInfoNoNameArgs {
    type Model = SecInfoNoNameArgs;

    open spec fn model(&self) -> SecInfoNoNameArgs {
        *self
    }

    #[verifier::opaque]
    open spec fn wf(m: SecInfoNoNameArgs) -> bool {
        &&& SecInfoStyle::wf(m.style)
    }

    #[verifier::opaque]
    open spec fn wire(m: SecInfoNoNameArgs) -> Seq<u8> {
        SecInfoStyle::wire(m.style)
    }

    #[verifier::opaque]
    open spec fn parse(s: Seq<u8>) -> Result<(SecInfoNoNameArgs, Seq<u8>), XdrError> {
        match SecInfoStyle::parse(s) {
            Err(e) => Err(e),
            Ok((style, s1)) => Ok((SecInfoNoNameArgs { style }, s1)),
        }
    }

    proof fn lemma_round_trip(m: SecInfoNoNameArgs, rest: Seq<u8>) {
        reveal(<SecInfoNoNameArgs as Xdr>::wf);
        reveal(<SecInfoNoNameArgs as Xdr>::wire);
        reveal(<SecInfoNoNameArgs as Xdr>::parse);
        SecInfoStyle::lemma_round_trip(m.style, rest);
    }

    fn encode(&self, out: &mut Vec<u8>) -> (r: Result<(), EncodeError>) {
        proof {
            reveal(<SecInfoNoNameArgs as Xdr>::wf);
            reveal(<SecInfoNoNameArgs as Xdr>::wire);
        }
        self.style.encode(out)?;
        Ok(())
    }

    fn decode<'a>(input: &'a [u8]) -> (r: Result<(SecInfoNoNameArgs, &'a [u8]), XdrError>) {
        proof {
            reveal(<SecInfoNoNameArgs as Xdr>::parse);
        }
        let (style, cur) = SecInfoStyle::decode(input)?;
        Ok((SecInfoNoNameArgs { style }, cur))
    }
}

/// The arguments of `Sequence`, which leads every COMPOUND of a session.
#[derive(Clone, Debug, PartialEq, Eq)]
pub struct SequenceArgs {
    pub session_id: SessionId,
    pub sequence_id: SequenceId,
    pub slot_id: SlotId,
    pub highest_slot_id: SlotId,
    pub cache_this: bool,
}

/// What a [`SequenceArgs`] stands for.
pub struct SequenceArgsModel {
    pub session_id: SessionIdModel,
    pub sequence_id: SequenceId,
    pub slot_id: SlotId,
    pub highest_slot_id: SlotId,
    pub cache_this: bool,
}

impl Xdr for SequenceArgs {
    type Model = SequenceArgsModel;

    #[verifier::opaque]
    open spec fn model(&self) -> SequenceArgsModel {
        SequenceArgsModel {
            session_id: self.session_id.model(),
            sequence_id: self.sequence_id.model(),
            slot_id: self.slot_id.model(),
            highest_slot_id: self.highest_slot_id.model(),
            cache_this: self.cache_this.model(),
        }
    }

    #[verifier::opaque]
    open spec fn wf(m: SequenceArgsModel) -> bool {
        &&& SessionId::wf(m.session_id)
        &&& SequenceId::wf(m.sequence_id)
        &&& SlotId::wf(m.slot_id)
        &&& SlotId::wf(m.highest_slot_id)
    }

    #[verifier::opaque]
    open spec fn wire(m: SequenceArgsModel) -> Seq<u8> {
        SessionId::wire(m.session_id)
            + SequenceId::wire(m.sequence_id)
            + SlotId::wire(m.slot_id)
            + SlotId::wire(m.highest_slot_id)
            + bool::wire(m.cache_this)
    }

    #[verifier::opaque]
    open spec fn parse(s: Seq<u8>) -> Result<(SequenceArgsModel, Seq<u8>), XdrError> {
        match SessionId::parse(s) {
            Err(e) => Err(e),
            Ok((session_id, s1)) => match SequenceId::parse(s1) {
                Err(e) => Err(e),
                Ok((sequence_id, s2)) => match SlotId::parse(s2) {
                    Err(e) => Err(e),
                    Ok((slot_id, s3)) => match SlotId::parse(s3) {
                        Err(e) => Err(e),
                        Ok((highest_slot_id, s4)) => match bool::parse(s4) {
                            Err(e) => Err(e),
                            Ok((cache_this, s5)) => {
                                Ok(
                                    (
                                        SequenceArgsModel {
                                            session_id,
                                            sequence_id,
                                            slot_id,
                                            highest_slot_id,
                                            cache_this,
                                        },
                                        s5,
                                    ),
                                )
                            },
                        },
                    },
                },
            },
        }
    }

    proof fn lemma_round_trip(m: SequenceArgsModel, rest: Seq<u8>) {
        reveal(<SequenceArgs as Xdr>::wf);
        reveal(<SequenceArgs as Xdr>::wire);
        reveal(<SequenceArgs as Xdr>::parse);
        let w1 = SessionId::wire(m.session_id);
        let w2 = SequenceId::wire(m.sequence_id);
        let w3 = SlotId::wire(m.slot_id);
        let w4 = SlotId::wire(m.highest_slot_id);
        let w5 = bool::wire(m.cache_this);
        let r5 = rest;
        let r4 = w5 + r5;
        let r3 = w4 + r4;
        let r2 = w3 + r3;
        let r1 = w2 + r2;
        lemma_concat_assoc(w1 + w2 + w3 + w4, w5, r5);
        lemma_concat_assoc(w1 + w2 + w3, w4, r4);
        lemma_concat_assoc(w1 + w2, w3, r3);
        lemma_concat_assoc(w1, w2, r2);
        SessionId::lemma_round_trip(m.session_id, r1);
        SequenceId::lemma_round_trip(m.sequence_id, r2);
        SlotId::lemma_round_trip(m.slot_id, r3);
        SlotId::lemma_round_trip(m.highest_slot_id, r4);
        bool::lemma_round_trip(m.cache_this, r5);
    }

    fn encode(&self, out: &mut Vec<u8>) -> (r: Result<(), EncodeError>) {
        proof {
            reveal(<SequenceArgs as Xdr>::model);
            reveal(<SequenceArgs as Xdr>::wf);
            reveal(<SequenceArgs as Xdr>::wire);
        }
        let ghost m = self.model();
        let ghost w1 = SessionId::wire(m.session_id);
        let ghost w2 = SequenceId::wire(m.sequence_id);
        let ghost w3 = SlotId::wire(m.slot_id);
        let ghost w4 = SlotId::wire(m.highest_slot_id);
        let ghost w5 = bool::wire(m.cache_this);
        self.session_id.encode(out)?;
        self.sequence_id.encode(out)?;
        proof {
            lemma_concat_assoc(old(out)@, w1, w2);
        }
        self.slot_id.encode(out)?;
        proof {
            lemma_concat_assoc(old(out)@, w1 + w2, w3);
        }
        self.highest_slot_id.encode(out)?;
        proof {
            lemma_concat_assoc(old(out)@, w1 + w2 + w3, w4);
        }
        let _ = self.cache_this.encode(out);
        proof {
            lemma_concat_assoc(old(out)@, w1 + w2 + w3 + w4, w5);
        }
        Ok(())
    }

    fn decode<'a>(input: &'a [u8]) -> (r: Result<(SequenceArgs, &'a [u8]), XdrError>) {
        proof {
            reveal(<SequenceArgs as Xdr>::model);
            reveal(<SequenceArgs as Xdr>::parse);
        }
        let (session_id, cur) = SessionId::decode(input)?;
        let (sequence_id, cur) = SequenceId::decode(cur)?;
        let (slot_id, cur) = SlotId::decode(cur)?;
        let (highest_slot_id, cur) = SlotId::decode(cur)?;
        let (cache_this, cur) = bool::decode(cur)?;
        Ok((SequenceArgs { session_id, sequence_id, slot_id, highest_slot_id, cache_this }, cur))
    }
}

#[derive(Clone, Debug, PartialEq, Eq)]
pub struct SetSsvArgs {
    pub ssv: Vec<u8>,
    pub digest: Vec<u8>,
}

/// What a [`SetSsvArgs`] stands for.
pub struct SetSsvArgsModel {
    pub ssv: Seq<u8>,
    pub digest: Seq<u8>,
}

impl Xdr for SetSsvArgs {
    type Model = SetSsvArgsModel;

    #[verifier::opaque]
    open spec fn model(&self) -> SetSsvArgsModel {
        SetSsvArgsModel { ssv: self.ssv@, digest: self.digest@ }
    }

    #[verifier::opaque]
    open spec fn wf(m: SetSsvArgsModel) -> bool {
        &&& wf_opaque(m.ssv)
        &&& wf_opaque(m.digest)
    }

    #[verifier::opaque]
    open spec fn wire(m: SetSsvArgsModel) -> Seq<u8> {
        wire_opaque(m.ssv) + wire_opaque(m.digest)
    }

    #[verifier::opaque]
    open spec fn parse(s: Seq<u8>) -> Result<(SetSsvArgsModel, Seq<u8>), XdrError> {
        match parse_opaque(s) {
            Err(e) => Err(e),
            Ok((ssv, s1)) => match parse_opaque(s1) {
                Err(e) => Err(e),
                Ok((digest, s2)) => Ok((SetSsvArgsModel { ssv, digest }, s2)),
            },
        }
    }

    proof fn lemma_round_trip(m: SetSsvArgsModel, rest: Seq<u8>) {
        reveal(<SetSsvArgs as Xdr>::wf);
        reveal(<SetSsvArgs as Xdr>::wire);
        reveal(<SetSsvArgs as Xdr>::parse);
        let w1 = wire_opaque(m.ssv);
        let w2 = wire_opaque(m.digest);
        let r2 = rest;
        let r1 = w2 + r2;
        lemma_concat_assoc(w1, w2, r2);
        lemma_opaque_round_trip(m.ssv, r1);
        lemma_opaque_round_trip(m.digest, r2);
    }

    fn encode(&self, out: &mut Vec<u8>) -> (r: Result<(), EncodeError>) {
        proof {
            reveal(<SetSsvArgs as Xdr>::model);
            reveal(<SetSsvArgs as Xdr>::wf);
            reveal(<SetSsvArgs as Xdr>::wire);
        }
        let ghost m = self.model();
        let ghost w1 = wire_opaque(m.ssv);
        let ghost w2 = wire_opaque(m.digest);
        encode_opaque(self.ssv.as_slice(), out)?;
        encode_opaque(self.digest.as_slice(), out)?;
        proof {
            lemma_concat_assoc(old(out)@, w1, w2);
        }
        Ok(())
    }

    fn decode<'a>(input: &'a [u8]) -> (r: Result<(SetSsvArgs, &'a [u8]), XdrError>) {
        proof {
            reveal(<SetSsvArgs as Xdr>::model);
            reveal(<SetSsvArgs as Xdr>::parse);
        }
        let (ssv, cur) = decode_opaque(input)?;
        let ssv = copy_bytes(ssv);
        let (digest, cur) = decode_opaque(cur)?;
        let digest = copy_bytes(digest);
        Ok((SetSsvArgs { ssv, digest }, cur))
    }
}

#[derive(Clone, Debug, PartialEq, Eq)]
pub struct TestStateIdArgs {
    pub state_ids: Vec<StateId>,
}

/// What a [`TestStateIdArgs`] stands for.
pub struct TestStateIdArgsModel {
    pub state_ids: Seq<StateIdModel>,
}

impl Xdr for TestStateIdArgs {
    type Model = TestStateIdArgsModel;

    #[verifier::opaque]
    open spec fn model(&self) -> TestStateIdArgsModel {
        TestStateIdArgsModel { state_ids: self.state_ids.model() }
    }

    #[verifier::opaque]
    open spec fn wf(m: TestStateIdArgsModel) -> bool {
        &&& Vec::<StateId>::wf(m.state_ids)
    }

    #[verifier::opaque]
    open spec fn wire(m: TestStateIdArgsModel) -> Seq<u8> {
        Vec::<StateId>::wire(m.state_ids)
    }

    #[verifier::opaque]
    open spec fn parse(s: Seq<u8>) -> Result<(TestStateIdArgsModel, Seq<u8>), XdrError> {
        match Vec::<StateId>::parse(s) {
            Err(e) => Err(e),
            Ok((state_ids, s1)) => Ok((TestStateIdArgsModel { state_ids }, s1)),
        }
    }

    proof fn lemma_round_trip(m: TestStateIdArgsModel, rest: Seq<u8>) {
        reveal(<TestStateIdArgs as Xdr>::wf);
        reveal(<TestStateIdArgs as Xdr>::wire);
        reveal(<TestStateIdArgs as Xdr>::parse);
        Vec::<StateId>::lemma_round_trip(m.state_ids, rest);
    }

    fn encode(&self, out: &mut Vec<u8>) -> (r: Result<(), EncodeError>) {
        proof {
            reveal(<TestStateIdArgs as Xdr>::model);
            reveal(<TestStateIdArgs as Xdr>::wf);
            reveal(<TestStateIdArgs as Xdr>::wire);
        }
        self.state_ids.encode(out)?;
        Ok(())
    }

    fn decode<'a>(input: &'a [u8]) -> (r: Result<(TestStateIdArgs, &'a [u8]), XdrError>) {
        proof {
            reveal(<TestStateIdArgs as Xdr>::model);
            reveal(<TestStateIdArgs as Xdr>::parse);
        }
        let (state_ids, cur) = Vec::<StateId>::decode(input)?;
        Ok((TestStateIdArgs { state_ids }, cur))
    }
}

#[derive(Clone, Debug, PartialEq, Eq)]
pub enum DelegationClaim {
    Null,
    Previous { delegate_type: OpenDelegationType },
    DelegationCurrent,
    DelegationPrevious,
    Fh,
    DelegationCurrentFh,
    DelefationPreviousFh,
}

impl DelegationClaim {
    /// The discriminant that leads the encoding of a value.
    pub open spec fn tag(m: DelegationClaim) -> u32 {
        match m {
            DelegationClaim::Null => 0,
            DelegationClaim::Previous { .. } => 1,
            DelegationClaim::DelegationCurrent => 2,
            DelegationClaim::DelegationPrevious => 3,
            DelegationClaim::Fh => 4,
            DelegationClaim::DelegationCurrentFh => 5,
            DelegationClaim::DelefationPreviousFh => 6,
        }
    }

    /// What follows the discriminant in the encoding of a value.
    #[verifier::opaque]
    pub open spec fn wire_payload(m: DelegationClaim) -> Seq<u8> {
        match m {
            DelegationClaim::Null => Seq::<u8>::empty(),
            DelegationClaim::Previous { delegate_type } => OpenDelegationType::wire(delegate_type),
            DelegationClaim::DelegationCurrent => Seq::<u8>::empty(),
            DelegationClaim::DelegationPrevious => Seq::<u8>::empty(),
            DelegationClaim::Fh => Seq::<u8>::empty(),
            DelegationClaim::DelegationCurrentFh => Seq::<u8>::empty(),
            DelegationClaim::DelefationPreviousFh => Seq::<u8>::empty(),
        }
    }

    /// The value with the discriminant `tag` whose payload is at the front of `s`.
    #[verifier::opaque]
    pub open spec fn parse_payload(
        tag: u32,
        s: Seq<u8>,
    ) -> Result<(DelegationClaim, Seq<u8>), XdrError> {
        if tag == 0 {
            Ok((DelegationClaim::Null, s))
        } else if tag == 1 {
            match OpenDelegationType::parse(s) {
                Err(e) => Err(e),
                Ok((delegate_type, s1)) => Ok((DelegationClaim::Previous { delegate_type }, s1)),
            }
        } else if tag == 2 {
            Ok((DelegationClaim::DelegationCurrent, s))
        } else if tag == 3 {
            Ok((DelegationClaim::DelegationPrevious, s))
        } else if tag == 4 {
            Ok((DelegationClaim::Fh, s))
        } else if tag == 5 {
            Ok((DelegationClaim::DelegationCurrentFh, s))
        } else if tag == 6 {
            Ok((DelegationClaim::DelefationPreviousFh, s))
        } else {
            Err(XdrError::BadDiscriminant("DelegationClaim", tag))
        }
    }

    pub proof fn lemma_payload_round_trip(m: DelegationClaim, rest: Seq<u8>)
        requires
            <DelegationClaim as Xdr>::wf(m),
        ensures
            Self::parse_payload(Self::tag(m), Self::wire_payload(m) + rest)
                == Ok::<(DelegationClaim, Seq<u8>), XdrError>((m, rest)),
    {
        reveal(<DelegationClaim as Xdr>::wf);
        reveal(DelegationClaim::wire_payload);
        reveal(DelegationClaim::parse_payload);
        match m {
            DelegationClaim::Null => {
                assert(Seq::<u8>::empty() + rest =~= rest);
            },
            DelegationClaim::Previous { delegate_type } => {
                OpenDelegationType::lemma_round_trip(delegate_type, rest);
            },
            DelegationClaim::DelegationCurrent => {
                assert(Seq::<u8>::empty() + rest =~= rest);
            },
            DelegationClaim::DelegationPrevious => {
                assert(Seq::<u8>::empty() + rest =~= rest);
            },
            DelegationClaim::Fh => {
                assert(Seq::<u8>::empty() + rest =~= rest);
            },
            DelegationClaim::DelegationCurrentFh => {
                assert(Seq::<u8>::empty() + rest =~= rest);
            },
            DelegationClaim::DelefationPreviousFh => {
                assert(Seq::<u8>::empty() + rest =~= rest);
            },
        }
    }

    /// The encoding of a value begins with its discriminant, big-endian.
    pub proof fn lemma_wire_leads_with_tag(m: DelegationClaim)
        ensures
            <DelegationClaim as Xdr>::wire(m).len() >= 4,
            <DelegationClaim as Xdr>::wire(m).take(4) == wire_u32(Self::tag(m)),
    {
        reveal(<DelegationClaim as Xdr>::wire);
        reveal(wire_u32);
        assert((wire_u32(Self::tag(m)) + Self::wire_payload(m)).take(4) =~= wire_u32(Self::tag(m)));
    }

    /// The discriminant of a value.
    pub fn tag_of(&self) -> (t: u32)
        ensures
            t == Self::tag(self.model()),
    {
        match self {
            DelegationClaim::Null => 0,
            DelegationClaim::Previous { .. } => 1,
            DelegationClaim::DelegationCurrent => 2,
            DelegationClaim::DelegationPrevious => 3,
            DelegationClaim::Fh => 4,
            DelegationClaim::DelegationCurrentFh => 5,
            DelegationClaim::DelefationPreviousFh => 6,
        }
    }

    /// Appends what follows the discriminant in the encoding of `self`.
    pub fn encode_payload(&self, out: &mut Vec<u8>) -> (r: Result<(), EncodeError>)
        ensures
            r is Ok <==> <DelegationClaim as Xdr>::wf(self.model()),
            r is Ok ==> final(out)@ == old(out)@ + Self::wire_payload(self.model()),
    {
        proof {
            reveal(<DelegationClaim as Xdr>::wf);
            reveal(DelegationClaim::wire_payload);
        }
        match self {
            DelegationClaim::Null => {
                assert(out@ =~= old(out)@ + Seq::<u8>::empty());
            },
            DelegationClaim::Previous { delegate_type } => {
                delegate_type.encode(out)?;
            },
            DelegationClaim::DelegationCurrent => {
                assert(out@ =~= old(out)@ + Seq::<u8>::empty());
            },
            DelegationClaim::DelegationPrevious => {
                assert(out@ =~= old(out)@ + Seq::<u8>::empty());
            },
            DelegationClaim::Fh => {
                assert(out@ =~= old(out)@ + Seq::<u8>::empty());
            },
            DelegationClaim::DelegationCurrentFh => {
                assert(out@ =~= old(out)@ + Seq::<u8>::empty());
            },
            DelegationClaim::DelefationPreviousFh => {
                assert(out@ =~= old(out)@ + Seq::<u8>::empty());
            },
        }
        Ok(())
    }

    /// Decodes the payload of the value with the discriminant `tag`.
    pub fn decode_payload<'a>(
        tag: u32,
        input: &'a [u8],
    ) -> (r: Result<(DelegationClaim, &'a [u8]), XdrError>)
        ensures
            match r {
                Ok((v, rest)) => {
                    Self::parse_payload(tag, input@)
                        == Ok::<(DelegationClaim, Seq<u8>), XdrError>((v.model(), rest@))
                },
                Err(e) => {
                    Self::parse_payload(tag, input@)
                        == Err::<(DelegationClaim, Seq<u8>), XdrError>(e)
                },
            },
    {
        proof {
            reveal(DelegationClaim::parse_payload);
        }
        if tag == 0 {
            Ok((DelegationClaim::Null, input))
        } else if tag == 1 {
            let (delegate_type, cur) = OpenDelegationType::decode(input)?;
            Ok((DelegationClaim::Previous { delegate_type }, cur))
        } else if tag == 2 {
            Ok((DelegationClaim::DelegationCurrent, input))
        } else if tag == 3 {
            Ok((DelegationClaim::DelegationPrevious, input))
        } else if tag == 4 {
            Ok((DelegationClaim::Fh, input))
        } else if tag == 5 {
            Ok((DelegationClaim::DelegationCurrentFh, input))
        } else if tag == 6 {
            Ok((DelegationClaim::DelefationPreviousFh, input))
        } else {
            Err(XdrError::BadDiscriminant("DelegationClaim", tag))
        }
    }
}

impl Xdr for DelegationClaim {
    type Model = DelegationClaim;

    open spec fn model(&self) -> DelegationClaim {
        *self
    }

    #[verifier::opaque]
    open spec fn wf(m: DelegationClaim) -> bool {
        match m {
            DelegationClaim::Null => true,
            DelegationClaim::Previous { delegate_type } => OpenDelegationType::wf(delegate_type),
            DelegationClaim::DelegationCurrent => true,
            DelegationClaim::DelegationPrevious => true,
            DelegationClaim::Fh => true,
            DelegationClaim::DelegationCurrentFh => true,
            DelegationClaim::DelefationPreviousFh => true,
        }
    }

    #[verifier::opaque]
    open spec fn wire(m: DelegationClaim) -> Seq<u8> {
        wire_u32(Self::tag(m)) + Self::wire_payload(m)
    }

    #[verifier::opaque]
    open spec fn parse(s: Seq<u8>) -> Result<(DelegationClaim, Seq<u8>), XdrError> {
        match parse_u32(s) {
            Ok((tag, r)) => Self::parse_payload(tag, r),
            Err(e) => Err(e),
        }
    }

    proof fn lemma_round_trip(m: DelegationClaim, rest: Seq<u8>) {
        reveal(<DelegationClaim as Xdr>::wire);
        reveal(<DelegationClaim as Xdr>::parse);
        lemma_concat_assoc(wire_u32(Self::tag(m)), Self::wire_payload(m), rest);
        lemma_u32_round_trip(Self::tag(m), Self::wire_payload(m) + rest);
        Self::lemma_payload_round_trip(m, rest);
    }

    fn encode(&self, out: &mut Vec<u8>) -> (r: Result<(), EncodeError>) {
        proof {
            reveal(<DelegationClaim as Xdr>::wire);
        }
        let tag = self.tag_of();
        let _ = tag.encode(out);
        self.encode_payload(out)?;
        proof {
            lemma_concat_assoc(old(out)@, wire_u32(tag), Self::wire_payload(self.model()));
        }
        Ok(())
    }

    fn decode<'a>(input: &'a [u8]) -> (r: Result<(DelegationClaim, &'a [u8]), XdrError>) {
        proof {
            reveal(<DelegationClaim as Xdr>::parse);
        }
        let (tag, cur) = u32::decode(input)?;
        Self::decode_payload(tag, cur)
    }
}

#[derive(Clone, Debug, PartialEq, Eq)]
pub struct WantDelegationArgs {
    pub want: ShareAccess,
    pub claim: DelegationClaim,
}

impl Xdr for WantDelegationArgs {
    type Model = WantDelegationArgs;

    open spec fn model(&self) -> WantDelegationArgs {
        *self
    }

    #[verifier::opaque]
    open spec fn wf(m: WantDelegationArgs) -> bool {
        &&& ShareAccess::wf(m.want)
        &&& DelegationClaim::wf(m.claim)
    }

    #[verifier::opaque]
    open spec fn wire(m: WantDelegationArgs) -> Seq<u8> {
        ShareAccess::wire(m.want) + DelegationClaim::wire(m.claim)
    }

    #[verifier::opaque]
    open spec fn parse(s: Seq<u8>) -> Result<(WantDelegationArgs, Seq<u8>), XdrError> {
        match ShareAccess::parse(s) {
            Err(e) => Err(e),
            Ok((want, s1)) => match DelegationClaim::parse(s1) {
                Err(e) => Err(e),
                Ok((claim, s2)) => Ok((WantDelegationArgs { want, claim }, s2)),
            },
        }
    }

    proof fn lemma_round_trip(m: WantDelegationArgs, rest: Seq<u8>) {
        reveal(<WantDelegationArgs as Xdr>::wf);
        reveal(<WantDelegationArgs as Xdr>::wire);
        reveal(<WantDelegationArgs as Xdr>::parse);
        let w1 = ShareAccess::wire(m.want);
        let w2 = DelegationClaim::wire(m.claim);
        let r2 = rest;
        let r1 = w2 + r2;
        lemma_concat_assoc(w1, w2, r2);
        ShareAccess::lemma_round_trip(m.want, r1);
        DelegationClaim::lemma_round_trip(m.claim, r2);
    }

    fn encode(&self, out: &mut Vec<u8>) -> (r: Result<(), EncodeError>) {
        proof {
            reveal(<WantDelegationArgs as Xdr>::wf);
            reveal(<WantDelegationArgs as Xdr>::wire);
        }
        let ghost m = self.model();
        let ghost w1 = ShareAccess::wire(m.want);
        let ghost w2 = DelegationClaim::wire(m.claim);
        self.want.encode(out)?;
        self.claim.encode(out)?;
        proof {
            lemma_concat_assoc(old(out)@, w1, w2);
        }
        Ok(())
    }

    fn decode<'a>(input: &'a [u8]) -> (r: Result<(WantDelegationArgs, &'a [u8]), XdrError>) {
        proof {
            reveal(<WantDelegationArgs as Xdr>::parse);
        }
        let (want, cur) = ShareAccess::decode(input)?;
        let (claim, cur) = DelegationClaim::decode(cur)?;
        Ok((WantDelegationArgs { want, claim }, cur))
    }
}

#[derive(Clone, Debug, PartialEq, Eq)]
pub struct DestroyClientIdArgs {
    pub client_id: ClientId,
}

impl Xdr for DestroyClientIdArgs {
    type Model = DestroyClientIdArgs;

    open spec fn model(&self) -> DestroyClientIdArgs {
        *self
    }

    #[verifier::opaque]
    open spec fn wf(m: DestroyClientIdArgs) -> bool {
        &&& ClientId::wf(m.client_id)
    }

    #[verifier::opaque]
    open spec fn wire(m: DestroyClientIdArgs) -> Seq<u8> {
        ClientId::wire(m.client_id)
    }

    #[verifier::opaque]
    open spec fn parse(s: Seq<u8>) -> Result<(DestroyClientIdArgs, Seq<u8>), XdrError> {
        match ClientId::parse(s) {
            Err(e) => Err(e),
            Ok((client_id, s1)) => Ok((DestroyClientIdArgs { client_id }, s1)),
        }
    }

    proof fn lemma_round_trip(m: DestroyClientIdArgs, rest: Seq<u8>) {
        reveal(<DestroyClientIdArgs as Xdr>::wf);
        reveal(<DestroyClientIdArgs as Xdr>::wire);
        reveal(<DestroyClientIdArgs as Xdr>::parse);
        ClientId::lemma_round_trip(m.client_id, rest);
    }

    fn encode(&self, out: &mut Vec<u8>) -> (r: Result<(), EncodeError>) {
        proof {
            reveal(<DestroyClientIdArgs as Xdr>::wf);
            reveal(<DestroyClientIdArgs as Xdr>::wire);
        }
        self.client_id.encode(out)?;
        Ok(())
    }

    fn decode<'a>(input: &'a [u8]) -> (r: Result<(DestroyClientIdArgs, &'a [u8]), XdrError>) {
        proof {
            reveal(<DestroyClientIdArgs as Xdr>::parse);
        }
        let (client_id, cur) = ClientId::decode(input)?;
        Ok((DestroyClientIdArgs { client_id }, cur))
    }
}

#[derive(Clone, Debug, PartialEq, Eq)]
pub struct ReclaimCompleteArgs {
    pub one_fs: bool,
}

impl Xdr for ReclaimCompleteArgs {
    type Model = ReclaimCompleteArgs;

    open spec fn model(&self) -> ReclaimCompleteArgs {
        *self
    }

    open spec fn wf(m: ReclaimCompleteArgs) -> bool {
        true
    }

    #[verifier::opaque]
    open spec fn wire(m: ReclaimCompleteArgs) -> Seq<u8> {
        bool::wire(m.one_fs)
    }

    #[verifier::opaque]
    open spec fn parse(s: Seq<u8>) -> Result<(ReclaimCompleteArgs, Seq<u8>), XdrError> {
        match bool::parse(s) {
            Err(e) => Err(e),
            Ok((one_fs, s1)) => Ok((ReclaimCompleteArgs { one_fs }, s1)),
        }
    }

    proof fn lemma_round_trip(m: ReclaimCompleteArgs, rest: Seq<u8>) {
        reveal(<ReclaimCompleteArgs as Xdr>::wire);
        reveal(<ReclaimCompleteArgs as Xdr>::parse);
        bool::lemma_round_trip(m.one_fs, rest);
    }

    fn encode(&self, out: &mut Vec<u8>) -> (r: Result<(), EncodeError>) {
        proof {
            reveal(<ReclaimCompleteArgs as Xdr>::wire);
        }
        let _ = self.one_fs.encode(out);
        Ok(())
    }

    fn decode<'a>(input: &'a [u8]) -> (r: Result<(ReclaimCompleteArgs, &'a [u8]), XdrError>) {
        proof {
            reveal(<ReclaimCompleteArgs as Xdr>::parse);
        }
        let (one_fs, cur) = bool::decode(input)?;
        Ok((ReclaimCompleteArgs { one_fs }, cur))
    }
}

impl Tagged for CreateType {
    open spec fn discriminant(m: CreateTypeModel) -> u32 {
        Self::tag(m)
    }

    proof fn lemma_leads_with_discriminant(m: CreateTypeModel) {
        Self::lemma_wire_leads_with_tag(m);
    }
}

impl Tagged for Locker {
    open spec fn discriminant(m: LockerModel) -> u32 {
        Self::tag(m)
    }

    proof fn lemma_leads_with_discriminant(m: LockerModel) {
        Self::lemma_wire_leads_with_tag(m);
    }
}

impl Tagged for OpenFlag {
    open spec fn discriminant(m: OpenFlagModel) -> u32 {
        Self::tag(m)
    }

    proof fn lemma_leads_with_discriminant(m: OpenFlagModel) {
        Self::lemma_wire_leads_with_tag(m);
    }
}

impl Tagged for CreateHow {
    open spec fn discriminant(m: CreateHowModel) -> u32 {
        Self::tag(m)
    }

    proof fn lemma_leads_with_discriminant(m: CreateHowModel) {
        Self::lemma_wire_leads_with_tag(m);
    }
}

impl Tagged for OpenClaim {
    open spec fn discriminant(m: OpenClaimModel) -> u32 {
        Self::tag(m)
    }

    proof fn lemma_leads_with_discriminant(m: OpenClaimModel) {
        Self::lemma_wire_leads_with_tag(m);
    }
}

impl Tagged for CallbackSecurityParameters {
    open spec fn discriminant(m: CallbackSecurityParametersModel) -> u32 {
        Self::tag(m)
    }

    proof fn lemma_leads_with_discriminant(m: CallbackSecurityParametersModel) {
        Self::lemma_wire_leads_with_tag(m);
    }
}

impl Tagged for StateProtect {
    open spec fn discriminant(m: StateProtectModel) -> u32 {
        Self::tag(m)
    }

    proof fn lemma_leads_with_discriminant(m: StateProtectModel) {
        Self::lemma_wire_leads_with_tag(m);
    }
}

impl Tagged for NotifyType {
    open spec fn discriminant(m: NotifyType) -> u32 {
        Self::tag(m)
    }

    proof fn lemma_leads_with_discriminant(m: NotifyType) {
        Self::lemma_wire_leads_with_tag(m);
    }
}

impl Tagged for LayoutReturnType {
    open spec fn discriminant(m: LayoutReturnType) -> u32 {
        Self::tag(m)
    }

    proof fn lemma_leads_with_discriminant(m: LayoutReturnType) {
        Self::lemma_wire_leads_with_tag(m);
    }
}

impl Tagged for LayoutReturn {
    open spec fn discriminant(m: LayoutReturnModel) -> u32 {
        Self::tag(m)
    }

    proof fn lemma_leads_with_discriminant(m: LayoutReturnModel) {
        Self::lemma_wire_leads_with_tag(m);
    }
}

impl Tagged for SecInfoStyle {
    open spec fn discriminant(m: SecInfoStyle) -> u32 {
        Self::tag(m)
    }

    proof fn lemma_leads_with_discriminant(m: SecInfoStyle) {
        Self::lemma_wire_leads_with_tag(m);
    }
}

impl Tagged for DelegationClaim {
    open spec fn discriminant(m: DelegationClaim) -> u32 {
        Self::tag(m)
    }

    proof fn lemma_leads_with_discriminant(m: DelegationClaim) {
        Self::lemma_wire_leads_with_tag(m);
    }
}

} // verus!
