//! The results of the operations of a COMPOUND request.

use crate::args::{StateProtect, StateProtectModel};
use crate::attr::{Ace, AceModel, FileAttributeId, FileAttributeModel, FileAttributes};
use crate::basic::{
    Change, ChangeInfo, ChannelAttrs, ChannelAttrsModel, ChannelDirectionFromServer, ClientId,
    Cookie, DeviceId, DeviceIdModel, FileHandle, FileHandleModel, ImplId, ImplIdModel, LayoutIoMode,
    LayoutType, Qop, RpcGssService, SecOid, SecOidModel, SequenceId, SessionId, SessionIdModel,
    SlotId, StableHow, StateId, StateIdModel, Verifier,
};
use crate::enum_map::{EnumId, EnumSet};
use crate::flags::{Access, CreateSessionFlags, ExchangeIdFlags, OpenResult, SequenceStatusFlags};
use crate::status::{StatusResult};
use crate::xdr::{
    copy_bytes, decode_list, decode_opaque, encode_list, encode_opaque, lemma_concat_assoc,
    lemma_list_round_trip, lemma_opaque_round_trip, lemma_u32_round_trip, models, parse_list,
    parse_opaque, parse_u32, wf_each, wf_opaque, wire_list, wire_opaque, wire_u32, EncodeError, Xdr,
    XdrError,
};
use crate::xdr::Tagged;
use vstd::prelude::*;

verus! {

/// An entry of a directory: where the listing goes on after it, its name, and
/// its attributes.
#[derive(Clone, Debug, PartialEq, Eq)]
pub struct DirectoryEntry {
    pub cookie: Cookie,
    pub name: String,
    pub attrs: FileAttributes,
}

/// What a [`DirectoryEntry`] stands for.
pub struct DirectoryEntryModel {
    pub cookie: Cookie,
    pub name: Seq<char>,
    pub attrs: Seq<FileAttributeModel>,
}

impl Xdr for DirectoryEntry {
    type Model = DirectoryEntryModel;

    #[verifier::opaque]
    open spec fn model(&self) -> DirectoryEntryModel {
        DirectoryEntryModel {
            cookie: self.cookie.model(),
            name: self.name.model(),
            attrs: self.attrs.model(),
        }
    }

    #[verifier::opaque]
    open spec fn wf(m: DirectoryEntryModel) -> bool {
        &&& Cookie::wf(m.cookie)
        &&& String::wf(m.name)
        &&& FileAttributes::wf(m.attrs)
    }

    #[verifier::opaque]
    open spec fn wire(m: DirectoryEntryModel) -> Seq<u8> {
        Cookie::wire(m.cookie) + String::wire(m.name) + FileAttributes::wire(m.attrs)
    }

    #[verifier::opaque]
    open spec fn parse(s: Seq<u8>) -> Result<(DirectoryEntryModel, Seq<u8>), XdrError> {
        match Cookie::parse(s) {
            Err(e) => Err(e),
            Ok((cookie, s1)) => match String::parse(s1) {
                Err(e) => Err(e),
                Ok((name, s2)) => match FileAttributes::parse(s2) {
                    Err(e) => Err(e),
                    Ok((attrs, s3)) => Ok((DirectoryEntryModel { cookie, name, attrs }, s3)),
                },
            },
        }
    }

    proof fn lemma_round_trip(m: DirectoryEntryModel, rest: Seq<u8>) {
        reveal(<DirectoryEntry as Xdr>::wf);
        reveal(<DirectoryEntry as Xdr>::wire);
        reveal(<DirectoryEntry as Xdr>::parse);
        let w1 = Cookie::wire(m.cookie);
        let w2 = String::wire(m.name);
        let w3 = FileAttributes::wire(m.attrs);
        let r3 = rest;
        let r2 = w3 + r3;
        let r1 = w2 + r2;
        lemma_concat_assoc(w1 + w2, w3, r3);
        lemma_concat_assoc(w1, w2, r2);
        Cookie::lemma_round_trip(m.cookie, r1);
        String::lemma_round_trip(m.name, r2);
        FileAttributes::lemma_round_trip(m.attrs, r3);
    }

    fn encode(&self, out: &mut Vec<u8>) -> (r: Result<(), EncodeError>) {
        proof {
            reveal(<DirectoryEntry as Xdr>::model);
            reveal(<DirectoryEntry as Xdr>::wf);
            reveal(<DirectoryEntry as Xdr>::wire);
        }
        let ghost m = self.model();
        let ghost w1 = Cookie::wire(m.cookie);
        let ghost w2 = String::wire(m.name);
        let ghost w3 = FileAttributes::wire(m.attrs);
        self.cookie.encode(out)?;
        self.name.encode(out)?;
        proof {
            lemma_concat_assoc(old(out)@, w1, w2);
        }
        self.attrs.encode(out)?;
        proof {
            lemma_concat_assoc(old(out)@, w1 + w2, w3);
        }
        Ok(())
    }

    fn decode<'a>(input: &'a [u8]) -> (r: Result<(DirectoryEntry, &'a [u8]), XdrError>) {
        proof {
            reveal(<DirectoryEntry as Xdr>::model);
            reveal(<DirectoryEntry as Xdr>::parse);
        }
        let (cookie, cur) = Cookie::decode(input)?;
        let (name, cur) = String::decode(cur)?;
        let (attrs, cur) = FileAttributes::decode(cur)?;
        Ok((DirectoryEntry { cookie, name, attrs }, cur))
    }
}

/// A part of a directory listing, and whether it is the last part.
#[derive(Clone, Debug, PartialEq, Eq)]
pub struct DirectoryList {
    pub entries: Vec<DirectoryEntry>,
    pub eof: bool,
}

/// What a [`DirectoryList`] stands for.
pub struct DirectoryListModel {
    pub entries: Seq<DirectoryEntryModel>,
    pub eof: bool,
}

impl Xdr for DirectoryList {
    type Model = DirectoryListModel;

    #[verifier::opaque]
    open spec fn model(&self) -> DirectoryListModel {
        DirectoryListModel { entries: models(self.entries@), eof: self.eof.model() }
    }

    #[verifier::opaque]
    open spec fn wf(m: DirectoryListModel) -> bool {
        &&& wf_each::<DirectoryEntry>(m.entries)
    }

    #[verifier::opaque]
    open spec fn wire(m: DirectoryListModel) -> Seq<u8> {
        wire_list::<DirectoryEntry>(m.entries) + bool::wire(m.eof)
    }

    #[verifier::opaque]
    open spec fn parse(s: Seq<u8>) -> Result<(DirectoryListModel, Seq<u8>), XdrError> {
        match parse_list::<DirectoryEntry>(s) {
            Err(e) => Err(e),
            Ok((entries, s1)) => match bool::parse(s1) {
                Err(e) => Err(e),
                Ok((eof, s2)) => Ok((DirectoryListModel { entries, eof }, s2)),
            },
        }
    }

    proof fn lemma_round_trip(m: DirectoryListModel, rest: Seq<u8>) {
        reveal(<DirectoryList as Xdr>::wf);
        reveal(<DirectoryList as Xdr>::wire);
        reveal(<DirectoryList as Xdr>::parse);
        let w1 = wire_list::<DirectoryEntry>(m.entries);
        let w2 = bool::wire(m.eof);
        let r2 = rest;
        let r1 = w2 + r2;
        lemma_concat_assoc(w1, w2, r2);
        lemma_list_round_trip::<DirectoryEntry>(m.entries, r1);
        bool::lemma_round_trip(m.eof, r2);
    }

    fn encode(&self, out: &mut Vec<u8>) -> (r: Result<(), EncodeError>) {
        proof {
            reveal(<DirectoryList as Xdr>::model);
            reveal(<DirectoryList as Xdr>::wf);
            reveal(<DirectoryList as Xdr>::wire);
        }
        let ghost m = self.model();
        let ghost w1 = wire_list::<DirectoryEntry>(m.entries);
        let ghost w2 = bool::wire(m.eof);
        encode_list(&self.entries, out)?;
        let _ = self.eof.encode(out);
        proof {
            lemma_concat_assoc(old(out)@, w1, w2);
        }
        Ok(())
    }

    fn decode<'a>(input: &'a [u8]) -> (r: Result<(DirectoryList, &'a [u8]), XdrError>) {
        proof {
            reveal(<DirectoryList as Xdr>::model);
            reveal(<DirectoryList as Xdr>::parse);
        }
        let (entries, cur) = decode_list::<DirectoryEntry>(input)?;
        let (eof, cur) = bool::decode(cur)?;
        Ok((DirectoryList { entries, eof }, cur))
    }
}

#[derive(Clone, Debug, PartialEq, Eq)]
pub struct AccessRes {
    pub supported: Access,
    pub access: Access,
}

impl Xdr for AccessRes {
    type Model = AccessRes;

    open spec fn model(&self) -> AccessRes {
        *self
    }

    #[verifier::opaque]
    open spec fn wf(m: AccessRes) -> bool {
        &&& Access::wf(m.supported)
        &&& Access::wf(m.access)
    }

    #[verifier::opaque]
    open spec fn wire(m: AccessRes) -> Seq<u8> {
        Access::wire(m.supported) + Access::wire(m.access)
    }

    #[verifier::opaque]
    open spec fn parse(s: Seq<u8>) -> Result<(AccessRes, Seq<u8>), XdrError> {
        match Access::parse(s) {
            Err(e) => Err(e),
            Ok((supported, s1)) => match Access::parse(s1) {
                Err(e) => Err(e),
                Ok((access, s2)) => Ok((AccessRes { supported, access }, s2)),
            },
        }
    }

    proof fn lemma_round_trip(m: AccessRes, rest: Seq<u8>) {
        reveal(<AccessRes as Xdr>::wf);
        reveal(<AccessRes as Xdr>::wire);
        reveal(<AccessRes as Xdr>::parse);
        let w1 = Access::wire(m.supported);
        let w2 = Access::wire(m.access);
        let r2 = rest;
        let r1 = w2 + r2;
        lemma_concat_assoc(w1, w2, r2);
        Access::lemma_round_trip(m.supported, r1);
        Access::lemma_round_trip(m.access, r2);
    }

    fn encode(&self, out: &mut Vec<u8>) -> (r: Result<(), EncodeError>) {
        proof {
            reveal(<AccessRes as Xdr>::wf);
            reveal(<AccessRes as Xdr>::wire);
        }
        let ghost m = self.model();
        let ghost w1 = Access::wire(m.supported);
        let ghost w2 = Access::wire(m.access);
        self.supported.encode(out)?;
        self.access.encode(out)?;
        proof {
            lemma_concat_assoc(old(out)@, w1, w2);
        }
        Ok(())
    }

    fn decode<'a>(input: &'a [u8]) -> (r: Result<(AccessRes, &'a [u8]), XdrError>) {
        proof {
            reveal(<AccessRes as Xdr>::parse);
        }
        let (supported, cur) = Access::decode(input)?;
        let (access, cur) = Access::decode(cur)?;
        Ok((AccessRes { supported, access }, cur))
    }
}

#[derive(Clone, Debug, PartialEq, Eq)]
pub struct CloseRes {
    pub open_state_id: StateId,
}

/// What a [`CloseRes`] stands for.
pub struct CloseResModel {
    pub open_state_id: StateIdModel,
}

impl Xdr for CloseRes {
    type Model = CloseResModel;

    #[verifier::opaque]
    open spec fn model(&self) -> CloseResModel {
        CloseResModel { open_state_id: self.open_state_id.model() }
    }

    #[verifier::opaque]
    open spec fn wf(m: CloseResModel) -> bool {
        &&& StateId::wf(m.open_state_id)
    }

    #[verifier::opaque]
    open spec fn wire(m: CloseResModel) -> Seq<u8> {
        StateId::wire(m.open_state_id)
    }

    #[verifier::opaque]
    open spec fn parse(s: Seq<u8>) -> Result<(CloseResModel, Seq<u8>), XdrError> {
        match StateId::parse(s) {
            Err(e) => Err(e),
            Ok((open_state_id, s1)) => Ok((CloseResModel { open_state_id }, s1)),
        }
    }

    proof fn lemma_round_trip(m: CloseResModel, rest: Seq<u8>) {
        reveal(<CloseRes as Xdr>::wf);
        reveal(<CloseRes as Xdr>::wire);
        reveal(<CloseRes as Xdr>::parse);
        StateId::lemma_round_trip(m.open_state_id, rest);
    }

    fn encode(&self, out: &mut Vec<u8>) -> (r: Result<(), EncodeError>) {
        proof {
            reveal(<CloseRes as Xdr>::model);
            reveal(<CloseRes as Xdr>::wf);
            reveal(<CloseRes as Xdr>::wire);
        }
        self.open_state_id.encode(out)?;
        Ok(())
    }

    fn decode<'a>(input: &'a [u8]) -> (r: Result<(CloseRes, &'a [u8]), XdrError>) {
        proof {
            reveal(<CloseRes as Xdr>::model);
            reveal(<CloseRes as Xdr>::parse);
        }
        let (open_state_id, cur) = StateId::decode(input)?;
        Ok((CloseRes { open_state_id }, cur))
    }
}

#[derive(Clone, Debug, PartialEq, Eq)]
pub struct CommitRes {
    pub write_verifier: Verifier,
}

impl Xdr for CommitRes {
    type Model = CommitRes;

    open spec fn model(&self) -> CommitRes {
        *self
    }

    #[verifier::opaque]
    open spec fn wf(m: CommitRes) -> bool {
        &&& Verifier::wf(m.write_verifier)
    }

    #[verifier::opaque]
    open spec fn wire(m: CommitRes) -> Seq<u8> {
        Verifier::wire(m.write_verifier)
    }

    #[verifier::opaque]
    open spec fn parse(s: Seq<u8>) -> Result<(CommitRes, Seq<u8>), XdrError> {
        match Verifier::parse(s) {
            Err(e) => Err(e),
            Ok((write_verifier, s1)) => Ok((CommitRes { write_verifier }, s1)),
        }
    }

    proof fn lemma_round_trip(m: CommitRes, rest: Seq<u8>) {
        reveal(<CommitRes as Xdr>::wf);
        reveal(<CommitRes as Xdr>::wire);
        reveal(<CommitRes as Xdr>::parse);
        Verifier::lemma_round_trip(m.write_verifier, rest);
    }

    fn encode(&self, out: &mut Vec<u8>) -> (r: Result<(), EncodeError>) {
        proof {
            reveal(<CommitRes as Xdr>::wf);
            reveal(<CommitRes as Xdr>::wire);
        }
        self.write_verifier.encode(out)?;
        Ok(())
    }

    fn decode<'a>(input: &'a [u8]) -> (r: Result<(CommitRes, &'a [u8]), XdrError>) {
        proof {
            reveal(<CommitRes as Xdr>::parse);
        }
        let (write_verifier, cur) = Verifier::decode(input)?;
        Ok((CommitRes { write_verifier }, cur))
    }
}

#[derive(Clone, Debug, PartialEq, Eq)]
pub struct CreateRes {
    pub change_info: ChangeInfo,
    pub attribute_set: EnumSet<FileAttributeId>,
}

/// What a [`CreateRes`] stands for.
pub struct CreateResModel {
    pub change_info: ChangeInfo,
    pub attribute_set: Seq<FileAttributeId>,
}

impl Xdr for CreateRes {
    type Model = CreateResModel;

    #[verifier::opaque]
    open spec fn model(&self) -> CreateResModel {
        CreateResModel {
            change_info: self.change_info.model(),
            attribute_set: self.attribute_set.model(),
        }
    }

    #[verifier::opaque]
    open spec fn wf(m: CreateResModel) -> bool {
        &&& ChangeInfo::wf(m.change_info)
        &&& EnumSet::<FileAttributeId>::wf(m.attribute_set)
    }

    #[verifier::opaque]
    open spec fn wire(m: CreateResModel) -> Seq<u8> {
        ChangeInfo::wire(m.change_info) + EnumSet::<FileAttributeId>::wire(m.attribute_set)
    }

    #[verifier::opaque]
    open spec fn parse(s: Seq<u8>) -> Result<(CreateResModel, Seq<u8>), XdrError> {
        match ChangeInfo::parse(s) {
            Err(e) => Err(e),
            Ok((change_info, s1)) => match EnumSet::<FileAttributeId>::parse(s1) {
                Err(e) => Err(e),
                Ok((attribute_set, s2)) => Ok((CreateResModel { change_info, attribute_set }, s2)),
            },
        }
    }

    proof fn lemma_round_trip(m: CreateResModel, rest: Seq<u8>) {
        reveal(<CreateRes as Xdr>::wf);
        reveal(<CreateRes as Xdr>::wire);
        reveal(<CreateRes as Xdr>::parse);
        let w1 = ChangeInfo::wire(m.change_info);
        let w2 = EnumSet::<FileAttributeId>::wire(m.attribute_set);
        let r2 = rest;
        let r1 = w2 + r2;
        lemma_concat_assoc(w1, w2, r2);
        ChangeInfo::lemma_round_trip(m.change_info, r1);
        EnumSet::<FileAttributeId>::lemma_round_trip(m.attribute_set, r2);
    }

    fn encode(&self, out: &mut Vec<u8>) -> (r: Result<(), EncodeError>) {
        proof {
            reveal(<CreateRes as Xdr>::model);
            reveal(<CreateRes as Xdr>::wf);
            reveal(<CreateRes as Xdr>::wire);
        }
        let ghost m = self.model();
        let ghost w1 = ChangeInfo::wire(m.change_info);
        let ghost w2 = EnumSet::<FileAttributeId>::wire(m.attribute_set);
        self.change_info.encode(out)?;
        self.attribute_set.encode(out)?;
        proof {
            lemma_concat_assoc(old(out)@, w1, w2);
        }
        Ok(())
    }

    fn decode<'a>(input: &'a [u8]) -> (r: Result<(CreateRes, &'a [u8]), XdrError>) {
        proof {
            reveal(<CreateRes as Xdr>::model);
            reveal(<CreateRes as Xdr>::parse);
        }
        let (change_info, cur) = ChangeInfo::decode(input)?;
        let (attribute_set, cur) = EnumSet::<FileAttributeId>::decode(cur)?;
        Ok((CreateRes { change_info, attribute_set }, cur))
    }
}

#[derive(Clone, Debug, PartialEq, Eq)]
pub struct GetAttrRes {
    pub object_attributes: FileAttributes,
}

/// What a [`GetAttrRes`] stands for.
pub struct GetAttrResModel {
    pub object_attributes: Seq<FileAttributeModel>,
}

impl Xdr for GetAttrRes {
    type Model = GetAttrResModel;

    #[verifier::opaque]
    open spec fn model(&self) -> GetAttrResModel {
        GetAttrResModel { object_attributes: self.object_attributes.model() }
    }

    #[verifier::opaque]
    open spec fn wf(m: GetAttrResModel) -> bool {
        &&& FileAttributes::wf(m.object_attributes)
    }

    #[verifier::opaque]
    open spec fn wire(m: GetAttrResModel) -> Seq<u8> {
        FileAttributes::wire(m.object_attributes)
    }

    #[verifier::opaque]
    open spec fn parse(s: Seq<u8>) -> Result<(GetAttrResModel, Seq<u8>), XdrError> {
        match FileAttributes::parse(s) {
            Err(e) => Err(e),
            Ok((object_attributes, s1)) => Ok((GetAttrResModel { object_attributes }, s1)),
        }
    }

    proof fn lemma_round_trip(m: GetAttrResModel, rest: Seq<u8>) {
        reveal(<GetAttrRes as Xdr>::wf);
        reveal(<GetAttrRes as Xdr>::wire);
        reveal(<GetAttrRes as Xdr>::parse);
        FileAttributes::lemma_round_trip(m.object_attributes, rest);
    }

    fn encode(&self, out: &mut Vec<u8>) -> (r: Result<(), EncodeError>) {
        proof {
            reveal(<GetAttrRes as Xdr>::model);
            reveal(<GetAttrRes as Xdr>::wf);
            reveal(<GetAttrRes as Xdr>::wire);
        }
        self.object_attributes.encode(out)?;
        Ok(())
    }

    fn decode<'a>(input: &'a [u8]) -> (r: Result<(GetAttrRes, &'a [u8]), XdrError>) {
        proof {
            reveal(<GetAttrRes as Xdr>::model);
            reveal(<GetAttrRes as Xdr>::parse);
        }
        let (object_attributes, cur) = FileAttributes::decode(input)?;
        Ok((GetAttrRes { object_attributes }, cur))
    }
}

#[derive(Clone, Debug, PartialEq, Eq)]
pub struct GetFhRes {
    pub object: FileHandle,
}

/// What a [`GetFhRes`] stands for.
pub struct GetFhResModel {
    pub object: FileHandleModel,
}

impl Xdr for GetFhRes {
    type Model = GetFhResModel;

    #[verifier::opaque]
    open spec fn model(&self) -> GetFhResModel {
        GetFhResModel { object: self.object.model() }
    }

    #[verifier::opaque]
    open spec fn wf(m: GetFhResModel) -> bool {
        &&& FileHandle::wf(m.object)
    }

    #[verifier::opaque]
    open spec fn wire(m: GetFhResModel) -> Seq<u8> {
        FileHandle::wire(m.object)
    }

    #[verifier::opaque]
    open spec fn parse(s: Seq<u8>) -> Result<(GetFhResModel, Seq<u8>), XdrError> {
        match FileHandle::parse(s) {
            Err(e) => Err(e),
            Ok((object, s1)) => Ok((GetFhResModel { object }, s1)),
        }
    }

    proof fn lemma_round_trip(m: GetFhResModel, rest: Seq<u8>) {
        reveal(<GetFhRes as Xdr>::wf);
        reveal(<GetFhRes as Xdr>::wire);
        reveal(<GetFhRes as Xdr>::parse);
        FileHandle::lemma_round_trip(m.object, rest);
    }

    fn encode(&self, out: &mut Vec<u8>) -> (r: Result<(), EncodeError>) {
        proof {
            reveal(<GetFhRes as Xdr>::model);
            reveal(<GetFhRes as Xdr>::wf);
            reveal(<GetFhRes as Xdr>::wire);
        }
        self.object.encode(out)?;
        Ok(())
    }

    fn decode<'a>(input: &'a [u8]) -> (r: Result<(GetFhRes, &'a [u8]), XdrError>) {
        proof {
            reveal(<GetFhRes as Xdr>::model);
            reveal(<GetFhRes as Xdr>::parse);
        }
        let (object, cur) = FileHandle::decode(input)?;
        Ok((GetFhRes { object }, cur))
    }
}

#[derive(Clone, Debug, PartialEq, Eq)]
pub struct LinkRes {
    pub change_info: ChangeInfo,
}

impl Xdr for LinkRes {
    type Model = LinkRes;

    open spec fn model(&self) -> LinkRes {
        *self
    }

    #[verifier::opaque]
    open spec fn wf(m: LinkRes) -> bool {
        &&& ChangeInfo::wf(m.change_info)
    }

    #[verifier::opaque]
    open spec fn wire(m: LinkRes) -> Seq<u8> {
        ChangeInfo::wire(m.change_info)
    }

    #[verifier::opaque]
    open spec fn parse(s: Seq<u8>) -> Result<(LinkRes, Seq<u8>), XdrError> {
        match ChangeInfo::parse(s) {
            Err(e) => Err(e),
            Ok((change_info, s1)) => Ok((LinkRes { change_info }, s1)),
        }
    }

    proof fn lemma_round_trip(m: LinkRes, rest: Seq<u8>) {
        reveal(<LinkRes as Xdr>::wf);
        reveal(<LinkRes as Xdr>::wire);
        reveal(<LinkRes as Xdr>::parse);
        ChangeInfo::lemma_round_trip(m.change_info, rest);
    }

    fn encode(&self, out: &mut Vec<u8>) -> (r: Result<(), EncodeError>) {
        proof {
            reveal(<LinkRes as Xdr>::wf);
            reveal(<LinkRes as Xdr>::wire);
        }
        self.change_info.encode(out)?;
        Ok(())
    }

    fn decode<'a>(input: &'a [u8]) -> (r: Result<(LinkRes, &'a [u8]), XdrError>) {
        proof {
            reveal(<LinkRes as Xdr>::parse);
        }
        let (change_info, cur) = ChangeInfo::decode(input)?;
        Ok((LinkRes { change_info }, cur))
    }
}

#[derive(Clone, Debug, PartialEq, Eq)]
pub struct LockRes {
    pub lock_state_id: StateId,
}

/// What a [`LockRes`] stands for.
pub struct LockResModel {
    pub lock_state_id: StateIdModel,
}

impl Xdr for LockRes {
    type Model = LockResModel;

    #[verifier::opaque]
    open spec fn model(&self) -> LockResModel {
        LockResModel { lock_state_id: self.lock_state_id.model() }
    }

    #[verifier::opaque]
    open spec fn wf(m: LockResModel) -> bool {
        &&& StateId::wf(m.lock_state_id)
    }

    #[verifier::opaque]
    open spec fn wire(m: LockResModel) -> Seq<u8> {
        StateId::wire(m.lock_state_id)
    }

    #[verifier::opaque]
    open spec fn parse(s: Seq<u8>) -> Result<(LockResModel, Seq<u8>), XdrError> {
        match StateId::parse(s) {
            Err(e) => Err(e),
            Ok((lock_state_id, s1)) => Ok((LockResModel { lock_state_id }, s1)),
        }
    }

    proof fn lemma_round_trip(m: LockResModel, rest: Seq<u8>) {
        reveal(<LockRes as Xdr>::wf);
        reveal(<LockRes as Xdr>::wire);
        reveal(<LockRes as Xdr>::parse);
        StateId::lemma_round_trip(m.lock_state_id, rest);
    }

    fn encode(&self, out: &mut Vec<u8>) -> (r: Result<(), EncodeError>) {
        proof {
            reveal(<LockRes as Xdr>::model);
            reveal(<LockRes as Xdr>::wf);
            reveal(<LockRes as Xdr>::wire);
        }
        self.lock_state_id.encode(out)?;
        Ok(())
    }

    fn decode<'a>(input: &'a [u8]) -> (r: Result<(LockRes, &'a [u8]), XdrError>) {
        proof {
            reveal(<LockRes as Xdr>::model);
            reveal(<LockRes as Xdr>::parse);
        }
        let (lock_state_id, cur) = StateId::decode(input)?;
        Ok((LockRes { lock_state_id }, cur))
    }
}

#[derive(Clone, Debug, PartialEq, Eq)]
pub struct LockURes {
    pub lock_state_id: StateId,
}

/// What a [`LockURes`] stands for.
pub struct LockUResModel {
    pub lock_state_id: StateIdModel,
}

impl Xdr for LockURes {
    type Model = LockUResModel;

    #[verifier::opaque]
    open spec fn model(&self) -> LockUResModel {
        LockUResModel { lock_state_id: self.lock_state_id.model() }
    }

    #[verifier::opaque]
    open spec fn wf(m: LockUResModel) -> bool {
        &&& StateId::wf(m.lock_state_id)
    }

    #[verifier::opaque]
    open spec fn wire(m: LockUResModel) -> Seq<u8> {
        StateId::wire(m.lock_state_id)
    }

    #[verifier::opaque]
    open spec fn parse(s: Seq<u8>) -> Result<(LockUResModel, Seq<u8>), XdrError> {
        match StateId::parse(s) {
            Err(e) => Err(e),
            Ok((lock_state_id, s1)) => Ok((LockUResModel { lock_state_id }, s1)),
        }
    }

    proof fn lemma_round_trip(m: LockUResModel, rest: Seq<u8>) {
        reveal(<LockURes as Xdr>::wf);
        reveal(<LockURes as Xdr>::wire);
        reveal(<LockURes as Xdr>::parse);
        StateId::lemma_round_trip(m.lock_state_id, rest);
    }

    fn encode(&self, out: &mut Vec<u8>) -> (r: Result<(), EncodeError>) {
        proof {
            reveal(<LockURes as Xdr>::model);
            reveal(<LockURes as Xdr>::wf);
            reveal(<LockURes as Xdr>::wire);
        }
        self.lock_state_id.encode(out)?;
        Ok(())
    }

    fn decode<'a>(input: &'a [u8]) -> (r: Result<(LockURes, &'a [u8]), XdrError>) {
        proof {
            reveal(<LockURes as Xdr>::model);
            reveal(<LockURes as Xdr>::parse);
        }
        let (lock_state_id, cur) = StateId::decode(input)?;
        Ok((LockURes { lock_state_id }, cur))
    }
}

#[derive(Clone, Debug, PartialEq, Eq)]
pub struct OpenReadDelegation {
    pub state_id: StateId,
    pub recall: bool,
    pub permissions: Ace,
}

/// What a [`OpenReadDelegation`] stands for.
pub struct OpenReadDelegationModel {
    pub state_id: StateIdModel,
    pub recall: bool,
    pub permissions: AceModel,
}

impl Xdr for OpenReadDelegation {
    type Model = OpenReadDelegationModel;

    #[verifier::opaque]
    open spec fn model(&self) -> OpenReadDelegationModel {
        OpenReadDelegationModel {
            state_id: self.state_id.model(),
            recall: self.recall.model(),
            permissions: self.permissions.model(),
        }
    }

    #[verifier::opaque]
    open spec fn wf(m: OpenReadDelegationModel) -> bool {
        &&& StateId::wf(m.state_id)
        &&& Ace::wf(m.permissions)
    }

    #[verifier::opaque]
    open spec fn wire(m: OpenReadDelegationModel) -> Seq<u8> {
        StateId::wire(m.state_id) + bool::wire(m.recall) + Ace::wire(m.permissions)
    }

    #[verifier::opaque]
    open spec fn parse(s: Seq<u8>) -> Result<(OpenReadDelegationModel, Seq<u8>), XdrError> {
        match StateId::parse(s) {
            Err(e) => Err(e),
            Ok((state_id, s1)) => match bool::parse(s1) {
                Err(e) => Err(e),
                Ok((recall, s2)) => match Ace::parse(s2) {
                    Err(e) => Err(e),
                    Ok((permissions, s3)) => {
                        Ok((OpenReadDelegationModel { state_id, recall, permissions }, s3))
                    },
                },
            },
        }
    }

    proof fn lemma_round_trip(m: OpenReadDelegationModel, rest: Seq<u8>) {
        reveal(<OpenReadDelegation as Xdr>::wf);
        reveal(<OpenReadDelegation as Xdr>::wire);
        reveal(<OpenReadDelegation as Xdr>::parse);
        let w1 = StateId::wire(m.state_id);
        let w2 = bool::wire(m.recall);
        let w3 = Ace::wire(m.permissions);
        let r3 = rest;
        let r2 = w3 + r3;
        let r1 = w2 + r2;
        lemma_concat_assoc(w1 + w2, w3, r3);
        lemma_concat_assoc(w1, w2, r2);
        StateId::lemma_round_trip(m.state_id, r1);
        bool::lemma_round_trip(m.recall, r2);
        Ace::lemma_round_trip(m.permissions, r3);
    }

    fn encode(&self, out: &mut Vec<u8>) -> (r: Result<(), EncodeError>) {
        proof {
            reveal(<OpenReadDelegation as Xdr>::model);
            reveal(<OpenReadDelegation as Xdr>::wf);
            reveal(<OpenReadDelegation as Xdr>::wire);
        }
        let ghost m = self.model();
        let ghost w1 = StateId::wire(m.state_id);
        let ghost w2 = bool::wire(m.recall);
        let ghost w3 = Ace::wire(m.permissions);
        self.state_id.encode(out)?;
        let _ = self.recall.encode(out);
        proof {
            lemma_concat_assoc(old(out)@, w1, w2);
        }
        self.permissions.encode(out)?;
        proof {
            lemma_concat_assoc(old(out)@, w1 + w2, w3);
        }
        Ok(())
    }

    fn decode<'a>(input: &'a [u8]) -> (r: Result<(OpenReadDelegation, &'a [u8]), XdrError>) {
        proof {
            reveal(<OpenReadDelegation as Xdr>::model);
            reveal(<OpenReadDelegation as Xdr>::parse);
        }
        let (state_id, cur) = StateId::decode(input)?;
        let (recall, cur) = bool::decode(cur)?;
        let (permissions, cur) = Ace::decode(cur)?;
        Ok((OpenReadDelegation { state_id, recall, permissions }, cur))
    }
}

#[derive(Clone, Copy, Debug, PartialEq, Eq)]
pub struct ModifiedLimit {
    pub num_blocks: u32,
    pub bytes_per_block: u32,
}

impl Xdr for ModifiedLimit {
    type Model = ModifiedLimit;

    open spec fn model(&self) -> ModifiedLimit {
        *self
    }

    open spec fn wf(m: ModifiedLimit) -> bool {
        true
    }

    #[verifier::opaque]
    open spec fn wire(m: ModifiedLimit) -> Seq<u8> {
        u32::wire(m.num_blocks) + u32::wire(m.bytes_per_block)
    }

    #[verifier::opaque]
    open spec fn parse(s: Seq<u8>) -> Result<(ModifiedLimit, Seq<u8>), XdrError> {
        match u32::parse(s) {
            Err(e) => Err(e),
            Ok((num_blocks, s1)) => match u32::parse(s1) {
                Err(e) => Err(e),
                Ok((bytes_per_block, s2)) => {
                    Ok((ModifiedLimit { num_blocks, bytes_per_block }, s2))
                },
            },
        }
    }

    proof fn lemma_round_trip(m: ModifiedLimit, rest: Seq<u8>) {
        reveal(<ModifiedLimit as Xdr>::wire);
        reveal(<ModifiedLimit as Xdr>::parse);
        let w1 = u32::wire(m.num_blocks);
        let w2 = u32::wire(m.bytes_per_block);
        let r2 = rest;
        let r1 = w2 + r2;
        lemma_concat_assoc(w1, w2, r2);
        u32::lemma_round_trip(m.num_blocks, r1);
        u32::lemma_round_trip(m.bytes_per_block, r2);
    }

    fn encode(&self, out: &mut Vec<u8>) -> (r: Result<(), EncodeError>) {
        proof {
            reveal(<ModifiedLimit as Xdr>::wire);
        }
        let ghost m = self.model();
        let ghost w1 = u32::wire(m.num_blocks);
        let ghost w2 = u32::wire(m.bytes_per_block);
        let _ = self.num_blocks.encode(out);
        let _ = self.bytes_per_block.encode(out);
        proof {
            lemma_concat_assoc(old(out)@, w1, w2);
        }
        Ok(())
    }

    fn decode<'a>(input: &'a [u8]) -> (r: Result<(ModifiedLimit, &'a [u8]), XdrError>) {
        proof {
            reveal(<ModifiedLimit as Xdr>::parse);
        }
        let (num_blocks, cur) = u32::decode(input)?;
        let (bytes_per_block, cur) = u32::decode(cur)?;
        Ok((ModifiedLimit { num_blocks, bytes_per_block }, cur))
    }
}

#[derive(Clone, Debug, PartialEq, Eq)]
pub enum SpaceLimit {
    Size { file_size: u64 },
    Blocks { modified_blocks: ModifiedLimit },
}

impl SpaceLimit {
    /// The discriminant that leads the encoding of a value.
    pub open spec fn tag(m: SpaceLimit) -> u32 {
        match m {
            SpaceLimit::Size { .. } => 1,
            SpaceLimit::Blocks { .. } => 2,
        }
    }

    /// What follows the discriminant in the encoding of a value.
    #[verifier::opaque]
    pub open spec fn wire_payload(m: SpaceLimit) -> Seq<u8> {
        match m {
            SpaceLimit::Size { file_size } => u64::wire(file_size),
            SpaceLimit::Blocks { modified_blocks } => ModifiedLimit::wire(modified_blocks),
        }
    }

    /// The value with the discriminant `tag` whose payload is at the front of `s`.
    #[verifier::opaque]
    pub open spec fn parse_payload(
        tag: u32,
        s: Seq<u8>,
    ) -> Result<(SpaceLimit, Seq<u8>), XdrError> {
        if tag == 1 {
            match u64::parse(s) {
                Err(e) => Err(e),
                Ok((file_size, s1)) => Ok((SpaceLimit::Size { file_size }, s1)),
            }
        } else if tag == 2 {
            match ModifiedLimit::parse(s) {
                Err(e) => Err(e),
                Ok((modified_blocks, s1)) => Ok((SpaceLimit::Blocks { modified_blocks }, s1)),
            }
        } else {
            Err(XdrError::BadDiscriminant("SpaceLimit", tag))
        }
    }

    pub proof fn lemma_payload_round_trip(m: SpaceLimit, rest: Seq<u8>)
        requires
            <SpaceLimit as Xdr>::wf(m),
        ensures
            Self::parse_payload(Self::tag(m), Self::wire_payload(m) + rest)
                == Ok::<(SpaceLimit, Seq<u8>), XdrError>((m, rest)),
    {
        reveal(<SpaceLimit as Xdr>::wf);
        reveal(SpaceLimit::wire_payload);
        reveal(SpaceLimit::parse_payload);
        match m {
            SpaceLimit::Size { file_size } => {
                u64::lemma_round_trip(file_size, rest);
            },
            SpaceLimit::Blocks { modified_blocks } => {
                ModifiedLimit::lemma_round_trip(modified_blocks, rest);
            },
        }
    }

    /// The encoding of a value begins with its discriminant, big-endian.
    pub proof fn lemma_wire_leads_with_tag(m: SpaceLimit)
        ensures
            <SpaceLimit as Xdr>::wire(m).len() >= 4,
            <SpaceLimit as Xdr>::wire(m).take(4) == wire_u32(Self::tag(m)),
    {
        reveal(<SpaceLimit as Xdr>::wire);
        reveal(wire_u32);
        assert((wire_u32(Self::tag(m)) + Self::wire_payload(m)).take(4) =~= wire_u32(Self::tag(m)));
    }

    /// The discriminant of a value.
    pub fn tag_of(&self) -> (t: u32)
        ensures
            t == Self::tag(self.model()),
    {
        match self {
            SpaceLimit::Size { .. } => 1,
            SpaceLimit::Blocks { .. } => 2,
        }
    }

    /// Appends what follows the discriminant in the encoding of `self`.
    pub fn encode_payload(&self, out: &mut Vec<u8>) -> (r: Result<(), EncodeError>)
        ensures
            r is Ok <==> <SpaceLimit as Xdr>::wf(self.model()),
            r is Ok ==> final(out)@ == old(out)@ + Self::wire_payload(self.model()),
    {
        proof {
            reveal(<SpaceLimit as Xdr>::wf);
            reveal(SpaceLimit::wire_payload);
        }
        match self {
            SpaceLimit::Size { file_size } => {
                let _ = file_size.encode(out);
            },
            SpaceLimit::Blocks { modified_blocks } => {
                modified_blocks.encode(out)?;
            },
        }
        Ok(())
    }

    /// Decodes the payload of the value with the discriminant `tag`.
    pub fn decode_payload<'a>(
        tag: u32,
        input: &'a [u8],
    ) -> (r: Result<(SpaceLimit, &'a [u8]), XdrError>)
        ensures
            match r {
                Ok((v, rest)) => {
                    Self::parse_payload(tag, input@)
                        == Ok::<(SpaceLimit, Seq<u8>), XdrError>((v.model(), rest@))
                },
                Err(e) => {
                    Self::parse_payload(tag, input@) == Err::<(SpaceLimit, Seq<u8>), XdrError>(e)
                },
            },
    {
        proof {
            reveal(SpaceLimit::parse_payload);
        }
        if tag == 1 {
            let (file_size, cur) = u64::decode(input)?;
            Ok((SpaceLimit::Size { file_size }, cur))
        } else if tag == 2 {
            let (modified_blocks, cur) = ModifiedLimit::decode(input)?;
            Ok((SpaceLimit::Blocks { modified_blocks }, cur))
        } else {
            Err(XdrError::BadDiscriminant("SpaceLimit", tag))
        }
    }
}

impl Xdr for SpaceLimit {
    type Model = SpaceLimit;

    open spec fn model(&self) -> SpaceLimit {
        *self
    }

    #[verifier::opaque]
    open spec fn wf(m: SpaceLimit) -> bool {
        match m {
            SpaceLimit::Size { .. } => true,
            SpaceLimit::Blocks { modified_blocks } => ModifiedLimit::wf(modified_blocks),
        }
    }

    #[verifier::opaque]
    open spec fn wire(m: SpaceLimit) -> Seq<u8> {
        wire_u32(Self::tag(m)) + Self::wire_payload(m)
    }

    #[verifier::opaque]
    open spec fn parse(s: Seq<u8>) -> Result<(SpaceLimit, Seq<u8>), XdrError> {
        match parse_u32(s) {
            Ok((tag, r)) => Self::parse_payload(tag, r),
            Err(e) => Err(e),
        }
    }

    proof fn lemma_round_trip(m: SpaceLimit, rest: Seq<u8>) {
        reveal(<SpaceLimit as Xdr>::wire);
        reveal(<SpaceLimit as Xdr>::parse);
        lemma_concat_assoc(wire_u32(Self::tag(m)), Self::wire_payload(m), rest);
        lemma_u32_round_trip(Self::tag(m), Self::wire_payload(m) + rest);
        Self::lemma_payload_round_trip(m, rest);
    }

    fn encode(&self, out: &mut Vec<u8>) -> (r: Result<(), EncodeError>) {
        proof {
            reveal(<SpaceLimit as Xdr>::wire);
        }
        let tag = self.tag_of();
        let _ = tag.encode(out);
        self.encode_payload(out)?;
        proof {
            lemma_concat_assoc(old(out)@, wire_u32(tag), Self::wire_payload(self.model()));
        }
        Ok(())
    }

    fn decode<'a>(input: &'a [u8]) -> (r: Result<(SpaceLimit, &'a [u8]), XdrError>) {
        proof {
            reveal(<SpaceLimit as Xdr>::parse);
        }
        let (tag, cur) = u32::decode(input)?;
        Self::decode_payload(tag, cur)
    }
}

#[derive(Clone, Debug, PartialEq, Eq)]
pub struct OpenWriteDelegation {
    pub state_id: StateId,
    pub recall: bool,
    pub space_limit: SpaceLimit,
    pub permissions: Ace,
}

/// What a [`OpenWriteDelegation`] stands for.
pub struct OpenWriteDelegationModel {
    pub state_id: StateIdModel,
    pub recall: bool,
    pub space_limit: SpaceLimit,
    pub permissions: AceModel,
}

impl Xdr for OpenWriteDelegation {
    type Model = OpenWriteDelegationModel;

    #[verifier::opaque]
    open spec fn model(&self) -> OpenWriteDelegationModel {
        OpenWriteDelegationModel {
            state_id: self.state_id.model(),
            recall: self.recall.model(),
            space_limit: self.space_limit.model(),
            permissions: self.permissions.model(),
        }
    }

    #[verifier::opaque]
    open spec fn wf(m: OpenWriteDelegationModel) -> bool {
        &&& StateId::wf(m.state_id)
        &&& SpaceLimit::wf(m.space_limit)
        &&& Ace::wf(m.permissions)
    }

    #[verifier::opaque]
    open spec fn wire(m: OpenWriteDelegationModel) -> Seq<u8> {
        StateId::wire(m.state_id)
            + bool::wire(m.recall)
            + SpaceLimit::wire(m.space_limit)
            + Ace::wire(m.permissions)
    }

    #[verifier::opaque]
    open spec fn parse(s: Seq<u8>) -> Result<(OpenWriteDelegationModel, Seq<u8>), XdrError> {
        match StateId::parse(s) {
            Err(e) => Err(e),
            Ok((state_id, s1)) => match bool::parse(s1) {
                Err(e) => Err(e),
                Ok((recall, s2)) => match SpaceLimit::parse(s2) {
                    Err(e) => Err(e),
                    Ok((space_limit, s3)) => match Ace::parse(s3) {
                        Err(e) => Err(e),
                        Ok((permissions, s4)) => {
                            Ok(
                                (
                                    OpenWriteDelegationModel {
                                        state_id,
                                        recall,
                                        space_limit,
                                        permissions,
                                    },
                                    s4,
                                ),
                            )
                        },
                    },
                },
            },
        }
    }

    proof fn lemma_round_trip(m: OpenWriteDelegationModel, rest: Seq<u8>) {
        reveal(<OpenWriteDelegation as Xdr>::wf);
        reveal(<OpenWriteDelegation as Xdr>::wire);
        reveal(<OpenWriteDelegation as Xdr>::parse);
        let w1 = StateId::wire(m.state_id);
        let w2 = bool::wire(m.recall);
        let w3 = SpaceLimit::wire(m.space_limit);
        let w4 = Ace::wire(m.permissions);
        let r4 = rest;
        let r3 = w4 + r4;
        let r2 = w3 + r3;
        let r1 = w2 + r2;
        lemma_concat_assoc(w1 + w2 + w3, w4, r4);
        lemma_concat_assoc(w1 + w2, w3, r3);
        lemma_concat_assoc(w1, w2, r2);
        StateId::lemma_round_trip(m.state_id, r1);
        bool::lemma_round_trip(m.recall, r2);
        SpaceLimit::lemma_round_trip(m.space_limit, r3);
        Ace::lemma_round_trip(m.permissions, r4);
    }

    fn encode(&self, out: &mut Vec<u8>) -> (r: Result<(), EncodeError>) {
        proof {
            reveal(<OpenWriteDelegation as Xdr>::model);
            reveal(<OpenWriteDelegation as Xdr>::wf);
            reveal(<OpenWriteDelegation as Xdr>::wire);
        }
        let ghost m = self.model();
        let ghost w1 = StateId::wire(m.state_id);
        let ghost w2 = bool::wire(m.recall);
        let ghost w3 = SpaceLimit::wire(m.space_limit);
        let ghost w4 = Ace::wire(m.permissions);
        self.state_id.encode(out)?;
        let _ = self.recall.encode(out);
        proof {
            lemma_concat_assoc(old(out)@, w1, w2);
        }
        self.space_limit.encode(out)?;
        proof {
            lemma_concat_assoc(old(out)@, w1 + w2, w3);
        }
        self.permissions.encode(out)?;
        proof {
            lemma_concat_assoc(old(out)@, w1 + w2 + w3, w4);
        }
        Ok(())
    }

    fn decode<'a>(input: &'a [u8]) -> (r: Result<(OpenWriteDelegation, &'a [u8]), XdrError>) {
        proof {
            reveal(<OpenWriteDelegation as Xdr>::model);
            reveal(<OpenWriteDelegation as Xdr>::parse);
        }
        let (state_id, cur) = StateId::decode(input)?;
        let (recall, cur) = bool::decode(cur)?;
        let (space_limit, cur) = SpaceLimit::decode(cur)?;
        let (permissions, cur) = Ace::decode(cur)?;
        Ok((OpenWriteDelegation { state_id, recall, space_limit, permissions }, cur))
    }
}

#[derive(Clone, Debug, PartialEq, Eq)]
pub enum OpenNoneDelegation {
    NotWanted,
    Contention { server_will_push_delegation: bool },
    Resource { server_will_signal_available: bool },
    NotSupportedFileType,
    WriteDelegationNotSupportedFileType,
    NotSupportedUpgrade,
    NotSupportedDowngrade,
    Cancelled,
    IsDir,
}

impl OpenNoneDelegation {
    /// The discriminant that leads the encoding of a value.
    pub open spec fn tag(m: OpenNoneDelegation) -> u32 {
        match m {
            OpenNoneDelegation::NotWanted => 0,
            OpenNoneDelegation::Contention { .. } => 1,
            OpenNoneDelegation::Resource { .. } => 2,
            OpenNoneDelegation::NotSupportedFileType => 3,
            OpenNoneDelegation::WriteDelegationNotSupportedFileType => 4,
            OpenNoneDelegation::NotSupportedUpgrade => 5,
            OpenNoneDelegation::NotSupportedDowngrade => 6,
            OpenNoneDelegation::Cancelled => 7,
            OpenNoneDelegation::IsDir => 8,
        }
    }

    /// What follows the discriminant in the encoding of a value.
    #[verifier::opaque]
    pub open spec fn wire_payload(m: OpenNoneDelegation) -> Seq<u8> {
        match m {
            OpenNoneDelegation::NotWanted => Seq::<u8>::empty(),
            OpenNoneDelegation::Contention { server_will_push_delegation } => {
                bool::wire(server_will_push_delegation)
            },
            OpenNoneDelegation::Resource { server_will_signal_available } => {
                bool::wire(server_will_signal_available)
            },
            OpenNoneDelegation::NotSupportedFileType => Seq::<u8>::empty(),
            OpenNoneDelegation::WriteDelegationNotSupportedFileType => Seq::<u8>::empty(),
            OpenNoneDelegation::NotSupportedUpgrade => Seq::<u8>::empty(),
            OpenNoneDelegation::NotSupportedDowngrade => Seq::<u8>::empty(),
            OpenNoneDelegation::Cancelled => Seq::<u8>::empty(),
            OpenNoneDelegation::IsDir => Seq::<u8>::empty(),
        }
    }

    /// The value with the discriminant `tag` whose payload is at the front of `s`.
    #[verifier::opaque]
    pub open spec fn parse_payload(
        tag: u32,
        s: Seq<u8>,
    ) -> Result<(OpenNoneDelegation, Seq<u8>), XdrError> {
        if tag == 0 {
            Ok((OpenNoneDelegation::NotWanted, s))
        } else if tag == 1 {
            match bool::parse(s) {
                Err(e) => Err(e),
                Ok((server_will_push_delegation, s1)) => {
                    Ok((OpenNoneDelegation::Contention { server_will_push_delegation }, s1))
                },
            }
        } else if tag == 2 {
            match bool::parse(s) {
                Err(e) => Err(e),
                Ok((server_will_signal_available, s1)) => {
                    Ok((OpenNoneDelegation::Resource { server_will_signal_available }, s1))
                },
            }
        } else if tag == 3 {
            Ok((OpenNoneDelegation::NotSupportedFileType, s))
        } else if tag == 4 {
            Ok((OpenNoneDelegation::WriteDelegationNotSupportedFileType, s))
        } else if tag == 5 {
            Ok((OpenNoneDelegation::NotSupportedUpgrade, s))
        } else if tag == 6 {
            Ok((OpenNoneDelegation::NotSupportedDowngrade, s))
        } else if tag == 7 {
            Ok((OpenNoneDelegation::Cancelled, s))
        } else if tag == 8 {
            Ok((OpenNoneDelegation::IsDir, s))
        } else {
            Err(XdrError::BadDiscriminant("OpenNoneDelegation", tag))
        }
    }

    pub proof fn lemma_payload_round_trip(m: OpenNoneDelegation, rest: Seq<u8>)
        requires
            <OpenNoneDelegation as Xdr>::wf(m),
        ensures
            Self::parse_payload(Self::tag(m), Self::wire_payload(m) + rest)
                == Ok::<(OpenNoneDelegation, Seq<u8>), XdrError>((m, rest)),
    {
        reveal(OpenNoneDelegation::wire_payload);
        reveal(OpenNoneDelegation::parse_payload);
        match m {
            OpenNoneDelegation::NotWanted => {
                assert(Seq::<u8>::empty() + rest =~= rest);
            },
            OpenNoneDelegation::Contention { server_will_push_delegation } => {
                bool::lemma_round_trip(server_will_push_delegation, rest);
            },
            OpenNoneDelegation::Resource { server_will_signal_available } => {
                bool::lemma_round_trip(server_will_signal_available, rest);
            },
            OpenNoneDelegation::NotSupportedFileType => {
                assert(Seq::<u8>::empty() + rest =~= rest);
            },
            OpenNoneDelegation::WriteDelegationNotSupportedFileType => {
                assert(Seq::<u8>::empty() + rest =~= rest);
            },
            OpenNoneDelegation::NotSupportedUpgrade => {
                assert(Seq::<u8>::empty() + rest =~= rest);
            },
            OpenNoneDelegation::NotSupportedDowngrade => {
                assert(Seq::<u8>::empty() + rest =~= rest);
            },
            OpenNoneDelegation::Cancelled => {
                assert(Seq::<u8>::empty() + rest =~= rest);
            },
            OpenNoneDelegation::IsDir => {
                assert(Seq::<u8>::empty() + rest =~= rest);
            },
        }
    }

    /// The encoding of a value begins with its discriminant, big-endian.
    pub proof fn lemma_wire_leads_with_tag(m: OpenNoneDelegation)
        ensures
            <OpenNoneDelegation as Xdr>::wire(m).len() >= 4,
            <OpenNoneDelegation as Xdr>::wire(m).take(4) == wire_u32(Self::tag(m)),
    {
        reveal(<OpenNoneDelegation as Xdr>::wire);
        reveal(wire_u32);
        assert((wire_u32(Self::tag(m)) + Self::wire_payload(m)).take(4) =~= wire_u32(Self::tag(m)));
    }

    /// The discriminant of a value.
    pub fn tag_of(&self) -> (t: u32)
        ensures
            t == Self::tag(self.model()),
    {
        match self {
            OpenNoneDelegation::NotWanted => 0,
            OpenNoneDelegation::Contention { .. } => 1,
            OpenNoneDelegation::Resource { .. } => 2,
            OpenNoneDelegation::NotSupportedFileType => 3,
            OpenNoneDelegation::WriteDelegationNotSupportedFileType => 4,
            OpenNoneDelegation::NotSupportedUpgrade => 5,
            OpenNoneDelegation::NotSupportedDowngrade => 6,
            OpenNoneDelegation::Cancelled => 7,
            OpenNoneDelegation::IsDir => 8,
        }
    }

    /// Appends what follows the discriminant in the encoding of `self`.
    pub fn encode_payload(&self, out: &mut Vec<u8>) -> (r: Result<(), EncodeError>)
        ensures
            r is Ok <==> <OpenNoneDelegation as Xdr>::wf(self.model()),
            r is Ok ==> final(out)@ == old(out)@ + Self::wire_payload(self.model()),
    {
        proof {
            reveal(OpenNoneDelegation::wire_payload);
        }
        match self {
            OpenNoneDelegation::NotWanted => {
                assert(out@ =~= old(out)@ + Seq::<u8>::empty());
            },
            OpenNoneDelegation::Contention { server_will_push_delegation } => {
                let _ = server_will_push_delegation.encode(out);
            },
            OpenNoneDelegation::Resource { server_will_signal_available } => {
                let _ = server_will_signal_available.encode(out);
            },
            OpenNoneDelegation::NotSupportedFileType => {
                assert(out@ =~= old(out)@ + Seq::<u8>::empty());
            },
            OpenNoneDelegation::WriteDelegationNotSupportedFileType => {
                assert(out@ =~= old(out)@ + Seq::<u8>::empty());
            },
            OpenNoneDelegation::NotSupportedUpgrade => {
                assert(out@ =~= old(out)@ + Seq::<u8>::empty());
            },
            OpenNoneDelegation::NotSupportedDowngrade => {
                assert(out@ =~= old(out)@ + Seq::<u8>::empty());
            },
            OpenNoneDelegation::Cancelled => {
                assert(out@ =~= old(out)@ + Seq::<u8>::empty());
            },
            OpenNoneDelegation::IsDir => {
                assert(out@ =~= old(out)@ + Seq::<u8>::empty());
            },
        }
        Ok(())
    }

    /// Decodes the payload of the value with the discriminant `tag`.
    pub fn decode_payload<'a>(
        tag: u32,
        input: &'a [u8],
    ) -> (r: Result<(OpenNoneDelegation, &'a [u8]), XdrError>)
        ensures
            match r {
                Ok((v, rest)) => {
                    Self::parse_payload(tag, input@)
                        == Ok::<(OpenNoneDelegation, Seq<u8>), XdrError>((v.model(), rest@))
                },
                Err(e) => {
                    Self::parse_payload(tag, input@)
                        == Err::<(OpenNoneDelegation, Seq<u8>), XdrError>(e)
                },
            },
    {
        proof {
            reveal(OpenNoneDelegation::parse_payload);
        }
        if tag == 0 {
            Ok((OpenNoneDelegation::NotWanted, input))
        } else if tag == 1 {
            let (server_will_push_delegation, cur) = bool::decode(input)?;
            Ok((OpenNoneDelegation::Contention { server_will_push_delegation }, cur))
        } else if tag == 2 {
            let (server_will_signal_available, cur) = bool::decode(input)?;
            Ok((OpenNoneDelegation::Resource { server_will_signal_available }, cur))
        } else if tag == 3 {
            Ok((OpenNoneDelegation::NotSupportedFileType, input))
        } else if tag == 4 {
            Ok((OpenNoneDelegation::WriteDelegationNotSupportedFileType, input))
        } else if tag == 5 {
            Ok((OpenNoneDelegation::NotSupportedUpgrade, input))
        } else if tag == 6 {
            Ok((OpenNoneDelegation::NotSupportedDowngrade, input))
        } else if tag == 7 {
            Ok((OpenNoneDelegation::Cancelled, input))
        } else if tag == 8 {
            Ok((OpenNoneDelegation::IsDir, input))
        } else {
            Err(XdrError::BadDiscriminant("OpenNoneDelegation", tag))
        }
    }
}

impl Xdr for OpenNoneDelegation {
    type Model = OpenNoneDelegation;

    open spec fn model(&self) -> OpenNoneDelegation {
        *self
    }

    open spec fn wf(m: OpenNoneDelegation) -> bool {
        true
    }

    #[verifier::opaque]
    open spec fn wire(m: OpenNoneDelegation) -> Seq<u8> {
        wire_u32(Self::tag(m)) + Self::wire_payload(m)
    }

    #[verifier::opaque]
    open spec fn parse(s: Seq<u8>) -> Result<(OpenNoneDelegation, Seq<u8>), XdrError> {
        match parse_u32(s) {
            Ok((tag, r)) => Self::parse_payload(tag, r),
            Err(e) => Err(e),
        }
    }

    proof fn lemma_round_trip(m: OpenNoneDelegation, rest: Seq<u8>) {
        reveal(<OpenNoneDelegation as Xdr>::wire);
        reveal(<OpenNoneDelegation as Xdr>::parse);
        lemma_concat_assoc(wire_u32(Self::tag(m)), Self::wire_payload(m), rest);
        lemma_u32_round_trip(Self::tag(m), Self::wire_payload(m) + rest);
        Self::lemma_payload_round_trip(m, rest);
    }

    fn encode(&self, out: &mut Vec<u8>) -> (r: Result<(), EncodeError>) {
        proof {
            reveal(<OpenNoneDelegation as Xdr>::wire);
        }
        let tag = self.tag_of();
        let _ = tag.encode(out);
        self.encode_payload(out)?;
        proof {
            lemma_concat_assoc(old(out)@, wire_u32(tag), Self::wire_payload(self.model()));
        }
        Ok(())
    }

    fn decode<'a>(input: &'a [u8]) -> (r: Result<(OpenNoneDelegation, &'a [u8]), XdrError>) {
        proof {
            reveal(<OpenNoneDelegation as Xdr>::parse);
        }
        let (tag, cur) = u32::decode(input)?;
        Self::decode_payload(tag, cur)
    }
}

#[derive(Clone, Debug, PartialEq, Eq)]
pub enum OpenDelegation {
    Null,
    Read { read: OpenReadDelegation },
    Write { write: OpenWriteDelegation },
    NoneExt { why_none: OpenNoneDelegation },
}

/// What a [`OpenDelegation`] stands for.
pub enum OpenDelegationModel {
    Null,
    Read { read: OpenReadDelegationModel },
    Write { write: OpenWriteDelegationModel },
    NoneExt { why_none: OpenNoneDelegation },
}

impl OpenDelegation {
    /// The discriminant that leads the encoding of a value.
    pub open spec fn tag(m: OpenDelegationModel) -> u32 {
        match m {
            OpenDelegationModel::Null => 0,
            OpenDelegationModel::Read { .. } => 1,
            OpenDelegationModel::Write { .. } => 2,
            OpenDelegationModel::NoneExt { .. } => 3,
        }
    }

    /// What follows the discriminant in the encoding of a value.
    #[verifier::opaque]
    pub open spec fn wire_payload(m: OpenDelegationModel) -> Seq<u8> {
        match m {
            OpenDelegationModel::Null => Seq::<u8>::empty(),
            OpenDelegationModel::Read { read } => OpenReadDelegation::wire(read),
            OpenDelegationModel::Write { write } => OpenWriteDelegation::wire(write),
            OpenDelegationModel::NoneExt { why_none } => OpenNoneDelegation::wire(why_none),
        }
    }

    /// The value with the discriminant `tag` whose payload is at the front of `s`.
    #[verifier::opaque]
    pub open spec fn parse_payload(
        tag: u32,
        s: Seq<u8>,
    ) -> Result<(OpenDelegationModel, Seq<u8>), XdrError> {
        if tag == 0 {
            Ok((OpenDelegationModel::Null, s))
        } else if tag == 1 {
            match OpenReadDelegation::parse(s) {
                Err(e) => Err(e),
                Ok((read, s1)) => Ok((OpenDelegationModel::Read { read }, s1)),
            }
        } else if tag == 2 {
            match OpenWriteDelegation::parse(s) {
                Err(e) => Err(e),
                Ok((write, s1)) => Ok((OpenDelegationModel::Write { write }, s1)),
            }
        } else if tag == 3 {
            match OpenNoneDelegation::parse(s) {
                Err(e) => Err(e),
                Ok((why_none, s1)) => Ok((OpenDelegationModel::NoneExt { why_none }, s1)),
            }
        } else {
            Err(XdrError::BadDiscriminant("OpenDelegation", tag))
        }
    }

    pub proof fn lemma_payload_round_trip(m: OpenDelegationModel, rest: Seq<u8>)
        requires
            <OpenDelegation as Xdr>::wf(m),
        ensures
            Self::parse_payload(Self::tag(m), Self::wire_payload(m) + rest)
                == Ok::<(OpenDelegationModel, Seq<u8>), XdrError>((m, rest)),
    {
        reveal(<OpenDelegation as Xdr>::wf);
        reveal(OpenDelegation::wire_payload);
        reveal(OpenDelegation::parse_payload);
        match m {
            OpenDelegationModel::Null => {
                assert(Seq::<u8>::empty() + rest =~= rest);
            },
            OpenDelegationModel::Read { read } => {
                OpenReadDelegation::lemma_round_trip(read, rest);
            },
            OpenDelegationModel::Write { write } => {
                OpenWriteDelegation::lemma_round_trip(write, rest);
            },
            OpenDelegationModel::NoneExt { why_none } => {
                OpenNoneDelegation::lemma_round_trip(why_none, rest);
            },
        }
    }

    /// The encoding of a value begins with its discriminant, big-endian.
    pub proof fn lemma_wire_leads_with_tag(m: OpenDelegationModel)
        ensures
            <OpenDelegation as Xdr>::wire(m).len() >= 4,
            <OpenDelegation as Xdr>::wire(m).take(4) == wire_u32(Self::tag(m)),
    {
        reveal(<OpenDelegation as Xdr>::wire);
        reveal(wire_u32);
        assert((wire_u32(Self::tag(m)) + Self::wire_payload(m)).take(4) =~= wire_u32(Self::tag(m)));
    }

    /// The discriminant of a value.
    pub fn tag_of(&self) -> (t: u32)
        ensures
            t == Self::tag(self.model()),
    {
        proof {
            reveal(<OpenDelegation as Xdr>::model);
        }
        match self {
            OpenDelegation::Null => 0,
            OpenDelegation::Read { .. } => 1,
            OpenDelegation::Write { .. } => 2,
            OpenDelegation::NoneExt { .. } => 3,
        }
    }

    /// Appends what follows the discriminant in the encoding of `self`.
    pub fn encode_payload(&self, out: &mut Vec<u8>) -> (r: Result<(), EncodeError>)
        ensures
            r is Ok <==> <OpenDelegation as Xdr>::wf(self.model()),
            r is Ok ==> final(out)@ == old(out)@ + Self::wire_payload(self.model()),
    {
        proof {
            reveal(<OpenDelegation as Xdr>::model);
            reveal(<OpenDelegation as Xdr>::wf);
            reveal(OpenDelegation::wire_payload);
        }
        match self {
            OpenDelegation::Null => {
                assert(out@ =~= old(out)@ + Seq::<u8>::empty());
            },
            OpenDelegation::Read { read } => {
                read.encode(out)?;
            },
            OpenDelegation::Write { write } => {
                write.encode(out)?;
            },
            OpenDelegation::NoneExt { why_none } => {
                why_none.encode(out)?;
            },
        }
        Ok(())
    }

    /// Decodes the payload of the value with the discriminant `tag`.
    pub fn decode_payload<'a>(
        tag: u32,
        input: &'a [u8],
    ) -> (r: Result<(OpenDelegation, &'a [u8]), XdrError>)
        ensures
            match r {
                Ok((v, rest)) => {
                    Self::parse_payload(tag, input@)
                        == Ok::<(OpenDelegationModel, Seq<u8>), XdrError>((v.model(), rest@))
                },
                Err(e) => {
                    Self::parse_payload(tag, input@)
                        == Err::<(OpenDelegationModel, Seq<u8>), XdrError>(e)
                },
            },
    {
        proof {
            reveal(<OpenDelegation as Xdr>::model);
            reveal(OpenDelegation::parse_payload);
        }
        if tag == 0 {
            Ok((OpenDelegation::Null, input))
        } else if tag == 1 {
            let (read, cur) = OpenReadDelegation::decode(input)?;
            Ok((OpenDelegation::Read { read }, cur))
        } else if tag == 2 {
            let (write, cur) = OpenWriteDelegation::decode(input)?;
            Ok((OpenDelegation::Write { write }, cur))
        } else if tag == 3 {
            let (why_none, cur) = OpenNoneDelegation::decode(input)?;
            Ok((OpenDelegation::NoneExt { why_none }, cur))
        } else {
            Err(XdrError::BadDiscriminant("OpenDelegation", tag))
        }
    }
}

impl Xdr for OpenDelegation {
    type Model = OpenDelegationModel;

    #[verifier::opaque]
    open spec fn model(&self) -> OpenDelegationModel {
        match self {
            OpenDelegation::Null => OpenDelegationModel::Null,
            OpenDelegation::Read { read } => OpenDelegationModel::Read { read: read.model() },
            OpenDelegation::Write { write } => OpenDelegationModel::Write { write: write.model() },
            OpenDelegation::NoneExt { why_none } => {
                OpenDelegationModel::NoneExt { why_none: why_none.model() }
            },
        }
    }

    #[verifier::opaque]
    open spec fn wf(m: OpenDelegationModel) -> bool {
        match m {
            OpenDelegationModel::Null => true,
            OpenDelegationModel::Read { read } => OpenReadDelegation::wf(read),
            OpenDelegationModel::Write { write } => OpenWriteDelegation::wf(write),
            OpenDelegationModel::NoneExt { why_none } => OpenNoneDelegation::wf(why_none),
        }
    }

    #[verifier::opaque]
    open spec fn wire(m: OpenDelegationModel) -> Seq<u8> {
        wire_u32(Self::tag(m)) + Self::wire_payload(m)
    }

    #[verifier::opaque]
    open spec fn parse(s: Seq<u8>) -> Result<(OpenDelegationModel, Seq<u8>), XdrError> {
        match parse_u32(s) {
            Ok((tag, r)) => Self::parse_payload(tag, r),
            Err(e) => Err(e),
        }
    }

    proof fn lemma_round_trip(m: OpenDelegationModel, rest: Seq<u8>) {
        reveal(<OpenDelegation as Xdr>::wire);
        reveal(<OpenDelegation as Xdr>::parse);
        lemma_concat_assoc(wire_u32(Self::tag(m)), Self::wire_payload(m), rest);
        lemma_u32_round_trip(Self::tag(m), Self::wire_payload(m) + rest);
        Self::lemma_payload_round_trip(m, rest);
    }

    fn encode(&self, out: &mut Vec<u8>) -> (r: Result<(), EncodeError>) {
        proof {
            reveal(<OpenDelegation as Xdr>::wire);
        }
        let tag = self.tag_of();
        let _ = tag.encode(out);
        self.encode_payload(out)?;
        proof {
            lemma_concat_assoc(old(out)@, wire_u32(tag), Self::wire_payload(self.model()));
        }
        Ok(())
    }

    fn decode<'a>(input: &'a [u8]) -> (r: Result<(OpenDelegation, &'a [u8]), XdrError>) {
        proof {
            reveal(<OpenDelegation as Xdr>::parse);
        }
        let (tag, cur) = u32::decode(input)?;
        Self::decode_payload(tag, cur)
    }
}

#[derive(Clone, Debug, PartialEq, Eq)]
pub struct OpenRes {
    pub state_id: StateId,
    pub change_info: ChangeInfo,
    pub result_flags: OpenResult,
    pub attribute_set: EnumSet<FileAttributeId>,
    pub delegation: OpenDelegation,
}

/// What a [`OpenRes`] stands for.
pub struct OpenResModel {
    pub state_id: StateIdModel,
    pub change_info: ChangeInfo,
    pub result_flags: OpenResult,
    pub attribute_set: Seq<FileAttributeId>,
    pub delegation: OpenDelegationModel,
}

impl Xdr for OpenRes {
    type Model = OpenResModel;

    #[verifier::opaque]
    open spec fn model(&self) -> OpenResModel {
        OpenResModel {
            state_id: self.state_id.model(),
            change_info: self.change_info.model(),
            result_flags: self.result_flags.model(),
            attribute_set: self.attribute_set.model(),
            delegation: self.delegation.model(),
        }
    }

    #[verifier::opaque]
    open spec fn wf(m: OpenResModel) -> bool {
        &&& StateId::wf(m.state_id)
        &&& ChangeInfo::wf(m.change_info)
        &&& OpenResult::wf(m.result_flags)
        &&& EnumSet::<FileAttributeId>::wf(m.attribute_set)
        &&& OpenDelegation::wf(m.delegation)
    }

    #[verifier::opaque]
    open spec fn wire(m: OpenResModel) -> Seq<u8> {
        StateId::wire(m.state_id)
            + ChangeInfo::wire(m.change_info)
            + OpenResult::wire(m.result_flags)
            + EnumSet::<FileAttributeId>::wire(m.attribute_set)
            + OpenDelegation::wire(m.delegation)
    }

    #[verifier::opaque]
    open spec fn parse(s: Seq<u8>) -> Result<(OpenResModel, Seq<u8>), XdrError> {
        match StateId::parse(s) {
            Err(e) => Err(e),
            Ok((state_id, s1)) => match ChangeInfo::parse(s1) {
                Err(e) => Err(e),
                Ok((change_info, s2)) => match OpenResult::parse(s2) {
                    Err(e) => Err(e),
                    Ok((result_flags, s3)) => match EnumSet::<FileAttributeId>::parse(s3) {
                        Err(e) => Err(e),
                        Ok((attribute_set, s4)) => match OpenDelegation::parse(s4) {
                            Err(e) => Err(e),
                            Ok((delegation, s5)) => {
                                Ok(
                                    (
                                        OpenResModel {
                                            state_id,
                                            change_info,
                                            result_flags,
                                            attribute_set,
                                            delegation,
                                        },
                                        s5,
                                    ),
                                )
                            },
                        },
                    },
                },
            },
        }
    }

    proof fn lemma_round_trip(m: OpenResModel, rest: Seq<u8>) {
        reveal(<OpenRes as Xdr>::wf);
        reveal(<OpenRes as Xdr>::wire);
        reveal(<OpenRes as Xdr>::parse);
        let w1 = StateId::wire(m.state_id);
        let w2 = ChangeInfo::wire(m.change_info);
        let w3 = OpenResult::wire(m.result_flags);
        let w4 = EnumSet::<FileAttributeId>::wire(m.attribute_set);
        let w5 = OpenDelegation::wire(m.delegation);
        let r5 = rest;
        let r4 = w5 + r5;
        let r3 = w4 + r4;
        let r2 = w3 + r3;
        let r1 = w2 + r2;
        lemma_concat_assoc(w1 + w2 + w3 + w4, w5, r5);
        lemma_concat_assoc(w1 + w2 + w3, w4, r4);
        lemma_concat_assoc(w1 + w2, w3, r3);
        lemma_concat_assoc(w1, w2, r2);
        StateId::lemma_round_trip(m.state_id, r1);
        ChangeInfo::lemma_round_trip(m.change_info, r2);
        OpenResult::lemma_round_trip(m.result_flags, r3);
        EnumSet::<FileAttributeId>::lemma_round_trip(m.attribute_set, r4);
        OpenDelegation::lemma_round_trip(m.delegation, r5);
    }

    fn encode(&self, out: &mut Vec<u8>) -> (r: Result<(), EncodeError>) {
        proof {
            reveal(<OpenRes as Xdr>::model);
            reveal(<OpenRes as Xdr>::wf);
            reveal(<OpenRes as Xdr>::wire);
        }
        let ghost m = self.model();
        let ghost w1 = StateId::wire(m.state_id);
        let ghost w2 = ChangeInfo::wire(m.change_info);
        let ghost w3 = OpenResult::wire(m.result_flags);
        let ghost w4 = EnumSet::<FileAttributeId>::wire(m.attribute_set);
        let ghost w5 = OpenDelegation::wire(m.delegation);
        self.state_id.encode(out)?;
        self.change_info.encode(out)?;
        proof {
            lemma_concat_assoc(old(out)@, w1, w2);
        }
        self.result_flags.encode(out)?;
        proof {
            lemma_concat_assoc(old(out)@, w1 + w2, w3);
        }
        self.attribute_set.encode(out)?;
        proof {
            lemma_concat_assoc(old(out)@, w1 + w2 + w3, w4);
        }
        self.delegation.encode(out)?;
        proof {
            lemma_concat_assoc(old(out)@, w1 + w2 + w3 + w4, w5);
        }
        Ok(())
    }

    fn decode<'a>(input: &'a [u8]) -> (r: Result<(OpenRes, &'a [u8]), XdrError>) {
        proof {
            reveal(<OpenRes as Xdr>::model);
            reveal(<OpenRes as Xdr>::parse);
        }
        let (state_id, cur) = StateId::decode(input)?;
        let (change_info, cur) = ChangeInfo::decode(cur)?;
        let (result_flags, cur) = OpenResult::decode(cur)?;
        let (attribute_set, cur) = EnumSet::<FileAttributeId>::decode(cur)?;
        let (delegation, cur) = OpenDelegation::decode(cur)?;
        Ok((OpenRes { state_id, change_info, result_flags, attribute_set, delegation }, cur))
    }
}

#[derive(Clone, Debug, PartialEq, Eq)]
pub struct OpenDowngradeRes {
    pub open_state_id: StateId,
}

/// What a [`OpenDowngradeRes`] stands for.
pub struct OpenDowngradeResModel {
    pub open_state_id: StateIdModel,
}

impl Xdr for OpenDowngradeRes {
    type Model = OpenDowngradeResModel;

    #[verifier::opaque]
    open spec fn model(&self) -> OpenDowngradeResModel {
        OpenDowngradeResModel { open_state_id: self.open_state_id.model() }
    }

    #[verifier::opaque]
    open spec fn wf(m: OpenDowngradeResModel) -> bool {
        &&& StateId::wf(m.open_state_id)
    }

    #[verifier::opaque]
    open spec fn wire(m: OpenDowngradeResModel) -> Seq<u8> {
        StateId::wire(m.open_state_id)
    }

    #[verifier::opaque]
    open spec fn parse(s: Seq<u8>) -> Result<(OpenDowngradeResModel, Seq<u8>), XdrError> {
        match StateId::parse(s) {
            Err(e) => Err(e),
            Ok((open_state_id, s1)) => Ok((OpenDowngradeResModel { open_state_id }, s1)),
        }
    }

    proof fn lemma_round_trip(m: OpenDowngradeResModel, rest: Seq<u8>) {
        reveal(<OpenDowngradeRes as Xdr>::wf);
        reveal(<OpenDowngradeRes as Xdr>::wire);
        reveal(<OpenDowngradeRes as Xdr>::parse);
        StateId::lemma_round_trip(m.open_state_id, rest);
    }

    fn encode(&self, out: &mut Vec<u8>) -> (r: Result<(), EncodeError>) {
        proof {
            reveal(<OpenDowngradeRes as Xdr>::model);
            reveal(<OpenDowngradeRes as Xdr>::wf);
            reveal(<OpenDowngradeRes as Xdr>::wire);
        }
        self.open_state_id.encode(out)?;
        Ok(())
    }

    fn decode<'a>(input: &'a [u8]) -> (r: Result<(OpenDowngradeRes, &'a [u8]), XdrError>) {
        proof {
            reveal(<OpenDowngradeRes as Xdr>::model);
            reveal(<OpenDowngradeRes as Xdr>::parse);
        }
        let (open_state_id, cur) = StateId::decode(input)?;
        Ok((OpenDowngradeRes { open_state_id }, cur))
    }
}

#[derive(Clone, Debug, PartialEq, Eq)]
pub struct ReadRes {
    pub eof: bool,
    pub data: Vec<u8>,
}

/// What a [`ReadRes`] stands for.
pub struct ReadResModel {
    pub eof: bool,
    pub data: Seq<u8>,
}

impl Xdr for ReadRes {
    type Model = ReadResModel;

    #[verifier::opaque]
    open spec fn model(&self) -> ReadResModel {
        ReadResModel { eof: self.eof.model(), data: self.data@ }
    }

    #[verifier::opaque]
    open spec fn wf(m: ReadResModel) -> bool {
        &&& wf_opaque(m.data)
    }

    #[verifier::opaque]
    open spec fn wire(m: ReadResModel) -> Seq<u8> {
        bool::wire(m.eof) + wire_opaque(m.data)
    }

    #[verifier::opaque]
    open spec fn parse(s: Seq<u8>) -> Result<(ReadResModel, Seq<u8>), XdrError> {
        match bool::parse(s) {
            Err(e) => Err(e),
            Ok((eof, s1)) => match parse_opaque(s1) {
                Err(e) => Err(e),
                Ok((data, s2)) => Ok((ReadResModel { eof, data }, s2)),
            },
        }
    }

    proof fn lemma_round_trip(m: ReadResModel, rest: Seq<u8>) {
        reveal(<ReadRes as Xdr>::wf);
        reveal(<ReadRes as Xdr>::wire);
        reveal(<ReadRes as Xdr>::parse);
        let w1 = bool::wire(m.eof);
        let w2 = wire_opaque(m.data);
        let r2 = rest;
        let r1 = w2 + r2;
        lemma_concat_assoc(w1, w2, r2);
        bool::lemma_round_trip(m.eof, r1);
        lemma_opaque_round_trip(m.data, r2);
    }

    fn encode(&self, out: &mut Vec<u8>) -> (r: Result<(), EncodeError>) {
        proof {
            reveal(<ReadRes as Xdr>::model);
            reveal(<ReadRes as Xdr>::wf);
            reveal(<ReadRes as Xdr>::wire);
        }
        let ghost m = self.model();
        let ghost w1 = bool::wire(m.eof);
        let ghost w2 = wire_opaque(m.data);
        let _ = self.eof.encode(out);
        encode_opaque(self.data.as_slice(), out)?;
        proof {
            lemma_concat_assoc(old(out)@, w1, w2);
        }
        Ok(())
    }

    fn decode<'a>(input: &'a [u8]) -> (r: Result<(ReadRes, &'a [u8]), XdrError>) {
        proof {
            reveal(<ReadRes as Xdr>::model);
            reveal(<ReadRes as Xdr>::parse);
        }
        let (eof, cur) = bool::decode(input)?;
        let (data, cur) = decode_opaque(cur)?;
        let data = copy_bytes(data);
        Ok((ReadRes { eof, data }, cur))
    }
}

#[derive(Clone, Debug, PartialEq, Eq)]
pub struct ReadDirRes {
    pub cookie_verifier: Verifier,
    pub reply: DirectoryList,
}

/// What a [`ReadDirRes`] stands for.
pub struct ReadDirResModel {
    pub cookie_verifier: Verifier,
    pub reply: DirectoryListModel,
}

impl Xdr for ReadDirRes {
    type Model = ReadDirResModel;

    #[verifier::opaque]
    open spec fn model(&self) -> ReadDirResModel {
        ReadDirResModel { cookie_verifier: self.cookie_verifier.model(), reply: self.reply.model() }
    }

    #[verifier::opaque]
    open spec fn wf(m: ReadDirResModel) -> bool {
        &&& Verifier::wf(m.cookie_verifier)
        &&& DirectoryList::wf(m.reply)
    }

    #[verifier::opaque]
    open spec fn wire(m: ReadDirResModel) -> Seq<u8> {
        Verifier::wire(m.cookie_verifier) + DirectoryList::wire(m.reply)
    }

    #[verifier::opaque]
    open spec fn parse(s: Seq<u8>) -> Result<(ReadDirResModel, Seq<u8>), XdrError> {
        match Verifier::parse(s) {
            Err(e) => Err(e),
            Ok((cookie_verifier, s1)) => match DirectoryList::parse(s1) {
                Err(e) => Err(e),
                Ok((reply, s2)) => Ok((ReadDirResModel { cookie_verifier, reply }, s2)),
            },
        }
    }

    proof fn lemma_round_trip(m: ReadDirResModel, rest: Seq<u8>) {
        reveal(<ReadDirRes as Xdr>::wf);
        reveal(<ReadDirRes as Xdr>::wire);
        reveal(<ReadDirRes as Xdr>::parse);
        let w1 = Verifier::wire(m.cookie_verifier);
        let w2 = DirectoryList::wire(m.reply);
        let r2 = rest;
        let r1 = w2 + r2;
        lemma_concat_assoc(w1, w2, r2);
        Verifier::lemma_round_trip(m.cookie_verifier, r1);
        DirectoryList::lemma_round_trip(m.reply, r2);
    }

    fn encode(&self, out: &mut Vec<u8>) -> (r: Result<(), EncodeError>) {
        proof {
            reveal(<ReadDirRes as Xdr>::model);
            reveal(<ReadDirRes as Xdr>::wf);
            reveal(<ReadDirRes as Xdr>::wire);
        }
        let ghost m = self.model();
        let ghost w1 = Verifier::wire(m.cookie_verifier);
        let ghost w2 = DirectoryList::wire(m.reply);
        self.cookie_verifier.encode(out)?;
        self.reply.encode(out)?;
        proof {
            lemma_concat_assoc(old(out)@, w1, w2);
        }
        Ok(())
    }

    fn decode<'a>(input: &'a [u8]) -> (r: Result<(ReadDirRes, &'a [u8]), XdrError>) {
        proof {
            reveal(<ReadDirRes as Xdr>::model);
            reveal(<ReadDirRes as Xdr>::parse);
        }
        let (cookie_verifier, cur) = Verifier::decode(input)?;
        let (reply, cur) = DirectoryList::decode(cur)?;
        Ok((ReadDirRes { cookie_verifier, reply }, cur))
    }
}

#[derive(Clone, Debug, PartialEq, Eq)]
pub struct ReadLinkRes {
    pub link: String,
}

/// What a [`ReadLinkRes`] stands for.
pub struct ReadLinkResModel {
    pub link: Seq<char>,
}

impl Xdr for ReadLinkRes {
    type Model = ReadLinkResModel;

    #[verifier::opaque]
    open spec fn model(&self) -> ReadLinkResModel {
        ReadLinkResModel { link: self.link.model() }
    }

    #[verifier::opaque]
    open spec fn wf(m: ReadLinkResModel) -> bool {
        &&& String::wf(m.link)
    }

    #[verifier::opaque]
    open spec fn wire(m: ReadLinkResModel) -> Seq<u8> {
        String::wire(m.link)
    }

    #[verifier::opaque]
    open spec fn parse(s: Seq<u8>) -> Result<(ReadLinkResModel, Seq<u8>), XdrError> {
        match String::parse(s) {
            Err(e) => Err(e),
            Ok((link, s1)) => Ok((ReadLinkResModel { link }, s1)),
        }
    }

    proof fn lemma_round_trip(m: ReadLinkResModel, rest: Seq<u8>) {
        reveal(<ReadLinkRes as Xdr>::wf);
        reveal(<ReadLinkRes as Xdr>::wire);
        reveal(<ReadLinkRes as Xdr>::parse);
        String::lemma_round_trip(m.link, rest);
    }

    fn encode(&self, out: &mut Vec<u8>) -> (r: Result<(), EncodeError>) {
        proof {
            reveal(<ReadLinkRes as Xdr>::model);
            reveal(<ReadLinkRes as Xdr>::wf);
            reveal(<ReadLinkRes as Xdr>::wire);
        }
        self.link.encode(out)?;
        Ok(())
    }

    fn decode<'a>(input: &'a [u8]) -> (r: Result<(ReadLinkRes, &'a [u8]), XdrError>) {
        proof {
            reveal(<ReadLinkRes as Xdr>::model);
            reveal(<ReadLinkRes as Xdr>::parse);
        }
        let (link, cur) = String::decode(input)?;
        Ok((ReadLinkRes { link }, cur))
    }
}

#[derive(Clone, Debug, PartialEq, Eq)]
pub struct RemoveRes {
    pub change_info: ChangeInfo,
}

impl Xdr for RemoveRes {
    type Model = RemoveRes;

    open spec fn model(&self) -> RemoveRes {
        *self
    }

    #[verifier::opaque]
    open spec fn wf(m: RemoveRes) -> bool {
        &&& ChangeInfo::wf(m.change_info)
    }

    #[verifier::opaque]
    open spec fn wire(m: RemoveRes) -> Seq<u8> {
        ChangeInfo::wire(m.change_info)
    }

    #[verifier::opaque]
    open spec fn parse(s: Seq<u8>) -> Result<(RemoveRes, Seq<u8>), XdrError> {
        match ChangeInfo::parse(s) {
            Err(e) => Err(e),
            Ok((change_info, s1)) => Ok((RemoveRes { change_info }, s1)),
        }
    }

    proof fn lemma_round_trip(m: RemoveRes, rest: Seq<u8>) {
        reveal(<RemoveRes as Xdr>::wf);
        reveal(<RemoveRes as Xdr>::wire);
        reveal(<RemoveRes as Xdr>::parse);
        ChangeInfo::lemma_round_trip(m.change_info, rest);
    }

    fn encode(&self, out: &mut Vec<u8>) -> (r: Result<(), EncodeError>) {
        proof {
            reveal(<RemoveRes as Xdr>::wf);
            reveal(<RemoveRes as Xdr>::wire);
        }
        self.change_info.encode(out)?;
        Ok(())
    }

    fn decode<'a>(input: &'a [u8]) -> (r: Result<(RemoveRes, &'a [u8]), XdrError>) {
        proof {
            reveal(<RemoveRes as Xdr>::parse);
        }
        let (change_info, cur) = ChangeInfo::decode(input)?;
        Ok((RemoveRes { change_info }, cur))
    }
}

#[derive(Clone, Debug, PartialEq, Eq)]
pub struct RenameRes {
    pub source_change_info: ChangeInfo,
    pub target_change_info: ChangeInfo,
}

impl Xdr for RenameRes {
    type Model = RenameRes;

    open spec fn model(&self) -> RenameRes {
        *self
    }

    #[verifier::opaque]
    open spec fn wf(m: RenameRes) -> bool {
        &&& ChangeInfo::wf(m.source_change_info)
        &&& ChangeInfo::wf(m.target_change_info)
    }

    #[verifier::opaque]
    open spec fn wire(m: RenameRes) -> Seq<u8> {
        ChangeInfo::wire(m.source_change_info) + ChangeInfo::wire(m.target_change_info)
    }

    #[verifier::opaque]
    open spec fn parse(s: Seq<u8>) -> Result<(RenameRes, Seq<u8>), XdrError> {
        match ChangeInfo::parse(s) {
            Err(e) => Err(e),
            Ok((source_change_info, s1)) => match ChangeInfo::parse(s1) {
                Err(e) => Err(e),
                Ok((target_change_info, s2)) => {
                    Ok((RenameRes { source_change_info, target_change_info }, s2))
                },
            },
        }
    }

    proof fn lemma_round_trip(m: RenameRes, rest: Seq<u8>) {
        reveal(<RenameRes as Xdr>::wf);
        reveal(<RenameRes as Xdr>::wire);
        reveal(<RenameRes as Xdr>::parse);
        let w1 = ChangeInfo::wire(m.source_change_info);
        let w2 = ChangeInfo::wire(m.target_change_info);
        let r2 = rest;
        let r1 = w2 + r2;
        lemma_concat_assoc(w1, w2, r2);
        ChangeInfo::lemma_round_trip(m.source_change_info, r1);
        ChangeInfo::lemma_round_trip(m.target_change_info, r2);
    }

    fn encode(&self, out: &mut Vec<u8>) -> (r: Result<(), EncodeError>) {
        proof {
            reveal(<RenameRes as Xdr>::wf);
            reveal(<RenameRes as Xdr>::wire);
        }
        let ghost m = self.model();
        let ghost w1 = ChangeInfo::wire(m.source_change_info);
        let ghost w2 = ChangeInfo::wire(m.target_change_info);
        self.source_change_info.encode(out)?;
        self.target_change_info.encode(out)?;
        proof {
            lemma_concat_assoc(old(out)@, w1, w2);
        }
        Ok(())
    }

    fn decode<'a>(input: &'a [u8]) -> (r: Result<(RenameRes, &'a [u8]), XdrError>) {
        proof {
            reveal(<RenameRes as Xdr>::parse);
        }
        let (source_change_info, cur) = ChangeInfo::decode(input)?;
        let (target_change_info, cur) = ChangeInfo::decode(cur)?;
        Ok((RenameRes { source_change_info, target_change_info }, cur))
    }
}

#[derive(Clone, Debug, PartialEq, Eq)]
pub struct RpcSecGssInfo {
    pub oid: SecOid,
    pub qop: Qop,
    pub service: RpcGssService,
}

/// What a [`RpcSecGssInfo`] stands for.
pub struct RpcSecGssInfoModel {
    pub oid: SecOidModel,
    pub qop: Qop,
    pub service: RpcGssService,
}

impl Xdr for RpcSecGssInfo {
    type Model = RpcSecGssInfoModel;

    #[verifier::opaque]
    open spec fn model(&self) -> RpcSecGssInfoModel {
        RpcSecGssInfoModel {
            oid: self.oid.model(),
            qop: self.qop.model(),
            service: self.service.model(),
        }
    }

    #[verifier::opaque]
    open spec fn wf(m: RpcSecGssInfoModel) -> bool {
        &&& SecOid::wf(m.oid)
        &&& Qop::wf(m.qop)
        &&& RpcGssService::wf(m.service)
    }

    #[verifier::opaque]
    open spec fn wire(m: RpcSecGssInfoModel) -> Seq<u8> {
        SecOid::wire(m.oid) + Qop::wire(m.qop) + RpcGssService::wire(m.service)
    }

    #[verifier::opaque]
    open spec fn parse(s: Seq<u8>) -> Result<(RpcSecGssInfoModel, Seq<u8>), XdrError> {
        match SecOid::parse(s) {
            Err(e) => Err(e),
            Ok((oid, s1)) => match Qop::parse(s1) {
                Err(e) => Err(e),
                Ok((qop, s2)) => match RpcGssService::parse(s2) {
                    Err(e) => Err(e),
                    Ok((service, s3)) => Ok((RpcSecGssInfoModel { oid, qop, service }, s3)),
                },
            },
        }
    }

    proof fn lemma_round_trip(m: RpcSecGssInfoModel, rest: Seq<u8>) {
        reveal(<RpcSecGssInfo as Xdr>::wf);
        reveal(<RpcSecGssInfo as Xdr>::wire);
        reveal(<RpcSecGssInfo as Xdr>::parse);
        let w1 = SecOid::wire(m.oid);
        let w2 = Qop::wire(m.qop);
        let w3 = RpcGssService::wire(m.service);
        let r3 = rest;
        let r2 = w3 + r3;
        let r1 = w2 + r2;
        lemma_concat_assoc(w1 + w2, w3, r3);
        lemma_concat_assoc(w1, w2, r2);
        SecOid::lemma_round_trip(m.oid, r1);
        Qop::lemma_round_trip(m.qop, r2);
        RpcGssService::lemma_round_trip(m.service, r3);
    }

    fn encode(&self, out: &mut Vec<u8>) -> (r: Result<(), EncodeError>) {
        proof {
            reveal(<RpcSecGssInfo as Xdr>::model);
            reveal(<RpcSecGssInfo as Xdr>::wf);
            reveal(<RpcSecGssInfo as Xdr>::wire);
        }
        let ghost m = self.model();
        let ghost w1 = SecOid::wire(m.oid);
        let ghost w2 = Qop::wire(m.qop);
        let ghost w3 = RpcGssService::wire(m.service);
        self.oid.encode(out)?;
        self.qop.encode(out)?;
        proof {
            lemma_concat_assoc(old(out)@, w1, w2);
        }
        self.service.encode(out)?;
        proof {
            lemma_concat_assoc(old(out)@, w1 + w2, w3);
        }
        Ok(())
    }

    fn decode<'a>(input: &'a [u8]) -> (r: Result<(RpcSecGssInfo, &'a [u8]), XdrError>) {
        proof {
            reveal(<RpcSecGssInfo as Xdr>::model);
            reveal(<RpcSecGssInfo as Xdr>::parse);
        }
        let (oid, cur) = SecOid::decode(input)?;
        let (qop, cur) = Qop::decode(cur)?;
        let (service, cur) = RpcGssService::decode(cur)?;
        Ok((RpcSecGssInfo { oid, qop, service }, cur))
    }
}

#[derive(Clone, Debug, PartialEq, Eq)]
pub enum SecurityInfo {
    Null,
    Sys,
    RpcSecGss { flavor_info: RpcSecGssInfo },
}

/// What a [`SecurityInfo`] stands for.
pub enum SecurityInfoModel {
    Null,
    Sys,
    RpcSecGss { flavor_info: RpcSecGssInfoModel },
}

impl SecurityInfo {
    /// The discriminant that leads the encoding of a value.
    pub open spec fn tag(m: SecurityInfoModel) -> u32 {
        match m {
            SecurityInfoModel::Null => 0,
            SecurityInfoModel::Sys => 1,
            SecurityInfoModel::RpcSecGss { .. } => 6,
        }
    }

    /// What follows the discriminant in the encoding of a value.
    #[verifier::opaque]
    pub open spec fn wire_payload(m: SecurityInfoModel) -> Seq<u8> {
        match m {
            SecurityInfoModel::Null => Seq::<u8>::empty(),
            SecurityInfoModel::Sys => Seq::<u8>::empty(),
            SecurityInfoModel::RpcSecGss { flavor_info } => RpcSecGssInfo::wire(flavor_info),
        }
    }

    /// The value with the discriminant `tag` whose payload is at the front of `s`.
    #[verifier::opaque]
    pub open spec fn parse_payload(
        tag: u32,
        s: Seq<u8>,
    ) -> Result<(SecurityInfoModel, Seq<u8>), XdrError> {
        if tag == 0 {
            Ok((SecurityInfoModel::Null, s))
        } else if tag == 1 {
            Ok((SecurityInfoModel::Sys, s))
        } else if tag == 6 {
            match RpcSecGssInfo::parse(s) {
                Err(e) => Err(e),
                Ok((flavor_info, s1)) => Ok((SecurityInfoModel::RpcSecGss { flavor_info }, s1)),
            }
        } else {
            Err(XdrError::BadDiscriminant("SecurityInfo", tag))
        }
    }

    pub proof fn lemma_payload_round_trip(m: SecurityInfoModel, rest: Seq<u8>)
        requires
            <SecurityInfo as Xdr>::wf(m),
        ensures
            Self::parse_payload(Self::tag(m), Self::wire_payload(m) + rest)
                == Ok::<(SecurityInfoModel, Seq<u8>), XdrError>((m, rest)),
    {
        reveal(<SecurityInfo as Xdr>::wf);
        reveal(SecurityInfo::wire_payload);
        reveal(SecurityInfo::parse_payload);
        match m {
            SecurityInfoModel::Null => {
                assert(Seq::<u8>::empty() + rest =~= rest);
            },
            SecurityInfoModel::Sys => {
                assert(Seq::<u8>::empty() + rest =~= rest);
            },
            SecurityInfoModel::RpcSecGss { flavor_info } => {
                RpcSecGssInfo::lemma_round_trip(flavor_info, rest);
            },
        }
    }

    /// The encoding of a value begins with its discriminant, big-endian.
    pub proof fn lemma_wire_leads_with_tag(m: SecurityInfoModel)
        ensures
            <SecurityInfo as Xdr>::wire(m).len() >= 4,
            <SecurityInfo as Xdr>::wire(m).take(4) == wire_u32(Self::tag(m)),
    {
        reveal(<SecurityInfo as Xdr>::wire);
        reveal(wire_u32);
        assert((wire_u32(Self::tag(m)) + Self::wire_payload(m)).take(4) =~= wire_u32(Self::tag(m)));
    }

    /// The discriminant of a value.
    pub fn tag_of(&self) -> (t: u32)
        ensures
            t == Self::tag(self.model()),
    {
        proof {
            reveal(<SecurityInfo as Xdr>::model);
        }
        match self {
            SecurityInfo::Null => 0,
            SecurityInfo::Sys => 1,
            SecurityInfo::RpcSecGss { .. } => 6,
        }
    }

    /// Appends what follows the discriminant in the encoding of `self`.
    pub fn encode_payload(&self, out: &mut Vec<u8>) -> (r: Result<(), EncodeError>)
        ensures
            r is Ok <==> <SecurityInfo as Xdr>::wf(self.model()),
            r is Ok ==> final(out)@ == old(out)@ + Self::wire_payload(self.model()),
    {
        proof {
            reveal(<SecurityInfo as Xdr>::model);
            reveal(<SecurityInfo as Xdr>::wf);
            reveal(SecurityInfo::wire_payload);
        }
        match self {
            SecurityInfo::Null => {
                assert(out@ =~= old(out)@ + Seq::<u8>::empty());
            },
            SecurityInfo::Sys => {
                assert(out@ =~= old(out)@ + Seq::<u8>::empty());
            },
            SecurityInfo::RpcSecGss { flavor_info } => {
                flavor_info.encode(out)?;
            },
        }
        Ok(())
    }

    /// Decodes the payload of the value with the discriminant `tag`.
    pub fn decode_payload<'a>(
        tag: u32,
        input: &'a [u8],
    ) -> (r: Result<(SecurityInfo, &'a [u8]), XdrError>)
        ensures
            match r {
                Ok((v, rest)) => {
                    Self::parse_payload(tag, input@)
                        == Ok::<(SecurityInfoModel, Seq<u8>), XdrError>((v.model(), rest@))
                },
                Err(e) => {
                    Self::parse_payload(tag, input@)
                        == Err::<(SecurityInfoModel, Seq<u8>), XdrError>(e)
                },
            },
    {
        proof {
            reveal(<SecurityInfo as Xdr>::model);
            reveal(SecurityInfo::parse_payload);
        }
        if tag == 0 {
            Ok((SecurityInfo::Null, input))
        } else if tag == 1 {
            Ok((SecurityInfo::Sys, input))
        } else if tag == 6 {
            let (flavor_info, cur) = RpcSecGssInfo::decode(input)?;
            Ok((SecurityInfo::RpcSecGss { flavor_info }, cur))
        } else {
            Err(XdrError::BadDiscriminant("SecurityInfo", tag))
        }
    }
}

impl Xdr for SecurityInfo {
    type Model = SecurityInfoModel;

    #[verifier::opaque]
    open spec fn model(&self) -> SecurityInfoModel {
        match self {
            SecurityInfo::Null => SecurityInfoModel::Null,
            SecurityInfo::Sys => SecurityInfoModel::Sys,
            SecurityInfo::RpcSecGss { flavor_info } => {
                SecurityInfoModel::RpcSecGss { flavor_info: flavor_info.model() }
            },
        }
    }

    #[verifier::opaque]
    open spec fn wf(m: SecurityInfoModel) -> bool {
        match m {
            SecurityInfoModel::Null => true,
            SecurityInfoModel::Sys => true,
            SecurityInfoModel::RpcSecGss { flavor_info } => RpcSecGssInfo::wf(flavor_info),
        }
    }

    #[verifier::opaque]
    open spec fn wire(m: SecurityInfoModel) -> Seq<u8> {
        wire_u32(Self::tag(m)) + Self::wire_payload(m)
    }

    #[verifier::opaque]
    open spec fn parse(s: Seq<u8>) -> Result<(SecurityInfoModel, Seq<u8>), XdrError> {
        match parse_u32(s) {
            Ok((tag, r)) => Self::parse_payload(tag, r),
            Err(e) => Err(e),
        }
    }

    proof fn lemma_round_trip(m: SecurityInfoModel, rest: Seq<u8>) {
        reveal(<SecurityInfo as Xdr>::wire);
        reveal(<SecurityInfo as Xdr>::parse);
        lemma_concat_assoc(wire_u32(Self::tag(m)), Self::wire_payload(m), rest);
        lemma_u32_round_trip(Self::tag(m), Self::wire_payload(m) + rest);
        Self::lemma_payload_round_trip(m, rest);
    }

    fn encode(&self, out: &mut Vec<u8>) -> (r: Result<(), EncodeError>) {
        proof {
            reveal(<SecurityInfo as Xdr>::wire);
        }
        let tag = self.tag_of();
        let _ = tag.encode(out);
        self.encode_payload(out)?;
        proof {
            lemma_concat_assoc(old(out)@, wire_u32(tag), Self::wire_payload(self.model()));
        }
        Ok(())
    }

    fn decode<'a>(input: &'a [u8]) -> (r: Result<(SecurityInfo, &'a [u8]), XdrError>) {
        proof {
            reveal(<SecurityInfo as Xdr>::parse);
        }
        let (tag, cur) = u32::decode(input)?;
        Self::decode_payload(tag, cur)
    }
}

#[derive(Clone, Debug, PartialEq, Eq)]
pub struct SecInfoRes {
    pub body: Vec<SecurityInfo>,
}

/// What a [`SecInfoRes`] stands for.
pub struct SecInfoResModel {
    pub body: Seq<SecurityInfoModel>,
}

impl Xdr for SecInfoRes {
    type Model = SecInfoResModel;

    #[verifier::opaque]
    open spec fn model(&self) -> SecInfoResModel {
        SecInfoResModel { body: self.body.model() }
    }

    #[verifier::opaque]
    open spec fn wf(m: SecInfoResModel) -> bool {
        &&& Vec::<SecurityInfo>::wf(m.body)
    }

    #[verifier::opaque]
    open spec fn wire(m: SecInfoResModel) -> Seq<u8> {
        Vec::<SecurityInfo>::wire(m.body)
    }

    #[verifier::opaque]
    open spec fn parse(s: Seq<u8>) -> Result<(SecInfoResModel, Seq<u8>), XdrError> {
        match Vec::<SecurityInfo>::parse(s) {
            Err(e) => Err(e),
            Ok((body, s1)) => Ok((SecInfoResModel { body }, s1)),
        }
    }

    proof fn lemma_round_trip(m: SecInfoResModel, rest: Seq<u8>) {
        reveal(<SecInfoRes as Xdr>::wf);
        reveal(<SecInfoRes as Xdr>::wire);
        reveal(<SecInfoRes as Xdr>::parse);
        Vec::<SecurityInfo>::lemma_round_trip(m.body, rest);
    }

    fn encode(&self, out: &mut Vec<u8>) -> (r: Result<(), EncodeError>) {
        proof {
            reveal(<SecInfoRes as Xdr>::model);
            reveal(<SecInfoRes as Xdr>::wf);
            reveal(<SecInfoRes as Xdr>::wire);
        }
        self.body.encode(out)?;
        Ok(())
    }

    fn decode<'a>(input: &'a [u8]) -> (r: Result<(SecInfoRes, &'a [u8]), XdrError>) {
        proof {
            reveal(<SecInfoRes as Xdr>::model);
            reveal(<SecInfoRes as Xdr>::parse);
        }
        let (body, cur) = Vec::<SecurityInfo>::decode(input)?;
        Ok((SecInfoRes { body }, cur))
    }
}

#[derive(Clone, Debug, PartialEq, Eq)]
pub struct SetAttrRes {
    pub attr_set: EnumSet<FileAttributeId>,
}

/// What a [`SetAttrRes`] stands for.
pub struct SetAttrResModel {
    pub attr_set: Seq<FileAttributeId>,
}

impl Xdr for SetAttrRes {
    type Model = SetAttrResModel;

    #[verifier::opaque]
    open spec fn model(&self) -> SetAttrResModel {
        SetAttrResModel { attr_set: self.attr_set.model() }
    }

    #[verifier::opaque]
    open spec fn wf(m: SetAttrResModel) -> bool {
        &&& EnumSet::<FileAttributeId>::wf(m.attr_set)
    }

    #[verifier::opaque]
    open spec fn wire(m: SetAttrResModel) -> Seq<u8> {
        EnumSet::<FileAttributeId>::wire(m.attr_set)
    }

    #[verifier::opaque]
    open spec fn parse(s: Seq<u8>) -> Result<(SetAttrResModel, Seq<u8>), XdrError> {
        match EnumSet::<FileAttributeId>::parse(s) {
            Err(e) => Err(e),
            Ok((attr_set, s1)) => Ok((SetAttrResModel { attr_set }, s1)),
        }
    }

    proof fn lemma_round_trip(m: SetAttrResModel, rest: Seq<u8>) {
        reveal(<SetAttrRes as Xdr>::wf);
        reveal(<SetAttrRes as Xdr>::wire);
        reveal(<SetAttrRes as Xdr>::parse);
        EnumSet::<FileAttributeId>::lemma_round_trip(m.attr_set, rest);
    }

    fn encode(&self, out: &mut Vec<u8>) -> (r: Result<(), EncodeError>) {
        proof {
            reveal(<SetAttrRes as Xdr>::model);
            reveal(<SetAttrRes as Xdr>::wf);
            reveal(<SetAttrRes as Xdr>::wire);
        }
        self.attr_set.encode(out)?;
        Ok(())
    }

    fn decode<'a>(input: &'a [u8]) -> (r: Result<(SetAttrRes, &'a [u8]), XdrError>) {
        proof {
            reveal(<SetAttrRes as Xdr>::model);
            reveal(<SetAttrRes as Xdr>::parse);
        }
        let (attr_set, cur) = EnumSet::<FileAttributeId>::decode(input)?;
        Ok((SetAttrRes { attr_set }, cur))
    }
}

#[derive(Clone, Debug, PartialEq, Eq)]
pub struct SetAttrStatusResult {
    pub status: StatusResult<()>,
    pub res: SetAttrRes,
}

/// What a [`SetAttrStatusResult`] stands for.
pub struct SetAttrStatusResultModel {
    pub status: StatusResult<()>,
    pub res: SetAttrResModel,
}

impl Xdr for SetAttrStatusResult {
    type Model = SetAttrStatusResultModel;

    #[verifier::opaque]
    open spec fn model(&self) -> SetAttrStatusResultModel {
        SetAttrStatusResultModel { status: self.status.model(), res: self.res.model() }
    }

    #[verifier::opaque]
    open spec fn wf(m: SetAttrStatusResultModel) -> bool {
        &&& StatusResult::<()>::wf(m.status)
        &&& SetAttrRes::wf(m.res)
    }

    #[verifier::opaque]
    open spec fn wire(m: SetAttrStatusResultModel) -> Seq<u8> {
        StatusResult::<()>::wire(m.status) + SetAttrRes::wire(m.res)
    }

    #[verifier::opaque]
    open spec fn parse(s: Seq<u8>) -> Result<(SetAttrStatusResultModel, Seq<u8>), XdrError> {
        match StatusResult::<()>::parse(s) {
            Err(e) => Err(e),
            Ok((status, s1)) => match SetAttrRes::parse(s1) {
                Err(e) => Err(e),
                Ok((res, s2)) => Ok((SetAttrStatusResultModel { status, res }, s2)),
            },
        }
    }

    proof fn lemma_round_trip(m: SetAttrStatusResultModel, rest: Seq<u8>) {
        reveal(<SetAttrStatusResult as Xdr>::wf);
        reveal(<SetAttrStatusResult as Xdr>::wire);
        reveal(<SetAttrStatusResult as Xdr>::parse);
        let w1 = StatusResult::<()>::wire(m.status);
        let w2 = SetAttrRes::wire(m.res);
        let r2 = rest;
        let r1 = w2 + r2;
        lemma_concat_assoc(w1, w2, r2);
        StatusResult::<()>::lemma_round_trip(m.status, r1);
        SetAttrRes::lemma_round_trip(m.res, r2);
    }

    fn encode(&self, out: &mut Vec<u8>) -> (r: Result<(), EncodeError>) {
        proof {
            reveal(<SetAttrStatusResult as Xdr>::model);
            reveal(<SetAttrStatusResult as Xdr>::wf);
            reveal(<SetAttrStatusResult as Xdr>::wire);
        }
        let ghost m = self.model();
        let ghost w1 = StatusResult::<()>::wire(m.status);
        let ghost w2 = SetAttrRes::wire(m.res);
        self.status.encode(out)?;
        self.res.encode(out)?;
        proof {
            lemma_concat_assoc(old(out)@, w1, w2);
        }
        Ok(())
    }

    fn decode<'a>(input: &'a [u8]) -> (r: Result<(SetAttrStatusResult, &'a [u8]), XdrError>) {
        proof {
            reveal(<SetAttrStatusResult as Xdr>::model);
            reveal(<SetAttrStatusResult as Xdr>::parse);
        }
        let (status, cur) = StatusResult::<()>::decode(input)?;
        let (res, cur) = SetAttrRes::decode(cur)?;
        Ok((SetAttrStatusResult { status, res }, cur))
    }
}

#[derive(Clone, Debug, PartialEq, Eq)]
pub struct WriteRes {
    pub count: u32,
    pub committed: StableHow,
    pub write_veritifer: Verifier,
}

impl Xdr for WriteRes {
    type Model = WriteRes;

    open spec fn model(&self) -> WriteRes {
        *self
    }

    #[verifier::opaque]
    open spec fn wf(m: WriteRes) -> bool {
        &&& StableHow::wf(m.committed)
        &&& Verifier::wf(m.write_veritifer)
    }

    #[verifier::opaque]
    open spec fn wire(m: WriteRes) -> Seq<u8> {
        u32::wire(m.count) + StableHow::wire(m.committed) + Verifier::wire(m.write_veritifer)
    }

    #[verifier::opaque]
    open spec fn parse(s: Seq<u8>) -> Result<(WriteRes, Seq<u8>), XdrError> {
        match u32::parse(s) {
            Err(e) => Err(e),
            Ok((count, s1)) => match StableHow::parse(s1) {
                Err(e) => Err(e),
                Ok((committed, s2)) => match Verifier::parse(s2) {
                    Err(e) => Err(e),
                    Ok((write_veritifer, s3)) => {
                        Ok((WriteRes { count, committed, write_veritifer }, s3))
                    },
                },
            },
        }
    }

    proof fn lemma_round_trip(m: WriteRes, rest: Seq<u8>) {
        reveal(<WriteRes as Xdr>::wf);
        reveal(<WriteRes as Xdr>::wire);
        reveal(<WriteRes as Xdr>::parse);
        let w1 = u32::wire(m.count);
        let w2 = StableHow::wire(m.committed);
        let w3 = Verifier::wire(m.write_veritifer);
        let r3 = rest;
        let r2 = w3 + r3;
        let r1 = w2 + r2;
        lemma_concat_assoc(w1 + w2, w3, r3);
        lemma_concat_assoc(w1, w2, r2);
        u32::lemma_round_trip(m.count, r1);
        StableHow::lemma_round_trip(m.committed, r2);
        Verifier::lemma_round_trip(m.write_veritifer, r3);
    }

    fn encode(&self, out: &mut Vec<u8>) -> (r: Result<(), EncodeError>) {
        proof {
            reveal(<WriteRes as Xdr>::wf);
            reveal(<WriteRes as Xdr>::wire);
        }
        let ghost m = self.model();
        let ghost w1 = u32::wire(m.count);
        let ghost w2 = StableHow::wire(m.committed);
        let ghost w3 = Verifier::wire(m.write_veritifer);
        let _ = self.count.encode(out);
        self.committed.encode(out)?;
        proof {
            lemma_concat_assoc(old(out)@, w1, w2);
        }
        self.write_veritifer.encode(out)?;
        proof {
            lemma_concat_assoc(old(out)@, w1 + w2, w3);
        }
        Ok(())
    }

    fn decode<'a>(input: &'a [u8]) -> (r: Result<(WriteRes, &'a [u8]), XdrError>) {
        proof {
            reveal(<WriteRes as Xdr>::parse);
        }
        let (count, cur) = u32::decode(input)?;
        let (committed, cur) = StableHow::decode(cur)?;
        let (write_veritifer, cur) = Verifier::decode(cur)?;
        Ok((WriteRes { count, committed, write_veritifer }, cur))
    }
}

#[derive(Clone, Debug, PartialEq, Eq)]
pub struct BindConnToSessionRes {
    pub session_id: SessionId,
    pub direction: ChannelDirectionFromServer,
    pub use_connection_in_rdma_mode: bool,
}

/// What a [`BindConnToSessionRes`] stands for.
pub struct BindConnToSessionResModel {
    pub session_id: SessionIdModel,
    pub direction: ChannelDirectionFromServer,
    pub use_connection_in_rdma_mode: bool,
}

impl Xdr for BindConnToSessionRes {
    type Model = BindConnToSessionResModel;

    #[verifier::opaque]
    open spec fn model(&self) -> BindConnToSessionResModel {
        BindConnToSessionResModel {
            session_id: self.session_id.model(),
            direction: self.direction.model(),
            use_connection_in_rdma_mode: self.use_connection_in_rdma_mode.model(),
        }
    }

    #[verifier::opaque]
    open spec fn wf(m: BindConnToSessionResModel) -> bool {
        &&& SessionId::wf(m.session_id)
        &&& ChannelDirectionFromServer::wf(m.direction)
    }

    #[verifier::opaque]
    open spec fn wire(m: BindConnToSessionResModel) -> Seq<u8> {
        SessionId::wire(m.session_id)
            + ChannelDirectionFromServer::wire(m.direction)
            + bool::wire(m.use_connection_in_rdma_mode)
    }

    #[verifier::opaque]
    open spec fn parse(s: Seq<u8>) -> Result<(BindConnToSessionResModel, Seq<u8>), XdrError> {
        match SessionId::parse(s) {
            Err(e) => Err(e),
            Ok((session_id, s1)) => match ChannelDirectionFromServer::parse(s1) {
                Err(e) => Err(e),
                Ok((direction, s2)) => match bool::parse(s2) {
                    Err(e) => Err(e),
                    Ok((use_connection_in_rdma_mode, s3)) => {
                        Ok(
                            (
                                BindConnToSessionResModel {
                                    session_id,
                                    direction,
                                    use_connection_in_rdma_mode,
                                },
                                s3,
                            ),
                        )
                    },
                },
            },
        }
    }

    proof fn lemma_round_trip(m: BindConnToSessionResModel, rest: Seq<u8>) {
        reveal(<BindConnToSessionRes as Xdr>::wf);
        reveal(<BindConnToSessionRes as Xdr>::wire);
        reveal(<BindConnToSessionRes as Xdr>::parse);
        let w1 = SessionId::wire(m.session_id);
        let w2 = ChannelDirectionFromServer::wire(m.direction);
        let w3 = bool::wire(m.use_connection_in_rdma_mode);
        let r3 = rest;
        let r2 = w3 + r3;
        let r1 = w2 + r2;
        lemma_concat_assoc(w1 + w2, w3, r3);
        lemma_concat_assoc(w1, w2, r2);
        SessionId::lemma_round_trip(m.session_id, r1);
        ChannelDirectionFromServer::lemma_round_trip(m.direction, r2);
        bool::lemma_round_trip(m.use_connection_in_rdma_mode, r3);
    }

    fn encode(&self, out: &mut Vec<u8>) -> (r: Result<(), EncodeError>) {
        proof {
            reveal(<BindConnToSessionRes as Xdr>::model);
            reveal(<BindConnToSessionRes as Xdr>::wf);
            reveal(<BindConnToSessionRes as Xdr>::wire);
        }
        let ghost m = self.model();
        let ghost w1 = SessionId::wire(m.session_id);
        let ghost w2 = ChannelDirectionFromServer::wire(m.direction);
        let ghost w3 = bool::wire(m.use_connection_in_rdma_mode);
        self.session_id.encode(out)?;
        self.direction.encode(out)?;
        proof {
            lemma_concat_assoc(old(out)@, w1, w2);
        }
        let _ = self.use_connection_in_rdma_mode.encode(out);
        proof {
            lemma_concat_assoc(old(out)@, w1 + w2, w3);
        }
        Ok(())
    }

    fn decode<'a>(input: &'a [u8]) -> (r: Result<(BindConnToSessionRes, &'a [u8]), XdrError>) {
        proof {
            reveal(<BindConnToSessionRes as Xdr>::model);
            reveal(<BindConnToSessionRes as Xdr>::parse);
        }
        let (session_id, cur) = SessionId::decode(input)?;
        let (direction, cur) = ChannelDirectionFromServer::decode(cur)?;
        let (use_connection_in_rdma_mode, cur) = bool::decode(cur)?;
        Ok((BindConnToSessionRes { session_id, direction, use_connection_in_rdma_mode }, cur))
    }
}

#[derive(Clone, Debug, PartialEq, Eq)]
pub struct ServerOwner {
    pub minor_id: u64,
    pub major_id: Vec<u8>,
}

/// What a [`ServerOwner`] stands for.
pub struct ServerOwnerModel {
    pub minor_id: u64,
    pub major_id: Seq<u8>,
}

impl Xdr for ServerOwner {
    type Model = ServerOwnerModel;

    #[verifier::opaque]
    open spec fn model(&self) -> ServerOwnerModel {
        ServerOwnerModel { minor_id: self.minor_id.model(), major_id: self.major_id@ }
    }

    #[verifier::opaque]
    open spec fn wf(m: ServerOwnerModel) -> bool {
        &&& wf_opaque(m.major_id)
    }

    #[verifier::opaque]
    open spec fn wire(m: ServerOwnerModel) -> Seq<u8> {
        u64::wire(m.minor_id) + wire_opaque(m.major_id)
    }

    #[verifier::opaque]
    open spec fn parse(s: Seq<u8>) -> Result<(ServerOwnerModel, Seq<u8>), XdrError> {
        match u64::parse(s) {
            Err(e) => Err(e),
            Ok((minor_id, s1)) => match parse_opaque(s1) {
                Err(e) => Err(e),
                Ok((major_id, s2)) => Ok((ServerOwnerModel { minor_id, major_id }, s2)),
            },
        }
    }

    proof fn lemma_round_trip(m: ServerOwnerModel, rest: Seq<u8>) {
        reveal(<ServerOwner as Xdr>::wf);
        reveal(<ServerOwner as Xdr>::wire);
        reveal(<ServerOwner as Xdr>::parse);
        let w1 = u64::wire(m.minor_id);
        let w2 = wire_opaque(m.major_id);
        let r2 = rest;
        let r1 = w2 + r2;
        lemma_concat_assoc(w1, w2, r2);
        u64::lemma_round_trip(m.minor_id, r1);
        lemma_opaque_round_trip(m.major_id, r2);
    }

    fn encode(&self, out: &mut Vec<u8>) -> (r: Result<(), EncodeError>) {
        proof {
            reveal(<ServerOwner as Xdr>::model);
            reveal(<ServerOwner as Xdr>::wf);
            reveal(<ServerOwner as Xdr>::wire);
        }
        let ghost m = self.model();
        let ghost w1 = u64::wire(m.minor_id);
        let ghost w2 = wire_opaque(m.major_id);
        let _ = self.minor_id.encode(out);
        encode_opaque(self.major_id.as_slice(), out)?;
        proof {
            lemma_concat_assoc(old(out)@, w1, w2);
        }
        Ok(())
    }

    fn decode<'a>(input: &'a [u8]) -> (r: Result<(ServerOwner, &'a [u8]), XdrError>) {
        proof {
            reveal(<ServerOwner as Xdr>::model);
            reveal(<ServerOwner as Xdr>::parse);
        }
        let (minor_id, cur) = u64::decode(input)?;
        let (major_id, cur) = decode_opaque(cur)?;
        let major_id = copy_bytes(major_id);
        Ok((ServerOwner { minor_id, major_id }, cur))
    }
}

#[derive(Clone, Debug, PartialEq, Eq)]
pub struct ServerScope(pub Vec<u8>);

/// What a [`ServerScope`] stands for.
pub struct ServerScopeModel(pub Seq<u8>);

impl Xdr for ServerScope {
    type Model = ServerScopeModel;

    #[verifier::opaque]
    open spec fn model(&self) -> ServerScopeModel {
        ServerScopeModel(self.0@)
    }

    #[verifier::opaque]
    open spec fn wf(m: ServerScopeModel) -> bool {
        &&& wf_opaque(m.0)
    }

    #[verifier::opaque]
    open spec fn wire(m: ServerScopeModel) -> Seq<u8> {
        wire_opaque(m.0)
    }

    #[verifier::opaque]
    open spec fn parse(s: Seq<u8>) -> Result<(ServerScopeModel, Seq<u8>), XdrError> {
        match parse_opaque(s) {
            Err(e) => Err(e),
            Ok((f0, s1)) => Ok((ServerScopeModel(f0), s1)),
        }
    }

    proof fn lemma_round_trip(m: ServerScopeModel, rest: Seq<u8>) {
        reveal(<ServerScope as Xdr>::wf);
        reveal(<ServerScope as Xdr>::wire);
        reveal(<ServerScope as Xdr>::parse);
        lemma_opaque_round_trip(m.0, rest);
    }

    fn encode(&self, out: &mut Vec<u8>) -> (r: Result<(), EncodeError>) {
        proof {
            reveal(<ServerScope as Xdr>::model);
            reveal(<ServerScope as Xdr>::wf);
            reveal(<ServerScope as Xdr>::wire);
        }
        encode_opaque(self.0.as_slice(), out)?;
        Ok(())
    }

    fn decode<'a>(input: &'a [u8]) -> (r: Result<(ServerScope, &'a [u8]), XdrError>) {
        proof {
            reveal(<ServerScope as Xdr>::model);
            reveal(<ServerScope as Xdr>::parse);
        }
        let (f0, cur) = decode_opaque(input)?;
        let f0 = copy_bytes(f0);
        Ok((ServerScope(f0), cur))
    }
}

#[derive(Clone, Debug, PartialEq, Eq)]
pub struct ExchangeIdRes {
    pub client_id: ClientId,
    pub sequence_id: SequenceId,
    pub flags: ExchangeIdFlags,
    pub state_protect: StateProtect,
    pub server_owner: ServerOwner,
    pub server_scope: ServerScope,
    pub server_impl_id: Option<ImplId>,
}

/// What a [`ExchangeIdRes`] stands for.
pub struct ExchangeIdResModel {
    pub client_id: ClientId,
    pub sequence_id: SequenceId,
    pub flags: ExchangeIdFlags,
    pub state_protect: StateProtectModel,
    pub server_owner: ServerOwnerModel,
    pub server_scope: ServerScopeModel,
    pub server_impl_id: Option<ImplIdModel>,
}

impl Xdr for ExchangeIdRes {
    type Model = ExchangeIdResModel;

    #[verifier::opaque]
    open spec fn model(&self) -> ExchangeIdResModel {
        ExchangeIdResModel {
            client_id: self.client_id.model(),
            sequence_id: self.sequence_id.model(),
            flags: self.flags.model(),
            state_protect: self.state_protect.model(),
            server_owner: self.server_owner.model(),
            server_scope: self.server_scope.model(),
            server_impl_id: self.server_impl_id.model(),
        }
    }

    #[verifier::opaque]
    open spec fn wf(m: ExchangeIdResModel) -> bool {
        &&& ClientId::wf(m.client_id)
        &&& SequenceId::wf(m.sequence_id)
        &&& ExchangeIdFlags::wf(m.flags)
        &&& StateProtect::wf(m.state_protect)
        &&& ServerOwner::wf(m.server_owner)
        &&& ServerScope::wf(m.server_scope)
        &&& Option::<ImplId>::wf(m.server_impl_id)
    }

    #[verifier::opaque]
    open spec fn wire(m: ExchangeIdResModel) -> Seq<u8> {
        ClientId::wire(m.client_id)
            + SequenceId::wire(m.sequence_id)
            + ExchangeIdFlags::wire(m.flags)
            + StateProtect::wire(m.state_protect)
            + ServerOwner::wire(m.server_owner)
            + ServerScope::wire(m.server_scope)
            + Option::<ImplId>::wire(m.server_impl_id)
    }

    #[verifier::opaque]
    open spec fn parse(s: Seq<u8>) -> Result<(ExchangeIdResModel, Seq<u8>), XdrError> {
        match ClientId::parse(s) {
            Err(e) => Err(e),
            Ok((client_id, s1)) => match SequenceId::parse(s1) {
                Err(e) => Err(e),
                Ok((sequence_id, s2)) => match ExchangeIdFlags::parse(s2) {
                    Err(e) => Err(e),
                    Ok((flags, s3)) => match StateProtect::parse(s3) {
                        Err(e) => Err(e),
                        Ok((state_protect, s4)) => match ServerOwner::parse(s4) {
                            Err(e) => Err(e),
                            Ok((server_owner, s5)) => match ServerScope::parse(s5) {
                                Err(e) => Err(e),
                                Ok((server_scope, s6)) => match Option::<ImplId>::parse(s6) {
                                    Err(e) => Err(e),
                                    Ok((server_impl_id, s7)) => {
                                        Ok(
                                            (
                                                ExchangeIdResModel {
                                                    client_id,
                                                    sequence_id,
                                                    flags,
                                                    state_protect,
                                                    server_owner,
                                                    server_scope,
                                                    server_impl_id,
                                                },
                                                s7,
                                            ),
                                        )
                                    },
                                },
                            },
                        },
                    },
                },
            },
        }
    }

    proof fn lemma_round_trip(m: ExchangeIdResModel, rest: Seq<u8>) {
        reveal(<ExchangeIdRes as Xdr>::wf);
        reveal(<ExchangeIdRes as Xdr>::wire);
        reveal(<ExchangeIdRes as Xdr>::parse);
        let w1 = ClientId::wire(m.client_id);
        let w2 = SequenceId::wire(m.sequence_id);
        let w3 = ExchangeIdFlags::wire(m.flags);
        let w4 = StateProtect::wire(m.state_protect);
        let w5 = ServerOwner::wire(m.server_owner);
        let w6 = ServerScope::wire(m.server_scope);
        let w7 = Option::<ImplId>::wire(m.server_impl_id);
        let r7 = rest;
        let r6 = w7 + r7;
        let r5 = w6 + r6;
        let r4 = w5 + r5;
        let r3 = w4 + r4;
        let r2 = w3 + r3;
        let r1 = w2 + r2;
        lemma_concat_assoc(w1 + w2 + w3 + w4 + w5 + w6, w7, r7);
        lemma_concat_assoc(w1 + w2 + w3 + w4 + w5, w6, r6);
        lemma_concat_assoc(w1 + w2 + w3 + w4, w5, r5);
        lemma_concat_assoc(w1 + w2 + w3, w4, r4);
        lemma_concat_assoc(w1 + w2, w3, r3);
        lemma_concat_assoc(w1, w2, r2);
        ClientId::lemma_round_trip(m.client_id, r1);
        SequenceId::lemma_round_trip(m.sequence_id, r2);
        ExchangeIdFlags::lemma_round_trip(m.flags, r3);
        StateProtect::lemma_round_trip(m.state_protect, r4);
        ServerOwner::lemma_round_trip(m.server_owner, r5);
        ServerScope::lemma_round_trip(m.server_scope, r6);
        Option::<ImplId>::lemma_round_trip(m.server_impl_id, r7);
    }

    fn encode(&self, out: &mut Vec<u8>) -> (r: Result<(), EncodeError>) {
        proof {
            reveal(<ExchangeIdRes as Xdr>::model);
            reveal(<ExchangeIdRes as Xdr>::wf);
            reveal(<ExchangeIdRes as Xdr>::wire);
        }
        let ghost m = self.model();
        let ghost w1 = ClientId::wire(m.client_id);
        let ghost w2 = SequenceId::wire(m.sequence_id);
        let ghost w3 = ExchangeIdFlags::wire(m.flags);
        let ghost w4 = StateProtect::wire(m.state_protect);
        let ghost w5 = ServerOwner::wire(m.server_owner);
        let ghost w6 = ServerScope::wire(m.server_scope);
        let ghost w7 = Option::<ImplId>::wire(m.server_impl_id);
        self.client_id.encode(out)?;
        self.sequence_id.encode(out)?;
        proof {
            lemma_concat_assoc(old(out)@, w1, w2);
        }
        self.flags.encode(out)?;
        proof {
            lemma_concat_assoc(old(out)@, w1 + w2, w3);
        }
        self.state_protect.encode(out)?;
        proof {
            lemma_concat_assoc(old(out)@, w1 + w2 + w3, w4);
        }
        self.server_owner.encode(out)?;
        proof {
            lemma_concat_assoc(old(out)@, w1 + w2 + w3 + w4, w5);
        }
        self.server_scope.encode(out)?;
        proof {
            lemma_concat_assoc(old(out)@, w1 + w2 + w3 + w4 + w5, w6);
        }
        self.server_impl_id.encode(out)?;
        proof {
            lemma_concat_assoc(old(out)@, w1 + w2 + w3 + w4 + w5 + w6, w7);
        }
        Ok(())
    }

    fn decode<'a>(input: &'a [u8]) -> (r: Result<(ExchangeIdRes, &'a [u8]), XdrError>) {
        proof {
            reveal(<ExchangeIdRes as Xdr>::model);
            reveal(<ExchangeIdRes as Xdr>::parse);
        }
        let (client_id, cur) = ClientId::decode(input)?;
        let (sequence_id, cur) = SequenceId::decode(cur)?;
        let (flags, cur) = ExchangeIdFlags::decode(cur)?;
        let (state_protect, cur) = StateProtect::decode(cur)?;
        let (server_owner, cur) = ServerOwner::decode(cur)?;
        let (server_scope, cur) = ServerScope::decode(cur)?;
        let (server_impl_id, cur) = Option::<ImplId>::decode(cur)?;
        Ok(
            (
                ExchangeIdRes {
                    client_id,
                    sequence_id,
                    flags,
                    state_protect,
                    server_owner,
                    server_scope,
                    server_impl_id,
                },
                cur,
            ),
        )
    }
}

#[derive(Clone, Debug, PartialEq, Eq)]
pub struct CreateSessionRes {
    pub session_id: SessionId,
    pub sequence_id: SequenceId,
    pub flags: CreateSessionFlags,
    pub fore_channel_attrs: ChannelAttrs,
    pub back_channel_attrs: ChannelAttrs,
}

/// What a [`CreateSessionRes`] stands for.
pub struct CreateSessionResModel {
    pub session_id: SessionIdModel,
    pub sequence_id: SequenceId,
    pub flags: CreateSessionFlags,
    pub fore_channel_attrs: ChannelAttrsModel,
    pub back_channel_attrs: ChannelAttrsModel,
}

impl Xdr for CreateSessionRes {
    type Model = CreateSessionResModel;

    #[verifier::opaque]
    open spec fn model(&self) -> CreateSessionResModel {
        CreateSessionResModel {
            session_id: self.session_id.model(),
            sequence_id: self.sequence_id.model(),
            flags: self.flags.model(),
            fore_channel_attrs: self.fore_channel_attrs.model(),
            back_channel_attrs: self.back_channel_attrs.model(),
        }
    }

    #[verifier::opaque]
    open spec fn wf(m: CreateSessionResModel) -> bool {
        &&& SessionId::wf(m.session_id)
        &&& SequenceId::wf(m.sequence_id)
        &&& CreateSessionFlags::wf(m.flags)
        &&& ChannelAttrs::wf(m.fore_channel_attrs)
        &&& ChannelAttrs::wf(m.back_channel_attrs)
    }

    #[verifier::opaque]
    open spec fn wire(m: CreateSessionResModel) -> Seq<u8> {
        SessionId::wire(m.session_id)
            + SequenceId::wire(m.sequence_id)
            + CreateSessionFlags::wire(m.flags)
            + ChannelAttrs::wire(m.fore_channel_attrs)
            + ChannelAttrs::wire(m.back_channel_attrs)
    }

    #[verifier::opaque]
    open spec fn parse(s: Seq<u8>) -> Result<(CreateSessionResModel, Seq<u8>), XdrError> {
        match SessionId::parse(s) {
            Err(e) => Err(e),
            Ok((session_id, s1)) => match SequenceId::parse(s1) {
                Err(e) => Err(e),
                Ok((sequence_id, s2)) => match CreateSessionFlags::parse(s2) {
                    Err(e) => Err(e),
                    Ok((flags, s3)) => match ChannelAttrs::parse(s3) {
                        Err(e) => Err(e),
                        Ok((fore_channel_attrs, s4)) => match ChannelAttrs::parse(s4) {
                            Err(e) => Err(e),
                            Ok((back_channel_attrs, s5)) => {
                                Ok(
                                    (
                                        CreateSessionResModel {
                                            session_id,
                                            sequence_id,
                                            flags,
                                            fore_channel_attrs,
                                            back_channel_attrs,
                                        },
                                        s5,
                                    ),
                                )
                            },
                        },
                    },
                },
            },
        }
    }

    proof fn lemma_round_trip(m: CreateSessionResModel, rest: Seq<u8>) {
        reveal(<CreateSessionRes as Xdr>::wf);
        reveal(<CreateSessionRes as Xdr>::wire);
        reveal(<CreateSessionRes as Xdr>::parse);
        let w1 = SessionId::wire(m.session_id);
        let w2 = SequenceId::wire(m.sequence_id);
        let w3 = CreateSessionFlags::wire(m.flags);
        let w4 = ChannelAttrs::wire(m.fore_channel_attrs);
        let w5 = ChannelAttrs::wire(m.back_channel_attrs);
        let r5 = rest;
        let r4 = w5 + r5;
        let r3 = w4 + r4;
        let r2 = w3 + r3;
        let r1 = w2 + r2;
        lemma_concat_assoc(w1 + w2 + w3 + w4, w5, r5);
        lemma_concat_assoc(w1 + w2 + w3, w4, r4);
        lemma_concat_assoc(w1 + w2, w3, r3);
        lemma_concat_assoc(w1, w2, r2);
        SessionId::lemma_round_trip(m.session_id, r1);
        SequenceId::lemma_round_trip(m.sequence_id, r2);
        CreateSessionFlags::lemma_round_trip(m.flags, r3);
        ChannelAttrs::lemma_round_trip(m.fore_channel_attrs, r4);
        ChannelAttrs::lemma_round_trip(m.back_channel_attrs, r5);
    }

    fn encode(&self, out: &mut Vec<u8>) -> (r: Result<(), EncodeError>) {
        proof {
            reveal(<CreateSessionRes as Xdr>::model);
            reveal(<CreateSessionRes as Xdr>::wf);
            reveal(<CreateSessionRes as Xdr>::wire);
        }
        let ghost m = self.model();
        let ghost w1 = SessionId::wire(m.session_id);
        let ghost w2 = SequenceId::wire(m.sequence_id);
        let ghost w3 = CreateSessionFlags::wire(m.flags);
        let ghost w4 = ChannelAttrs::wire(m.fore_channel_attrs);
        let ghost w5 = ChannelAttrs::wire(m.back_channel_attrs);
        self.session_id.encode(out)?;
        self.sequence_id.encode(out)?;
        proof {
            lemma_concat_assoc(old(out)@, w1, w2);
        }
        self.flags.encode(out)?;
        proof {
            lemma_concat_assoc(old(out)@, w1 + w2, w3);
        }
        self.fore_channel_attrs.encode(out)?;
        proof {
            lemma_concat_assoc(old(out)@, w1 + w2 + w3, w4);
        }
        self.back_channel_attrs.encode(out)?;
        proof {
            lemma_concat_assoc(old(out)@, w1 + w2 + w3 + w4, w5);
        }
        Ok(())
    }

    fn decode<'a>(input: &'a [u8]) -> (r: Result<(CreateSessionRes, &'a [u8]), XdrError>) {
        proof {
            reveal(<CreateSessionRes as Xdr>::model);
            reveal(<CreateSessionRes as Xdr>::parse);
        }
        let (session_id, cur) = SessionId::decode(input)?;
        let (sequence_id, cur) = SequenceId::decode(cur)?;
        let (flags, cur) = CreateSessionFlags::decode(cur)?;
        let (fore_channel_attrs, cur) = ChannelAttrs::decode(cur)?;
        let (back_channel_attrs, cur) = ChannelAttrs::decode(cur)?;
        Ok(
            (
                CreateSessionRes {
                    session_id,
                    sequence_id,
                    flags,
                    fore_channel_attrs,
                    back_channel_attrs,
                },
                cur,
            ),
        )
    }
}

#[derive(Clone, Debug, PartialEq, Eq)]
pub struct GetDirDelegationRes {
    pub cookie_verifier: Verifier,
    pub state_id: StateId,
    pub notification: EnumSet<FileAttributeId>,
    pub child_attributes: EnumSet<FileAttributeId>,
    pub dir_attributes: EnumSet<FileAttributeId>,
}

/// What a [`GetDirDelegationRes`] stands for.
pub struct GetDirDelegationResModel {
    pub cookie_verifier: Verifier,
    pub state_id: StateIdModel,
    pub notification: Seq<FileAttributeId>,
    pub child_attributes: Seq<FileAttributeId>,
    pub dir_attributes: Seq<FileAttributeId>,
}

impl Xdr for GetDirDelegationRes {
    type Model = GetDirDelegationResModel;

    #[verifier::opaque]
    open spec fn model(&self) -> GetDirDelegationResModel {
        GetDirDelegationResModel {
            cookie_verifier: self.cookie_verifier.model(),
            state_id: self.state_id.model(),
            notification: self.notification.model(),
            child_attributes: self.child_attributes.model(),
            dir_attributes: self.dir_attributes.model(),
        }
    }

    #[verifier::opaque]
    open spec fn wf(m: GetDirDelegationResModel) -> bool {
        &&& Verifier::wf(m.cookie_verifier)
        &&& StateId::wf(m.state_id)
        &&& EnumSet::<FileAttributeId>::wf(m.notification)
        &&& EnumSet::<FileAttributeId>::wf(m.child_attributes)
        &&& EnumSet::<FileAttributeId>::wf(m.dir_attributes)
    }

    #[verifier::opaque]
    open spec fn wire(m: GetDirDelegationResModel) -> Seq<u8> {
        Verifier::wire(m.cookie_verifier)
            + StateId::wire(m.state_id)
            + EnumSet::<FileAttributeId>::wire(m.notification)
            + EnumSet::<FileAttributeId>::wire(m.child_attributes)
            + EnumSet::<FileAttributeId>::wire(m.dir_attributes)
    }

    #[verifier::opaque]
    open spec fn parse(s: Seq<u8>) -> Result<(GetDirDelegationResModel, Seq<u8>), XdrError> {
        match Verifier::parse(s) {
            Err(e) => Err(e),
            Ok((cookie_verifier, s1)) => match StateId::parse(s1) {
                Err(e) => Err(e),
                Ok((state_id, s2)) => match EnumSet::<FileAttributeId>::parse(s2) {
                    Err(e) => Err(e),
                    Ok((notification, s3)) => match EnumSet::<FileAttributeId>::parse(s3) {
                        Err(e) => Err(e),
                        Ok((child_attributes, s4)) => match EnumSet::<FileAttributeId>::parse(s4) {
                            Err(e) => Err(e),
                            Ok((dir_attributes, s5)) => {
                                Ok(
                                    (
                                        GetDirDelegationResModel {
                                            cookie_verifier,
                                            state_id,
                                            notification,
                                            child_attributes,
                                            dir_attributes,
                                        },
                                        s5,
                                    ),
                                )
                            },
                        },
                    },
                },
            },
        }
    }

    proof fn lemma_round_trip(m: GetDirDelegationResModel, rest: Seq<u8>) {
        reveal(<GetDirDelegationRes as Xdr>::wf);
        reveal(<GetDirDelegationRes as Xdr>::wire);
        reveal(<GetDirDelegationRes as Xdr>::parse);
        let w1 = Verifier::wire(m.cookie_verifier);
        let w2 = StateId::wire(m.state_id);
        let w3 = EnumSet::<FileAttributeId>::wire(m.notification);
        let w4 = EnumSet::<FileAttributeId>::wire(m.child_attributes);
        let w5 = EnumSet::<FileAttributeId>::wire(m.dir_attributes);
        let r5 = rest;
        let r4 = w5 + r5;
        let r3 = w4 + r4;
        let r2 = w3 + r3;
        let r1 = w2 + r2;
        lemma_concat_assoc(w1 + w2 + w3 + w4, w5, r5);
        lemma_concat_assoc(w1 + w2 + w3, w4, r4);
        lemma_concat_assoc(w1 + w2, w3, r3);
        lemma_concat_assoc(w1, w2, r2);
        Verifier::lemma_round_trip(m.cookie_verifier, r1);
        StateId::lemma_round_trip(m.state_id, r2);
        EnumSet::<FileAttributeId>::lemma_round_trip(m.notification, r3);
        EnumSet::<FileAttributeId>::lemma_round_trip(m.child_attributes, r4);
        EnumSet::<FileAttributeId>::lemma_round_trip(m.dir_attributes, r5);
    }

    fn encode(&self, out: &mut Vec<u8>) -> (r: Result<(), EncodeError>) {
        proof {
            reveal(<GetDirDelegationRes as Xdr>::model);
            reveal(<GetDirDelegationRes as Xdr>::wf);
            reveal(<GetDirDelegationRes as Xdr>::wire);
        }
        let ghost m = self.model();
        let ghost w1 = Verifier::wire(m.cookie_verifier);
        let ghost w2 = StateId::wire(m.state_id);
        let ghost w3 = EnumSet::<FileAttributeId>::wire(m.notification);
        let ghost w4 = EnumSet::<FileAttributeId>::wire(m.child_attributes);
        let ghost w5 = EnumSet::<FileAttributeId>::wire(m.dir_attributes);
        self.cookie_verifier.encode(out)?;
        self.state_id.encode(out)?;
        proof {
            lemma_concat_assoc(old(out)@, w1, w2);
        }
        self.notification.encode(out)?;
        proof {
            lemma_concat_assoc(old(out)@, w1 + w2, w3);
        }
        self.child_attributes.encode(out)?;
        proof {
            lemma_concat_assoc(old(out)@, w1 + w2 + w3, w4);
        }
        self.dir_attributes.encode(out)?;
        proof {
            lemma_concat_assoc(old(out)@, w1 + w2 + w3 + w4, w5);
        }
        Ok(())
    }

    fn decode<'a>(input: &'a [u8]) -> (r: Result<(GetDirDelegationRes, &'a [u8]), XdrError>) {
        proof {
            reveal(<GetDirDelegationRes as Xdr>::model);
            reveal(<GetDirDelegationRes as Xdr>::parse);
        }
        let (cookie_verifier, cur) = Verifier::decode(input)?;
        let (state_id, cur) = StateId::decode(cur)?;
        let (notification, cur) = EnumSet::<FileAttributeId>::decode(cur)?;
        let (child_attributes, cur) = EnumSet::<FileAttributeId>::decode(cur)?;
        let (dir_attributes, cur) = EnumSet::<FileAttributeId>::decode(cur)?;
        Ok(
            (
                GetDirDelegationRes {
                    cookie_verifier,
                    state_id,
                    notification,
                    child_attributes,
                    dir_attributes,
                },
                cur,
            ),
        )
    }
}

#[derive(Clone, Debug, PartialEq, Eq)]
pub struct DeviceAddr {
    pub layout_type: LayoutType,
    pub body: Vec<u8>,
}

/// What a [`DeviceAddr`] stands for.
pub struct DeviceAddrModel {
    pub layout_type: LayoutType,
    pub body: Seq<u8>,
}

impl Xdr for DeviceAddr {
    type Model = DeviceAddrModel;

    #[verifier::opaque]
    open spec fn model(&self) -> DeviceAddrModel {
        DeviceAddrModel { layout_type: self.layout_type.model(), body: self.body@ }
    }

    #[verifier::opaque]
    open spec fn wf(m: DeviceAddrModel) -> bool {
        &&& LayoutType::wf(m.layout_type)
        &&& wf_opaque(m.body)
    }

    #[verifier::opaque]
    open spec fn wire(m: DeviceAddrModel) -> Seq<u8> {
        LayoutType::wire(m.layout_type) + wire_opaque(m.body)
    }

    #[verifier::opaque]
    open spec fn parse(s: Seq<u8>) -> Result<(DeviceAddrModel, Seq<u8>), XdrError> {
        match LayoutType::parse(s) {
            Err(e) => Err(e),
            Ok((layout_type, s1)) => match parse_opaque(s1) {
                Err(e) => Err(e),
                Ok((body, s2)) => Ok((DeviceAddrModel { layout_type, body }, s2)),
            },
        }
    }

    proof fn lemma_round_trip(m: DeviceAddrModel, rest: Seq<u8>) {
        reveal(<DeviceAddr as Xdr>::wf);
        reveal(<DeviceAddr as Xdr>::wire);
        reveal(<DeviceAddr as Xdr>::parse);
        let w1 = LayoutType::wire(m.layout_type);
        let w2 = wire_opaque(m.body);
        let r2 = rest;
        let r1 = w2 + r2;
        lemma_concat_assoc(w1, w2, r2);
        LayoutType::lemma_round_trip(m.layout_type, r1);
        lemma_opaque_round_trip(m.body, r2);
    }

    fn encode(&self, out: &mut Vec<u8>) -> (r: Result<(), EncodeError>) {
        proof {
            reveal(<DeviceAddr as Xdr>::model);
            reveal(<DeviceAddr as Xdr>::wf);
            reveal(<DeviceAddr as Xdr>::wire);
        }
        let ghost m = self.model();
        let ghost w1 = LayoutType::wire(m.layout_type);
        let ghost w2 = wire_opaque(m.body);
        self.layout_type.encode(out)?;
        encode_opaque(self.body.as_slice(), out)?;
        proof {
            lemma_concat_assoc(old(out)@, w1, w2);
        }
        Ok(())
    }

    fn decode<'a>(input: &'a [u8]) -> (r: Result<(DeviceAddr, &'a [u8]), XdrError>) {
        proof {
            reveal(<DeviceAddr as Xdr>::model);
            reveal(<DeviceAddr as Xdr>::parse);
        }
        let (layout_type, cur) = LayoutType::decode(input)?;
        let (body, cur) = decode_opaque(cur)?;
        let body = copy_bytes(body);
        Ok((DeviceAddr { layout_type, body }, cur))
    }
}

#[derive(Clone, Copy, Debug, PartialEq, Eq, PartialOrd, Ord)]
pub enum NotifyDeviceIdType {
    Change,
    Delete,
}

impl NotifyDeviceIdType {
    /// The discriminant that leads the encoding of a value.
    pub open spec fn tag(m: NotifyDeviceIdType) -> u32 {
        match m {
            NotifyDeviceIdType::Change => 1,
            NotifyDeviceIdType::Delete => 2,
        }
    }

    /// What follows the discriminant in the encoding of a value.
    #[verifier::opaque]
    pub open spec fn wire_payload(m: NotifyDeviceIdType) -> Seq<u8> {
        match m {
            NotifyDeviceIdType::Change => Seq::<u8>::empty(),
            NotifyDeviceIdType::Delete => Seq::<u8>::empty(),
        }
    }

    /// The value with the discriminant `tag` whose payload is at the front of `s`.
    #[verifier::opaque]
    pub open spec fn parse_payload(
        tag: u32,
        s: Seq<u8>,
    ) -> Result<(NotifyDeviceIdType, Seq<u8>), XdrError> {
        if tag == 1 {
            Ok((NotifyDeviceIdType::Change, s))
        } else if tag == 2 {
            Ok((NotifyDeviceIdType::Delete, s))
        } else {
            Err(XdrError::BadDiscriminant("NotifyDeviceIdType", tag))
        }
    }

    pub proof fn lemma_payload_round_trip(m: NotifyDeviceIdType, rest: Seq<u8>)
        requires
            <NotifyDeviceIdType as Xdr>::wf(m),
        ensures
            Self::parse_payload(Self::tag(m), Self::wire_payload(m) + rest)
                == Ok::<(NotifyDeviceIdType, Seq<u8>), XdrError>((m, rest)),
    {
        reveal(NotifyDeviceIdType::wire_payload);
        reveal(NotifyDeviceIdType::parse_payload);
        match m {
            NotifyDeviceIdType::Change => {
                assert(Seq::<u8>::empty() + rest =~= rest);
            },
            NotifyDeviceIdType::Delete => {
                assert(Seq::<u8>::empty() + rest =~= rest);
            },
        }
    }

    /// The encoding of a value begins with its discriminant, big-endian.
    pub proof fn lemma_wire_leads_with_tag(m: NotifyDeviceIdType)
        ensures
            <NotifyDeviceIdType as Xdr>::wire(m).len() >= 4,
            <NotifyDeviceIdType as Xdr>::wire(m).take(4) == wire_u32(Self::tag(m)),
    {
        reveal(<NotifyDeviceIdType as Xdr>::wire);
        reveal(wire_u32);
        assert((wire_u32(Self::tag(m)) + Self::wire_payload(m)).take(4) =~= wire_u32(Self::tag(m)));
    }

    /// The discriminant of a value.
    pub fn tag_of(&self) -> (t: u32)
        ensures
            t == Self::tag(self.model()),
    {
        match self {
            NotifyDeviceIdType::Change => 1,
            NotifyDeviceIdType::Delete => 2,
        }
    }

    /// Appends what follows the discriminant in the encoding of `self`.
    pub fn encode_payload(&self, out: &mut Vec<u8>) -> (r: Result<(), EncodeError>)
        ensures
            r is Ok <==> <NotifyDeviceIdType as Xdr>::wf(self.model()),
            r is Ok ==> final(out)@ == old(out)@ + Self::wire_payload(self.model()),
    {
        proof {
            reveal(NotifyDeviceIdType::wire_payload);
        }
        match self {
            NotifyDeviceIdType::Change => {
                assert(out@ =~= old(out)@ + Seq::<u8>::empty());
            },
            NotifyDeviceIdType::Delete => {
                assert(out@ =~= old(out)@ + Seq::<u8>::empty());
            },
        }
        Ok(())
    }

    /// Decodes the payload of the value with the discriminant `tag`.
    pub fn decode_payload<'a>(
        tag: u32,
        input: &'a [u8],
    ) -> (r: Result<(NotifyDeviceIdType, &'a [u8]), XdrError>)
        ensures
            match r {
                Ok((v, rest)) => {
                    Self::parse_payload(tag, input@)
                        == Ok::<(NotifyDeviceIdType, Seq<u8>), XdrError>((v.model(), rest@))
                },
                Err(e) => {
                    Self::parse_payload(tag, input@)
                        == Err::<(NotifyDeviceIdType, Seq<u8>), XdrError>(e)
                },
            },
    {
        proof {
            reveal(NotifyDeviceIdType::parse_payload);
        }
        if tag == 1 {
            Ok((NotifyDeviceIdType::Change, input))
        } else if tag == 2 {
            Ok((NotifyDeviceIdType::Delete, input))
        } else {
            Err(XdrError::BadDiscriminant("NotifyDeviceIdType", tag))
        }
    }
}

impl Xdr for NotifyDeviceIdType {
    type Model = NotifyDeviceIdType;

    open spec fn model(&self) -> NotifyDeviceIdType {
        *self
    }

    open spec fn wf(m: NotifyDeviceIdType) -> bool {
        true
    }

    #[verifier::opaque]
    open spec fn wire(m: NotifyDeviceIdType) -> Seq<u8> {
        wire_u32(Self::tag(m)) + Self::wire_payload(m)
    }

    #[verifier::opaque]
    open spec fn parse(s: Seq<u8>) -> Result<(NotifyDeviceIdType, Seq<u8>), XdrError> {
        match parse_u32(s) {
            Ok((tag, r)) => Self::parse_payload(tag, r),
            Err(e) => Err(e),
        }
    }

    proof fn lemma_round_trip(m: NotifyDeviceIdType, rest: Seq<u8>) {
        reveal(<NotifyDeviceIdType as Xdr>::wire);
        reveal(<NotifyDeviceIdType as Xdr>::parse);
        lemma_concat_assoc(wire_u32(Self::tag(m)), Self::wire_payload(m), rest);
        lemma_u32_round_trip(Self::tag(m), Self::wire_payload(m) + rest);
        Self::lemma_payload_round_trip(m, rest);
    }

    fn encode(&self, out: &mut Vec<u8>) -> (r: Result<(), EncodeError>) {
        proof {
            reveal(<NotifyDeviceIdType as Xdr>::wire);
        }
        let tag = self.tag_of();
        let _ = tag.encode(out);
        self.encode_payload(out)?;
        proof {
            lemma_concat_assoc(old(out)@, wire_u32(tag), Self::wire_payload(self.model()));
        }
        Ok(())
    }

    fn decode<'a>(input: &'a [u8]) -> (r: Result<(NotifyDeviceIdType, &'a [u8]), XdrError>) {
        proof {
            reveal(<NotifyDeviceIdType as Xdr>::parse);
        }
        let (tag, cur) = u32::decode(input)?;
        Self::decode_payload(tag, cur)
    }
}

impl EnumId for NotifyDeviceIdType {
    open spec fn id(self) -> u32 {
        Self::tag(self)
    }

    open spec fn from_id(id: u32) -> Option<Self> {
        if id == 1 {
            Some(NotifyDeviceIdType::Change)
        } else if id == 2 {
            Some(NotifyDeviceIdType::Delete)
        } else {
            None
        }
    }

    proof fn lemma_from_id(id: u32) {
    }

    proof fn lemma_id(k: Self) {
    }

    fn to_u32(self) -> (r: u32) {
        self.tag_of()
    }

    fn try_from_u32(id: u32) -> (r: Option<Self>) {
        if id == 1 {
            Some(NotifyDeviceIdType::Change)
        } else if id == 2 {
            Some(NotifyDeviceIdType::Delete)
        } else {
            None
        }
    }
}

#[derive(Clone, Debug, PartialEq, Eq)]
pub struct GetDeviceInfoRes {
    pub device_addr: DeviceAddr,
    pub notification: EnumSet<NotifyDeviceIdType>,
}

/// What a [`GetDeviceInfoRes`] stands for.
pub struct GetDeviceInfoResModel {
    pub device_addr: DeviceAddrModel,
    pub notification: Seq<NotifyDeviceIdType>,
}

impl Xdr for GetDeviceInfoRes {
    type Model = GetDeviceInfoResModel;

    #[verifier::opaque]
    open spec fn model(&self) -> GetDeviceInfoResModel {
        GetDeviceInfoResModel {
            device_addr: self.device_addr.model(),
            notification: self.notification.model(),
        }
    }

    #[verifier::opaque]
    open spec fn wf(m: GetDeviceInfoResModel) -> bool {
        &&& DeviceAddr::wf(m.device_addr)
        &&& EnumSet::<NotifyDeviceIdType>::wf(m.notification)
    }

    #[verifier::opaque]
    open spec fn wire(m: GetDeviceInfoResModel) -> Seq<u8> {
        DeviceAddr::wire(m.device_addr) + EnumSet::<NotifyDeviceIdType>::wire(m.notification)
    }

    #[verifier::opaque]
    open spec fn parse(s: Seq<u8>) -> Result<(GetDeviceInfoResModel, Seq<u8>), XdrError> {
        match DeviceAddr::parse(s) {
            Err(e) => Err(e),
            Ok((device_addr, s1)) => match EnumSet::<NotifyDeviceIdType>::parse(s1) {
                Err(e) => Err(e),
                Ok((notification, s2)) => {
                    Ok((GetDeviceInfoResModel { device_addr, notification }, s2))
                },
            },
        }
    }

    proof fn lemma_round_trip(m: GetDeviceInfoResModel, rest: Seq<u8>) {
        reveal(<GetDeviceInfoRes as Xdr>::wf);
        reveal(<GetDeviceInfoRes as Xdr>::wire);
        reveal(<GetDeviceInfoRes as Xdr>::parse);
        let w1 = DeviceAddr::wire(m.device_addr);
        let w2 = EnumSet::<NotifyDeviceIdType>::wire(m.notification);
        let r2 = rest;
        let r1 = w2 + r2;
        lemma_concat_assoc(w1, w2, r2);
        DeviceAddr::lemma_round_trip(m.device_addr, r1);
        EnumSet::<NotifyDeviceIdType>::lemma_round_trip(m.notification, r2);
    }

    fn encode(&self, out: &mut Vec<u8>) -> (r: Result<(), EncodeError>) {
        proof {
            reveal(<GetDeviceInfoRes as Xdr>::model);
            reveal(<GetDeviceInfoRes as Xdr>::wf);
            reveal(<GetDeviceInfoRes as Xdr>::wire);
        }
        let ghost m = self.model();
        let ghost w1 = DeviceAddr::wire(m.device_addr);
        let ghost w2 = EnumSet::<NotifyDeviceIdType>::wire(m.notification);
        self.device_addr.encode(out)?;
        self.notification.encode(out)?;
        proof {
            lemma_concat_assoc(old(out)@, w1, w2);
        }
        Ok(())
    }

    fn decode<'a>(input: &'a [u8]) -> (r: Result<(GetDeviceInfoRes, &'a [u8]), XdrError>) {
        proof {
            reveal(<GetDeviceInfoRes as Xdr>::model);
            reveal(<GetDeviceInfoRes as Xdr>::parse);
        }
        let (device_addr, cur) = DeviceAddr::decode(input)?;
        let (notification, cur) = EnumSet::<NotifyDeviceIdType>::decode(cur)?;
        Ok((GetDeviceInfoRes { device_addr, notification }, cur))
    }
}

#[derive(Clone, Debug, PartialEq, Eq)]
pub struct GetDeviceListRes {
    pub cookie: Cookie,
    pub cookie_verifier: Verifier,
    pub device_id_list: Vec<DeviceId>,
    pub eof: bool,
}

/// What a [`GetDeviceListRes`] stands for.
pub struct GetDeviceListResModel {
    pub cookie: Cookie,
    pub cookie_verifier: Verifier,
    pub device_id_list: Seq<DeviceIdModel>,
    pub eof: bool,
}

impl Xdr for GetDeviceListRes {
    type Model = GetDeviceListResModel;

    #[verifier::opaque]
    open spec fn model(&self) -> GetDeviceListResModel {
        GetDeviceListResModel {
            cookie: self.cookie.model(),
            cookie_verifier: self.cookie_verifier.model(),
            device_id_list: self.device_id_list.model(),
            eof: self.eof.model(),
        }
    }

    #[verifier::opaque]
    open spec fn wf(m: GetDeviceListResModel) -> bool {
        &&& Cookie::wf(m.cookie)
        &&& Verifier::wf(m.cookie_verifier)
        &&& Vec::<DeviceId>::wf(m.device_id_list)
    }

    #[verifier::opaque]
    open spec fn wire(m: GetDeviceListResModel) -> Seq<u8> {
        Cookie::wire(m.cookie)
            + Verifier::wire(m.cookie_verifier)
            + Vec::<DeviceId>::wire(m.device_id_list)
            + bool::wire(m.eof)
    }

    #[verifier::opaque]
    open spec fn parse(s: Seq<u8>) -> Result<(GetDeviceListResModel, Seq<u8>), XdrError> {
        match Cookie::parse(s) {
            Err(e) => Err(e),
            Ok((cookie, s1)) => match Verifier::parse(s1) {
                Err(e) => Err(e),
                Ok((cookie_verifier, s2)) => match Vec::<DeviceId>::parse(s2) {
                    Err(e) => Err(e),
                    Ok((device_id_list, s3)) => match bool::parse(s3) {
                        Err(e) => Err(e),
                        Ok((eof, s4)) => {
                            Ok(
                                (
                                    GetDeviceListResModel {
                                        cookie,
                                        cookie_verifier,
                                        device_id_list,
                                        eof,
                                    },
                                    s4,
                                ),
                            )
                        },
                    },
                },
            },
        }
    }

    proof fn lemma_round_trip(m: GetDeviceListResModel, rest: Seq<u8>) {
        reveal(<GetDeviceListRes as Xdr>::wf);
        reveal(<GetDeviceListRes as Xdr>::wire);
        reveal(<GetDeviceListRes as Xdr>::parse);
        let w1 = Cookie::wire(m.cookie);
        let w2 = Verifier::wire(m.cookie_verifier);
        let w3 = Vec::<DeviceId>::wire(m.device_id_list);
        let w4 = bool::wire(m.eof);
        let r4 = rest;
        let r3 = w4 + r4;
        let r2 = w3 + r3;
        let r1 = w2 + r2;
        lemma_concat_assoc(w1 + w2 + w3, w4, r4);
        lemma_concat_assoc(w1 + w2, w3, r3);
        lemma_concat_assoc(w1, w2, r2);
        Cookie::lemma_round_trip(m.cookie, r1);
        Verifier::lemma_round_trip(m.cookie_verifier, r2);
        Vec::<DeviceId>::lemma_round_trip(m.device_id_list, r3);
        bool::lemma_round_trip(m.eof, r4);
    }

    fn encode(&self, out: &mut Vec<u8>) -> (r: Result<(), EncodeError>) {
        proof {
            reveal(<GetDeviceListRes as Xdr>::model);
            reveal(<GetDeviceListRes as Xdr>::wf);
            reveal(<GetDeviceListRes as Xdr>::wire);
        }
        let ghost m = self.model();
        let ghost w1 = Cookie::wire(m.cookie);
        let ghost w2 = Verifier::wire(m.cookie_verifier);
        let ghost w3 = Vec::<DeviceId>::wire(m.device_id_list);
        let ghost w4 = bool::wire(m.eof);
        self.cookie.encode(out)?;
        self.cookie_verifier.encode(out)?;
        proof {
            lemma_concat_assoc(old(out)@, w1, w2);
        }
        self.device_id_list.encode(out)?;
        proof {
            lemma_concat_assoc(old(out)@, w1 + w2, w3);
        }
        let _ = self.eof.encode(out);
        proof {
            lemma_concat_assoc(old(out)@, w1 + w2 + w3, w4);
        }
        Ok(())
    }

    fn decode<'a>(input: &'a [u8]) -> (r: Result<(GetDeviceListRes, &'a [u8]), XdrError>) {
        proof {
            reveal(<GetDeviceListRes as Xdr>::model);
            reveal(<GetDeviceListRes as Xdr>::parse);
        }
        let (cookie, cur) = Cookie::decode(input)?;
        let (cookie_verifier, cur) = Verifier::decode(cur)?;
        let (device_id_list, cur) = Vec::<DeviceId>::decode(cur)?;
        let (eof, cur) = bool::decode(cur)?;
        Ok((GetDeviceListRes { cookie, cookie_verifier, device_id_list, eof }, cur))
    }
}

#[derive(Clone, Debug, PartialEq, Eq)]
pub struct LayoutCommitRes {
    pub new_size: Option<u64>,
}

/// What a [`LayoutCommitRes`] stands for.
pub struct LayoutCommitResModel {
    pub new_size: Option<u64>,
}

impl Xdr for LayoutCommitRes {
    type Model = LayoutCommitResModel;

    #[verifier::opaque]
    open spec fn model(&self) -> LayoutCommitResModel {
        LayoutCommitResModel { new_size: self.new_size.model() }
    }

    #[verifier::opaque]
    open spec fn wf(m: LayoutCommitResModel) -> bool {
        &&& Option::<u64>::wf(m.new_size)
    }

    #[verifier::opaque]
    open spec fn wire(m: LayoutCommitResModel) -> Seq<u8> {
        Option::<u64>::wire(m.new_size)
    }

    #[verifier::opaque]
    open spec fn parse(s: Seq<u8>) -> Result<(LayoutCommitResModel, Seq<u8>), XdrError> {
        match Option::<u64>::parse(s) {
            Err(e) => Err(e),
            Ok((new_size, s1)) => Ok((LayoutCommitResModel { new_size }, s1)),
        }
    }

    proof fn lemma_round_trip(m: LayoutCommitResModel, rest: Seq<u8>) {
        reveal(<LayoutCommitRes as Xdr>::wf);
        reveal(<LayoutCommitRes as Xdr>::wire);
        reveal(<LayoutCommitRes as Xdr>::parse);
        Option::<u64>::lemma_round_trip(m.new_size, rest);
    }

    fn encode(&self, out: &mut Vec<u8>) -> (r: Result<(), EncodeError>) {
        proof {
            reveal(<LayoutCommitRes as Xdr>::model);
            reveal(<LayoutCommitRes as Xdr>::wf);
            reveal(<LayoutCommitRes as Xdr>::wire);
        }
        self.new_size.encode(out)?;
        Ok(())
    }

    fn decode<'a>(input: &'a [u8]) -> (r: Result<(LayoutCommitRes, &'a [u8]), XdrError>) {
        proof {
            reveal(<LayoutCommitRes as Xdr>::model);
            reveal(<LayoutCommitRes as Xdr>::parse);
        }
        let (new_size, cur) = Option::<u64>::decode(input)?;
        Ok((LayoutCommitRes { new_size }, cur))
    }
}

#[derive(Clone, Debug, PartialEq, Eq)]
pub struct LayoutContent {
    pub type_: LayoutType,
    pub body: Vec<u8>,
}

/// What a [`LayoutContent`] stands for.
pub struct LayoutContentModel {
    pub type_: LayoutType,
    pub body: Seq<u8>,
}

impl Xdr for LayoutContent {
    type Model = LayoutContentModel;

    #[verifier::opaque]
    open spec fn model(&self) -> LayoutContentModel {
        LayoutContentModel { type_: self.type_.model(), body: self.body@ }
    }

    #[verifier::opaque]
    open spec fn wf(m: LayoutContentModel) -> bool {
        &&& LayoutType::wf(m.type_)
        &&& wf_opaque(m.body)
    }

    #[verifier::opaque]
    open spec fn wire(m: LayoutContentModel) -> Seq<u8> {
        LayoutType::wire(m.type_) + wire_opaque(m.body)
    }

    #[verifier::opaque]
    open spec fn parse(s: Seq<u8>) -> Result<(LayoutContentModel, Seq<u8>), XdrError> {
        match LayoutType::parse(s) {
            Err(e) => Err(e),
            Ok((type_, s1)) => match parse_opaque(s1) {
                Err(e) => Err(e),
                Ok((body, s2)) => Ok((LayoutContentModel { type_, body }, s2)),
            },
        }
    }

    proof fn lemma_round_trip(m: LayoutContentModel, rest: Seq<u8>) {
        reveal(<LayoutContent as Xdr>::wf);
        reveal(<LayoutContent as Xdr>::wire);
        reveal(<LayoutContent as Xdr>::parse);
        let w1 = LayoutType::wire(m.type_);
        let w2 = wire_opaque(m.body);
        let r2 = rest;
        let r1 = w2 + r2;
        lemma_concat_assoc(w1, w2, r2);
        LayoutType::lemma_round_trip(m.type_, r1);
        lemma_opaque_round_trip(m.body, r2);
    }

    fn encode(&self, out: &mut Vec<u8>) -> (r: Result<(), EncodeError>) {
        proof {
            reveal(<LayoutContent as Xdr>::model);
            reveal(<LayoutContent as Xdr>::wf);
            reveal(<LayoutContent as Xdr>::wire);
        }
        let ghost m = self.model();
        let ghost w1 = LayoutType::wire(m.type_);
        let ghost w2 = wire_opaque(m.body);
        self.type_.encode(out)?;
        encode_opaque(self.body.as_slice(), out)?;
        proof {
            lemma_concat_assoc(old(out)@, w1, w2);
        }
        Ok(())
    }

    fn decode<'a>(input: &'a [u8]) -> (r: Result<(LayoutContent, &'a [u8]), XdrError>) {
        proof {
            reveal(<LayoutContent as Xdr>::model);
            reveal(<LayoutContent as Xdr>::parse);
        }
        let (type_, cur) = LayoutType::decode(input)?;
        let (body, cur) = decode_opaque(cur)?;
        let body = copy_bytes(body);
        Ok((LayoutContent { type_, body }, cur))
    }
}

#[derive(Clone, Debug, PartialEq, Eq)]
pub struct Layout {
    pub offset: u64,
    pub length: u64,
    pub io_mode: LayoutIoMode,
    pub content: LayoutContent,
}

/// What a [`Layout`] stands for.
pub struct LayoutModel {
    pub offset: u64,
    pub length: u64,
    pub io_mode: LayoutIoMode,
    pub content: LayoutContentModel,
}

impl Xdr for Layout {
    type Model = LayoutModel;

    #[verifier::opaque]
    open spec fn model(&self) -> LayoutModel {
        LayoutModel {
            offset: self.offset.model(),
            length: self.length.model(),
            io_mode: self.io_mode.model(),
            content: self.content.model(),
        }
    }

    #[verifier::opaque]
    open spec fn wf(m: LayoutModel) -> bool {
        &&& LayoutIoMode::wf(m.io_mode)
        &&& LayoutContent::wf(m.content)
    }

    #[verifier::opaque]
    open spec fn wire(m: LayoutModel) -> Seq<u8> {
        u64::wire(m.offset)
            + u64::wire(m.length)
            + LayoutIoMode::wire(m.io_mode)
            + LayoutContent::wire(m.content)
    }

    #[verifier::opaque]
    open spec fn parse(s: Seq<u8>) -> Result<(LayoutModel, Seq<u8>), XdrError> {
        match u64::parse(s) {
            Err(e) => Err(e),
            Ok((offset, s1)) => match u64::parse(s1) {
                Err(e) => Err(e),
                Ok((length, s2)) => match LayoutIoMode::parse(s2) {
                    Err(e) => Err(e),
                    Ok((io_mode, s3)) => match LayoutContent::parse(s3) {
                        Err(e) => Err(e),
                        Ok((content, s4)) => {
                            Ok((LayoutModel { offset, length, io_mode, content }, s4))
                        },
                    },
                },
            },
        }
    }

    proof fn lemma_round_trip(m: LayoutModel, rest: Seq<u8>) {
        reveal(<Layout as Xdr>::wf);
        reveal(<Layout as Xdr>::wire);
        reveal(<Layout as Xdr>::parse);
        let w1 = u64::wire(m.offset);
        let w2 = u64::wire(m.length);
        let w3 = LayoutIoMode::wire(m.io_mode);
        let w4 = LayoutContent::wire(m.content);
        let r4 = rest;
        let r3 = w4 + r4;
        let r2 = w3 + r3;
        let r1 = w2 + r2;
        lemma_concat_assoc(w1 + w2 + w3, w4, r4);
        lemma_concat_assoc(w1 + w2, w3, r3);
        lemma_concat_assoc(w1, w2, r2);
        u64::lemma_round_trip(m.offset, r1);
        u64::lemma_round_trip(m.length, r2);
        LayoutIoMode::lemma_round_trip(m.io_mode, r3);
        LayoutContent::lemma_round_trip(m.content, r4);
    }

    fn encode(&self, out: &mut Vec<u8>) -> (r: Result<(), EncodeError>) {
        proof {
            reveal(<Layout as Xdr>::model);
            reveal(<Layout as Xdr>::wf);
            reveal(<Layout as Xdr>::wire);
        }
        let ghost m = self.model();
        let ghost w1 = u64::wire(m.offset);
        let ghost w2 = u64::wire(m.length);
        let ghost w3 = LayoutIoMode::wire(m.io_mode);
        let ghost w4 = LayoutContent::wire(m.content);
        let _ = self.offset.encode(out);
        let _ = self.length.encode(out);
        proof {
            lemma_concat_assoc(old(out)@, w1, w2);
        }
        self.io_mode.encode(out)?;
        proof {
            lemma_concat_assoc(old(out)@, w1 + w2, w3);
        }
        self.content.encode(out)?;
        proof {
            lemma_concat_assoc(old(out)@, w1 + w2 + w3, w4);
        }
        Ok(())
    }

    fn decode<'a>(input: &'a [u8]) -> (r: Result<(Layout, &'a [u8]), XdrError>) {
        proof {
            reveal(<Layout as Xdr>::model);
            reveal(<Layout as Xdr>::parse);
        }
        let (offset, cur) = u64::decode(input)?;
        let (length, cur) = u64::decode(cur)?;
        let (io_mode, cur) = LayoutIoMode::decode(cur)?;
        let (content, cur) = LayoutContent::decode(cur)?;
        Ok((Layout { offset, length, io_mode, content }, cur))
    }
}

#[derive(Clone, Debug, PartialEq, Eq)]
pub struct LayoutGetRes {
    pub return_on_close: bool,
    pub state_id: StateId,
    pub layout: Vec<Layout>,
}

/// What a [`LayoutGetRes`] stands for.
pub struct LayoutGetResModel {
    pub return_on_close: bool,
    pub state_id: StateIdModel,
    pub layout: Seq<LayoutModel>,
}

impl Xdr for LayoutGetRes {
    type Model = LayoutGetResModel;

    #[verifier::opaque]
    open spec fn model(&self) -> LayoutGetResModel {
        LayoutGetResModel {
            return_on_close: self.return_on_close.model(),
            state_id: self.state_id.model(),
            layout: self.layout.model(),
        }
    }

    #[verifier::opaque]
    open spec fn wf(m: LayoutGetResModel) -> bool {
        &&& StateId::wf(m.state_id)
        &&& Vec::<Layout>::wf(m.layout)
    }

    #[verifier::opaque]
    open spec fn wire(m: LayoutGetResModel) -> Seq<u8> {
        bool::wire(m.return_on_close) + StateId::wire(m.state_id) + Vec::<Layout>::wire(m.layout)
    }

    #[verifier::opaque]
    open spec fn parse(s: Seq<u8>) -> Result<(LayoutGetResModel, Seq<u8>), XdrError> {
        match bool::parse(s) {
            Err(e) => Err(e),
            Ok((return_on_close, s1)) => match StateId::parse(s1) {
                Err(e) => Err(e),
                Ok((state_id, s2)) => match Vec::<Layout>::parse(s2) {
                    Err(e) => Err(e),
                    Ok((layout, s3)) => {
                        Ok((LayoutGetResModel { return_on_close, state_id, layout }, s3))
                    },
                },
            },
        }
    }

    proof fn lemma_round_trip(m: LayoutGetResModel, rest: Seq<u8>) {
        reveal(<LayoutGetRes as Xdr>::wf);
        reveal(<LayoutGetRes as Xdr>::wire);
        reveal(<LayoutGetRes as Xdr>::parse);
        let w1 = bool::wire(m.return_on_close);
        let w2 = StateId::wire(m.state_id);
        let w3 = Vec::<Layout>::wire(m.layout);
        let r3 = rest;
        let r2 = w3 + r3;
        let r1 = w2 + r2;
        lemma_concat_assoc(w1 + w2, w3, r3);
        lemma_concat_assoc(w1, w2, r2);
        bool::lemma_round_trip(m.return_on_close, r1);
        StateId::lemma_round_trip(m.state_id, r2);
        Vec::<Layout>::lemma_round_trip(m.layout, r3);
    }

    fn encode(&self, out: &mut Vec<u8>) -> (r: Result<(), EncodeError>) {
        proof {
            reveal(<LayoutGetRes as Xdr>::model);
            reveal(<LayoutGetRes as Xdr>::wf);
            reveal(<LayoutGetRes as Xdr>::wire);
        }
        let ghost m = self.model();
        let ghost w1 = bool::wire(m.return_on_close);
        let ghost w2 = StateId::wire(m.state_id);
        let ghost w3 = Vec::<Layout>::wire(m.layout);
        let _ = self.return_on_close.encode(out);
        self.state_id.encode(out)?;
        proof {
            lemma_concat_assoc(old(out)@, w1, w2);
        }
        self.layout.encode(out)?;
        proof {
            lemma_concat_assoc(old(out)@, w1 + w2, w3);
        }
        Ok(())
    }

    fn decode<'a>(input: &'a [u8]) -> (r: Result<(LayoutGetRes, &'a [u8]), XdrError>) {
        proof {
            reveal(<LayoutGetRes as Xdr>::model);
            reveal(<LayoutGetRes as Xdr>::parse);
        }
        let (return_on_close, cur) = bool::decode(input)?;
        let (state_id, cur) = StateId::decode(cur)?;
        let (layout, cur) = Vec::<Layout>::decode(cur)?;
        Ok((LayoutGetRes { return_on_close, state_id, layout }, cur))
    }
}

#[derive(Clone, Debug, PartialEq, Eq)]
pub struct LayoutReturnRes {
    pub state_id: Option<StateId>,
}

/// What a [`LayoutReturnRes`] stands for.
pub struct LayoutReturnResModel {
    pub state_id: Option<StateIdModel>,
}

impl Xdr for LayoutReturnRes {
    type Model = LayoutReturnResModel;

    #[verifier::opaque]
    open spec fn model(&self) -> LayoutReturnResModel {
        LayoutReturnResModel { state_id: self.state_id.model() }
    }

    #[verifier::opaque]
    open spec fn wf(m: LayoutReturnResModel) -> bool {
        &&& Option::<StateId>::wf(m.state_id)
    }

    #[verifier::opaque]
    open spec fn wire(m: LayoutReturnResModel) -> Seq<u8> {
        Option::<StateId>::wire(m.state_id)
    }

    #[verifier::opaque]
    open spec fn parse(s: Seq<u8>) -> Result<(LayoutReturnResModel, Seq<u8>), XdrError> {
        match Option::<StateId>::parse(s) {
            Err(e) => Err(e),
            Ok((state_id, s1)) => Ok((LayoutReturnResModel { state_id }, s1)),
        }
    }

    proof fn lemma_round_trip(m: LayoutReturnResModel, rest: Seq<u8>) {
        reveal(<LayoutReturnRes as Xdr>::wf);
        reveal(<LayoutReturnRes as Xdr>::wire);
        reveal(<LayoutReturnRes as Xdr>::parse);
        Option::<StateId>::lemma_round_trip(m.state_id, rest);
    }

    fn encode(&self, out: &mut Vec<u8>) -> (r: Result<(), EncodeError>) {
        proof {
            reveal(<LayoutReturnRes as Xdr>::model);
            reveal(<LayoutReturnRes as Xdr>::wf);
            reveal(<LayoutReturnRes as Xdr>::wire);
        }
        self.state_id.encode(out)?;
        Ok(())
    }

    fn decode<'a>(input: &'a [u8]) -> (r: Result<(LayoutReturnRes, &'a [u8]), XdrError>) {
        proof {
            reveal(<LayoutReturnRes as Xdr>::model);
            reveal(<LayoutReturnRes as Xdr>::parse);
        }
        let (state_id, cur) = Option::<StateId>::decode(input)?;
        Ok((LayoutReturnRes { state_id }, cur))
    }
}

#[derive(Clone, Debug, PartialEq, Eq)]
pub struct SequenceRes {
    pub session_id: SessionId,
    pub sequence_id: SequenceId,
    pub slot_id: SlotId,
    pub highest_slot_id: SlotId,
    pub target_highest_slot_id: SlotId,
    pub status_flags: SequenceStatusFlags,
}

/// What a [`SequenceRes`] stands for.
pub struct SequenceResModel {
    pub session_id: SessionIdModel,
    pub sequence_id: SequenceId,
    pub slot_id: SlotId,
    pub highest_slot_id: SlotId,
    pub target_highest_slot_id: SlotId,
    pub status_flags: SequenceStatusFlags,
}

impl Xdr for SequenceRes {
    type Model = SequenceResModel;

    #[verifier::opaque]
    open spec fn model(&self) -> SequenceResModel {
        SequenceResModel {
            session_id: self.session_id.model(),
            sequence_id: self.sequence_id.model(),
            slot_id: self.slot_id.model(),
            highest_slot_id: self.highest_slot_id.model(),
            target_highest_slot_id: self.target_highest_slot_id.model(),
            status_flags: self.status_flags.model(),
        }
    }

    #[verifier::opaque]
    open spec fn wf(m: SequenceResModel) -> bool {
        &&& SessionId::wf(m.session_id)
        &&& SequenceId::wf(m.sequence_id)
        &&& SlotId::wf(m.slot_id)
        &&& SlotId::wf(m.highest_slot_id)
        &&& SlotId::wf(m.target_highest_slot_id)
        &&& SequenceStatusFlags::wf(m.status_flags)
    }

    #[verifier::opaque]
    open spec fn wire(m: SequenceResModel) -> Seq<u8> {
        SessionId::wire(m.session_id)
            + SequenceId::wire(m.sequence_id)
            + SlotId::wire(m.slot_id)
            + SlotId::wire(m.highest_slot_id)
            + SlotId::wire(m.target_highest_slot_id)
            + SequenceStatusFlags::wire(m.status_flags)
    }

    #[verifier::opaque]
    open spec fn parse(s: Seq<u8>) -> Result<(SequenceResModel, Seq<u8>), XdrError> {
        match SessionId::parse(s) {
            Err(e) => Err(e),
            Ok((session_id, s1)) => match SequenceId::parse(s1) {
                Err(e) => Err(e),
                Ok((sequence_id, s2)) => match SlotId::parse(s2) {
                    Err(e) => Err(e),
                    Ok((slot_id, s3)) => match SlotId::parse(s3) {
                        Err(e) => Err(e),
                        Ok((highest_slot_id, s4)) => match SlotId::parse(s4) {
                            Err(e) => Err(e),
                            Ok(
                                (target_highest_slot_id, s5),
                            ) => match SequenceStatusFlags::parse(s5) {
                                Err(e) => Err(e),
                                Ok((status_flags, s6)) => {
                                    Ok(
                                        (
                                            SequenceResModel {
                                                session_id,
                                                sequence_id,
                                                slot_id,
                                                highest_slot_id,
                                                target_highest_slot_id,
                                                status_flags,
                                            },
                                            s6,
                                        ),
                                    )
                                },
                            },
                        },
                    },
                },
            },
        }
    }

    proof fn lemma_round_trip(m: SequenceResModel, rest: Seq<u8>) {
        reveal(<SequenceRes as Xdr>::wf);
        reveal(<SequenceRes as Xdr>::wire);
        reveal(<SequenceRes as Xdr>::parse);
        let w1 = SessionId::wire(m.session_id);
        let w2 = SequenceId::wire(m.sequence_id);
        let w3 = SlotId::wire(m.slot_id);
        let w4 = SlotId::wire(m.highest_slot_id);
        let w5 = SlotId::wire(m.target_highest_slot_id);
        let w6 = SequenceStatusFlags::wire(m.status_flags);
        let r6 = rest;
        let r5 = w6 + r6;
        let r4 = w5 + r5;
        let r3 = w4 + r4;
        let r2 = w3 + r3;
        let r1 = w2 + r2;
        lemma_concat_assoc(w1 + w2 + w3 + w4 + w5, w6, r6);
        lemma_concat_assoc(w1 + w2 + w3 + w4, w5, r5);
        lemma_concat_assoc(w1 + w2 + w3, w4, r4);
        lemma_concat_assoc(w1 + w2, w3, r3);
        lemma_concat_assoc(w1, w2, r2);
        SessionId::lemma_round_trip(m.session_id, r1);
        SequenceId::lemma_round_trip(m.sequence_id, r2);
        SlotId::lemma_round_trip(m.slot_id, r3);
        SlotId::lemma_round_trip(m.highest_slot_id, r4);
        SlotId::lemma_round_trip(m.target_highest_slot_id, r5);
        SequenceStatusFlags::lemma_round_trip(m.status_flags, r6);
    }

    fn encode(&self, out: &mut Vec<u8>) -> (r: Result<(), EncodeError>) {
        proof {
            reveal(<SequenceRes as Xdr>::model);
            reveal(<SequenceRes as Xdr>::wf);
            reveal(<SequenceRes as Xdr>::wire);
        }
        let ghost m = self.model();
        let ghost w1 = SessionId::wire(m.session_id);
        let ghost w2 = SequenceId::wire(m.sequence_id);
        let ghost w3 = SlotId::wire(m.slot_id);
        let ghost w4 = SlotId::wire(m.highest_slot_id);
        let ghost w5 = SlotId::wire(m.target_highest_slot_id);
        let ghost w6 = SequenceStatusFlags::wire(m.status_flags);
        self.session_id.encode(out)?;
        self.sequence_id.encode(out)?;
        proof {
            lemma_concat_assoc(old(out)@, w1, w2);
        }
        self.slot_id.encode(out)?;
        proof {
            lemma_concat_assoc(old(out)@, w1 + w2, w3);
        }
        self.highest_slot_id.encode(out)?;
        proof {
            lemma_concat_assoc(old(out)@, w1 + w2 + w3, w4);
        }
        self.target_highest_slot_id.encode(out)?;
        proof {
            lemma_concat_assoc(old(out)@, w1 + w2 + w3 + w4, w5);
        }
        self.status_flags.encode(out)?;
        proof {
            lemma_concat_assoc(old(out)@, w1 + w2 + w3 + w4 + w5, w6);
        }
        Ok(())
    }

    fn decode<'a>(input: &'a [u8]) -> (r: Result<(SequenceRes, &'a [u8]), XdrError>) {
        proof {
            reveal(<SequenceRes as Xdr>::model);
            reveal(<SequenceRes as Xdr>::parse);
        }
        let (session_id, cur) = SessionId::decode(input)?;
        let (sequence_id, cur) = SequenceId::decode(cur)?;
        let (slot_id, cur) = SlotId::decode(cur)?;
        let (highest_slot_id, cur) = SlotId::decode(cur)?;
        let (target_highest_slot_id, cur) = SlotId::decode(cur)?;
        let (status_flags, cur) = SequenceStatusFlags::decode(cur)?;
        Ok(
            (
                SequenceRes {
                    session_id,
                    sequence_id,
                    slot_id,
                    highest_slot_id,
                    target_highest_slot_id,
                    status_flags,
                },
                cur,
            ),
        )
    }
}

#[derive(Clone, Debug, PartialEq, Eq)]
pub struct SetSsvRes {
    pub digest: Vec<u8>,
}

/// What a [`SetSsvRes`] stands for.
pub struct SetSsvResModel {
    pub digest: Seq<u8>,
}

impl Xdr for SetSsvRes {
    type Model = SetSsvResModel;

    #[verifier::opaque]
    open spec fn model(&self) -> SetSsvResModel {
        SetSsvResModel { digest: self.digest@ }
    }

    #[verifier::opaque]
    open spec fn wf(m: SetSsvResModel) -> bool {
        &&& wf_opaque(m.digest)
    }

    #[verifier::opaque]
    open spec fn wire(m: SetSsvResModel) -> Seq<u8> {
        wire_opaque(m.digest)
    }

    #[verifier::opaque]
    open spec fn parse(s: Seq<u8>) -> Result<(SetSsvResModel, Seq<u8>), XdrError> {
        match parse_opaque(s) {
            Err(e) => Err(e),
            Ok((digest, s1)) => Ok((SetSsvResModel { digest }, s1)),
        }
    }

    proof fn lemma_round_trip(m: SetSsvResModel, rest: Seq<u8>) {
        reveal(<SetSsvRes as Xdr>::wf);
        reveal(<SetSsvRes as Xdr>::wire);
        reveal(<SetSsvRes as Xdr>::parse);
        lemma_opaque_round_trip(m.digest, rest);
    }

    fn encode(&self, out: &mut Vec<u8>) -> (r: Result<(), EncodeError>) {
        proof {
            reveal(<SetSsvRes as Xdr>::model);
            reveal(<SetSsvRes as Xdr>::wf);
            reveal(<SetSsvRes as Xdr>::wire);
        }
        encode_opaque(self.digest.as_slice(), out)?;
        Ok(())
    }

    fn decode<'a>(input: &'a [u8]) -> (r: Result<(SetSsvRes, &'a [u8]), XdrError>) {
        proof {
            reveal(<SetSsvRes as Xdr>::model);
            reveal(<SetSsvRes as Xdr>::parse);
        }
        let (digest, cur) = decode_opaque(input)?;
        let digest = copy_bytes(digest);
        Ok((SetSsvRes { digest }, cur))
    }
}

#[derive(Clone, Debug, PartialEq, Eq)]
pub struct TestStateIdRes {
    pub status_codes: Vec<StatusResult<()>>,
}

/// What a [`TestStateIdRes`] stands for.
pub struct TestStateIdResModel {
    pub status_codes: Seq<StatusResult<()>>,
}

impl Xdr for TestStateIdRes {
    type Model = TestStateIdResModel;

    #[verifier::opaque]
    open spec fn model(&self) -> TestStateIdResModel {
        TestStateIdResModel { status_codes: self.status_codes.model() }
    }

    #[verifier::opaque]
    open spec fn wf(m: TestStateIdResModel) -> bool {
        &&& Vec::<StatusResult<()>>::wf(m.status_codes)
    }

    #[verifier::opaque]
    open spec fn wire(m: TestStateIdResModel) -> Seq<u8> {
        Vec::<StatusResult<()>>::wire(m.status_codes)
    }

    #[verifier::opaque]
    open spec fn parse(s: Seq<u8>) -> Result<(TestStateIdResModel, Seq<u8>), XdrError> {
        match Vec::<StatusResult<()>>::parse(s) {
            Err(e) => Err(e),
            Ok((status_codes, s1)) => Ok((TestStateIdResModel { status_codes }, s1)),
        }
    }

    proof fn lemma_round_trip(m: TestStateIdResModel, rest: Seq<u8>) {
        reveal(<TestStateIdRes as Xdr>::wf);
        reveal(<TestStateIdRes as Xdr>::wire);
        reveal(<TestStateIdRes as Xdr>::parse);
        Vec::<StatusResult<()>>::lemma_round_trip(m.status_codes, rest);
    }

    fn encode(&self, out: &mut Vec<u8>) -> (r: Result<(), EncodeError>) {
        proof {
            reveal(<TestStateIdRes as Xdr>::model);
            reveal(<TestStateIdRes as Xdr>::wf);
            reveal(<TestStateIdRes as Xdr>::wire);
        }
        self.status_codes.encode(out)?;
        Ok(())
    }

    fn decode<'a>(input: &'a [u8]) -> (r: Result<(TestStateIdRes, &'a [u8]), XdrError>) {
        proof {
            reveal(<TestStateIdRes as Xdr>::model);
            reveal(<TestStateIdRes as Xdr>::parse);
        }
        let (status_codes, cur) = Vec::<StatusResult<()>>::decode(input)?;
        Ok((TestStateIdRes { status_codes }, cur))
    }
}

#[derive(Clone, Debug, PartialEq, Eq)]
pub struct WantDelegationRes {
    pub delegation: OpenDelegation,
}

/// What a [`WantDelegationRes`] stands for.
pub struct WantDelegationResModel {
    pub delegation: OpenDelegationModel,
}

impl Xdr for WantDelegationRes {
    type Model = WantDelegationResModel;

    #[verifier::opaque]
    open spec fn model(&self) -> WantDelegationResModel {
        WantDelegationResModel { delegation: self.delegation.model() }
    }

    #[verifier::opaque]
    open spec fn wf(m: WantDelegationResModel) -> bool {
        &&& OpenDelegation::wf(m.delegation)
    }

    #[verifier::opaque]
    open spec fn wire(m: WantDelegationResModel) -> Seq<u8> {
        OpenDelegation::wire(m.delegation)
    }

    #[verifier::opaque]
    open spec fn parse(s: Seq<u8>) -> Result<(WantDelegationResModel, Seq<u8>), XdrError> {
        match OpenDelegation::parse(s) {
            Err(e) => Err(e),
            Ok((delegation, s1)) => Ok((WantDelegationResModel { delegation }, s1)),
        }
    }

    proof fn lemma_round_trip(m: WantDelegationResModel, rest: Seq<u8>) {
        reveal(<WantDelegationRes as Xdr>::wf);
        reveal(<WantDelegationRes as Xdr>::wire);
        reveal(<WantDelegationRes as Xdr>::parse);
        OpenDelegation::lemma_round_trip(m.delegation, rest);
    }

    fn encode(&self, out: &mut Vec<u8>) -> (r: Result<(), EncodeError>) {
        proof {
            reveal(<WantDelegationRes as Xdr>::model);
            reveal(<WantDelegationRes as Xdr>::wf);
            reveal(<WantDelegationRes as Xdr>::wire);
        }
        self.delegation.encode(out)?;
        Ok(())
    }

    fn decode<'a>(input: &'a [u8]) -> (r: Result<(WantDelegationRes, &'a [u8]), XdrError>) {
        proof {
            reveal(<WantDelegationRes as Xdr>::model);
            reveal(<WantDelegationRes as Xdr>::parse);
        }
        let (delegation, cur) = OpenDelegation::decode(input)?;
        Ok((WantDelegationRes { delegation }, cur))
    }
}

pub type SecInfoNoNameRes = SecInfoRes;

impl Tagged for SpaceLimit {
    open spec fn discriminant(m: SpaceLimit) -> u32 {
        Self::tag(m)
    }

    proof fn lemma_leads_with_discriminant(m: SpaceLimit) {
        Self::lemma_wire_leads_with_tag(m);
    }
}

impl Tagged for OpenNoneDelegation {
    open spec fn discriminant(m: OpenNoneDelegation) -> u32 {
        Self::tag(m)
    }

    proof fn lemma_leads_with_discriminant(m: OpenNoneDelegation) {
        Self::lemma_wire_leads_with_tag(m);
    }
}

impl Tagged for OpenDelegation {
    open spec fn discriminant(m: OpenDelegationModel) -> u32 {
        Self::tag(m)
    }

    proof fn lemma_leads_with_discriminant(m: OpenDelegationModel) {
        Self::lemma_wire_leads_with_tag(m);
    }
}

impl Tagged for SecurityInfo {
    open spec fn discriminant(m: SecurityInfoModel) -> u32 {
        Self::tag(m)
    }

    proof fn lemma_leads_with_discriminant(m: SecurityInfoModel) {
        Self::lemma_wire_leads_with_tag(m);
    }
}

impl Tagged for NotifyDeviceIdType {
    open spec fn discriminant(m: NotifyDeviceIdType) -> u32 {
        Self::tag(m)
    }

    proof fn lemma_leads_with_discriminant(m: NotifyDeviceIdType) {
        Self::lemma_wire_leads_with_tag(m);
    }
}

} // verus!
