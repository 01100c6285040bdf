//! The operations of NFSv4.1: their identifiers, and the COMPOUND request and
//! reply that carry them.

use crate::args::{
    AccessArgs, BackchannelCtlArgs, BackchannelCtlArgsModel, BindConnToSessionArgs,
    BindConnToSessionArgsModel, CloseArgs, CloseArgsModel, CommitArgs, CreateArgs, CreateArgsModel,
    CreateSessionArgs, CreateSessionArgsModel, DelegPurgeArgs, DelegReturnArgs,
    DelegReturnArgsModel, DestroyClientIdArgs, DestroySessionArgs, DestroySessionArgsModel,
    ExchangeIdArgs, ExchangeIdArgsModel, FreeStateidArgs, FreeStateidArgsModel, GetAttrArgs,
    GetAttrArgsModel, GetDeviceInfoArgs, GetDeviceInfoArgsModel, GetDeviceListArgs,
    GetDirDelegationArgs, GetDirDelegationArgsModel, LayoutCommitArgs, LayoutCommitArgsModel,
    LayoutGetArgs, LayoutGetArgsModel, LayoutReturn, LayoutReturnArgs, LayoutReturnArgsModel,
    LinkArgs, LinkArgsModel, LockArgs, LockArgsModel, LockTArgs, LockTArgsModel, LockUArgs,
    LockUArgsModel, LookUpArgs, LookUpArgsModel, NVerifyArgs, NVerifyArgsModel, OpenArgs,
    OpenArgsModel, OpenAttrArgs, OpenDowngradeArgs, OpenDowngradeArgsModel, PutFhArgs,
    PutFhArgsModel, ReadArgs, ReadArgsModel, ReadDirArgs, ReadDirArgsModel, ReclaimCompleteArgs,
    RemoveArgs, RemoveArgsModel, RenameArgs, RenameArgsModel, SecInfoArgs, SecInfoArgsModel,
    SecInfoNoNameArgs, SequenceArgs, SequenceArgsModel, SetAttrArgs, SetAttrArgsModel, SetSsvArgs,
    SetSsvArgsModel, TestStateIdArgs, TestStateIdArgsModel, VerifyArgs, VerifyArgsModel,
    WantDelegationArgs, WriteArgs, WriteArgsModel,
};
use crate::enum_map::{EnumId};
use crate::flags::{Access};
use crate::res::{
    AccessRes, BindConnToSessionRes, BindConnToSessionResModel, CloseRes, CloseResModel, CommitRes,
    CreateRes, CreateResModel, CreateSessionRes, CreateSessionResModel, ExchangeIdRes,
    ExchangeIdResModel, GetAttrRes, GetAttrResModel, GetDeviceInfoRes, GetDeviceInfoResModel,
    GetDeviceListRes, GetDeviceListResModel, GetDirDelegationRes, GetDirDelegationResModel,
    GetFhRes, GetFhResModel, LayoutCommitRes, LayoutCommitResModel, LayoutGetRes, LayoutGetResModel,
    LayoutReturnRes, LayoutReturnResModel, LinkRes, LockRes, LockResModel, LockURes, LockUResModel,
    OpenDowngradeRes, OpenDowngradeResModel, OpenRes, OpenResModel, ReadDirRes, ReadDirResModel,
    ReadLinkRes, ReadLinkResModel, ReadRes, ReadResModel, RemoveRes, RenameRes, SecInfoRes,
    SecInfoResModel, SequenceRes, SequenceResModel, SetAttrStatusResult, SetAttrStatusResultModel,
    SetSsvRes, SetSsvResModel, TestStateIdRes, TestStateIdResModel, WantDelegationRes,
    WantDelegationResModel, WriteRes,
};
use crate::status::{LockStatusResult, LockStatusResultModel, StatusResult};
use crate::xdr::{
    lemma_concat_assoc, lemma_u32_round_trip, parse_u32, wire_u32, EncodeError, Xdr, XdrError,
};
use crate::xdr::Tagged;
use vstd::prelude::*;

verus! {

/// The operations of NFSv4.1 by number: 3 to 58, without 20, 30, 35, 36 and 39.
#[derive(Clone, Copy, Debug, PartialEq, Eq, PartialOrd, Ord)]
pub enum OperationId {
    Access,
    Close,
    Commit,
    Create,
    DelegPurge,
    DelegReturn,
    GetAttr,
    GetFh,
    Link,
    Lock,
    LockT,
    LockU,
    LookUp,
    LookUpP,
    NVerify,
    Open,
    OpenAttr,
    OpenDowngrade,
    PutFh,
    PutPubFh,
    PutRootFh,
    Read,
    ReadDir,
    ReadLink,
    Remove,
    Rename,
    RestoreFh,
    SaveFh,
    SecInfo,
    SetAttr,
    Verify,
    Write,
    BackchannelCtl,
    BindConnToSession,
    ExchangeId,
    CreateSession,
    DestroySession,
    FreeStateid,
    GetDirDelegation,
    GetDeviceInfo,
    GetDeviceList,
    LayoutCommit,
    LayoutGet,
    LayoutReturn,
    SecInfoNoName,
    Sequence,
    SetSsv,
    TestStateId,
    WantDelegation,
    DestroyClientId,
    ReclaimComplete,
}

impl OperationId {
    /// The discriminant that leads the encoding of a value.
    pub open spec fn tag(m: OperationId) -> u32 {
        match m {
            OperationId::Access => 3,
            OperationId::Close => 4,
            OperationId::Commit => 5,
            OperationId::Create => 6,
            OperationId::DelegPurge => 7,
            OperationId::DelegReturn => 8,
            OperationId::GetAttr => 9,
            OperationId::GetFh => 10,
            OperationId::Link => 11,
            OperationId::Lock => 12,
            OperationId::LockT => 13,
            OperationId::LockU => 14,
            OperationId::LookUp => 15,
            OperationId::LookUpP => 16,
            OperationId::NVerify => 17,
            OperationId::Open => 18,
            OperationId::OpenAttr => 19,
            OperationId::OpenDowngrade => 21,
            OperationId::PutFh => 22,
            OperationId::PutPubFh => 23,
            OperationId::PutRootFh => 24,
            OperationId::Read => 25,
            OperationId::ReadDir => 26,
            OperationId::ReadLink => 27,
            OperationId::Remove => 28,
            OperationId::Rename => 29,
            OperationId::RestoreFh => 31,
            OperationId::SaveFh => 32,
            OperationId::SecInfo => 33,
            OperationId::SetAttr => 34,
            OperationId::Verify => 37,
            OperationId::Write => 38,
            OperationId::BackchannelCtl => 40,
            OperationId::BindConnToSession => 41,
            OperationId::ExchangeId => 42,
            OperationId::CreateSession => 43,
            OperationId::DestroySession => 44,
            OperationId::FreeStateid => 45,
            OperationId::GetDirDelegation => 46,
            OperationId::GetDeviceInfo => 47,
            OperationId::GetDeviceList => 48,
            OperationId::LayoutCommit => 49,
            OperationId::LayoutGet => 50,
            OperationId::LayoutReturn => 51,
            OperationId::SecInfoNoName => 52,
            OperationId::Sequence => 53,
            OperationId::SetSsv => 54,
            OperationId::TestStateId => 55,
            OperationId::WantDelegation => 56,
            OperationId::DestroyClientId => 57,
            OperationId::ReclaimComplete => 58,
        }
    }

    /// What follows the discriminant in the encoding of a value.
    #[verifier::opaque]
    pub open spec fn wire_payload(m: OperationId) -> Seq<u8> {
        match m {
            OperationId::Access => Seq::<u8>::empty(),
            OperationId::Close => Seq::<u8>::empty(),
            OperationId::Commit => Seq::<u8>::empty(),
            OperationId::Create => Seq::<u8>::empty(),
            OperationId::DelegPurge => Seq::<u8>::empty(),
            OperationId::DelegReturn => Seq::<u8>::empty(),
            OperationId::GetAttr => Seq::<u8>::empty(),
            OperationId::GetFh => Seq::<u8>::empty(),
            OperationId::Link => Seq::<u8>::empty(),
            OperationId::Lock => Seq::<u8>::empty(),
            OperationId::LockT => Seq::<u8>::empty(),
            OperationId::LockU => Seq::<u8>::empty(),
            OperationId::LookUp => Seq::<u8>::empty(),
            OperationId::LookUpP => Seq::<u8>::empty(),
            OperationId::NVerify => Seq::<u8>::empty(),
            OperationId::Open => Seq::<u8>::empty(),
            OperationId::OpenAttr => Seq::<u8>::empty(),
            OperationId::OpenDowngrade => Seq::<u8>::empty(),
            OperationId::PutFh => Seq::<u8>::empty(),
            OperationId::PutPubFh => Seq::<u8>::empty(),
            OperationId::PutRootFh => Seq::<u8>::empty(),
            OperationId::Read => Seq::<u8>::empty(),
            OperationId::ReadDir => Seq::<u8>::empty(),
            OperationId::ReadLink => Seq::<u8>::empty(),
            OperationId::Remove => Seq::<u8>::empty(),
            OperationId::Rename => Seq::<u8>::empty(),
            OperationId::RestoreFh => Seq::<u8>::empty(),
            OperationId::SaveFh => Seq::<u8>::empty(),
            OperationId::SecInfo => Seq::<u8>::empty(),
            OperationId::SetAttr => Seq::<u8>::empty(),
            OperationId::Verify => Seq::<u8>::empty(),
            OperationId::Write => Seq::<u8>::empty(),
            OperationId::BackchannelCtl => Seq::<u8>::empty(),
            OperationId::BindConnToSession => Seq::<u8>::empty(),
            OperationId::ExchangeId => Seq::<u8>::empty(),
            OperationId::CreateSession => Seq::<u8>::empty(),
            OperationId::DestroySession => Seq::<u8>::empty(),
            OperationId::FreeStateid => Seq::<u8>::empty(),
            OperationId::GetDirDelegation => Seq::<u8>::empty(),
            OperationId::GetDeviceInfo => Seq::<u8>::empty(),
            OperationId::GetDeviceList => Seq::<u8>::empty(),
            OperationId::LayoutCommit => Seq::<u8>::empty(),
            OperationId::LayoutGet => Seq::<u8>::empty(),
            OperationId::LayoutReturn => Seq::<u8>::empty(),
            OperationId::SecInfoNoName => Seq::<u8>::empty(),
            OperationId::Sequence => Seq::<u8>::empty(),
            OperationId::SetSsv => Seq::<u8>::empty(),
            OperationId::TestStateId => Seq::<u8>::empty(),
            OperationId::WantDelegation => Seq::<u8>::empty(),
            OperationId::DestroyClientId => Seq::<u8>::empty(),
            OperationId::ReclaimComplete => Seq::<u8>::empty(),
        }
    }

    /// The value with the discriminant `tag` whose payload is at the front of `s`.
    #[verifier::opaque]
    pub open spec fn parse_payload(
        tag: u32,
        s: Seq<u8>,
    ) -> Result<(OperationId, Seq<u8>), XdrError> {
        if tag == 3 {
            Ok((OperationId::Access, s))
        } else if tag == 4 {
            Ok((OperationId::Close, s))
        } else if tag == 5 {
            Ok((OperationId::Commit, s))
        } else if tag == 6 {
            Ok((OperationId::Create, s))
        } else if tag == 7 {
            Ok((OperationId::DelegPurge, s))
        } else if tag == 8 {
            Ok((OperationId::DelegReturn, s))
        } else if tag == 9 {
            Ok((OperationId::GetAttr, s))
        } else if tag == 10 {
            Ok((OperationId::GetFh, s))
        } else if tag == 11 {
            Ok((OperationId::Link, s))
        } else if tag == 12 {
            Ok((OperationId::Lock, s))
        } else if tag == 13 {
            Ok((OperationId::LockT, s))
        } else if tag == 14 {
            Ok((OperationId::LockU, s))
        } else if tag == 15 {
            Ok((OperationId::LookUp, s))
        } else if tag == 16 {
            Ok((OperationId::LookUpP, s))
        } else if tag == 17 {
            Ok((OperationId::NVerify, s))
        } else if tag == 18 {
            Ok((OperationId::Open, s))
        } else if tag == 19 {
            Ok((OperationId::OpenAttr, s))
        } else if tag == 21 {
            Ok((OperationId::OpenDowngrade, s))
        } else if tag == 22 {
            Ok((OperationId::PutFh, s))
        } else if tag == 23 {
            Ok((OperationId::PutPubFh, s))
        } else if tag == 24 {
            Ok((OperationId::PutRootFh, s))
        } else if tag == 25 {
            Ok((OperationId::Read, s))
        } else if tag == 26 {
            Ok((OperationId::ReadDir, s))
        } else if tag == 27 {
            Ok((OperationId::ReadLink, s))
        } else if tag == 28 {
            Ok((OperationId::Remove, s))
        } else if tag == 29 {
            Ok((OperationId::Rename, s))
        } else if tag == 31 {
            Ok((OperationId::RestoreFh, s))
        } else if tag == 32 {
            Ok((OperationId::SaveFh, s))
        } else if tag == 33 {
            Ok((OperationId::SecInfo, s))
        } else if tag == 34 {
            Ok((OperationId::SetAttr, s))
        } else if tag == 37 {
            Ok((OperationId::Verify, s))
        } else if tag == 38 {
            Ok((OperationId::Write, s))
        } else if tag == 40 {
            Ok((OperationId::BackchannelCtl, s))
        } else if tag == 41 {
            Ok((OperationId::BindConnToSession, s))
        } else if tag == 42 {
            Ok((OperationId::ExchangeId, s))
        } else if tag == 43 {
            Ok((OperationId::CreateSession, s))
        } else if tag == 44 {
            Ok((OperationId::DestroySession, s))
        } else if tag == 45 {
            Ok((OperationId::FreeStateid, s))
        } else if tag == 46 {
            Ok((OperationId::GetDirDelegation, s))
        } else if tag == 47 {
            Ok((OperationId::GetDeviceInfo, s))
        } else if tag == 48 {
            Ok((OperationId::GetDeviceList, s))
        } else if tag == 49 {
            Ok((OperationId::LayoutCommit, s))
        } else if tag == 50 {
            Ok((OperationId::LayoutGet, s))
        } else if tag == 51 {
            Ok((OperationId::LayoutReturn, s))
        } else if tag == 52 {
            Ok((OperationId::SecInfoNoName, s))
        } else if tag == 53 {
            Ok((OperationId::Sequence, s))
        } else if tag == 54 {
            Ok((OperationId::SetSsv, s))
        } else if tag == 55 {
            Ok((OperationId::TestStateId, s))
        } else if tag == 56 {
            Ok((OperationId::WantDelegation, s))
        } else if tag == 57 {
            Ok((OperationId::DestroyClientId, s))
        } else if tag == 58 {
            Ok((OperationId::ReclaimComplete, s))
        } else {
            Err(XdrError::BadDiscriminant("OperationId", tag))
        }
    }

    pub proof fn lemma_payload_round_trip(m: OperationId, rest: Seq<u8>)
        requires
            <OperationId as Xdr>::wf(m),
        ensures
            Self::parse_payload(Self::tag(m), Self::wire_payload(m) + rest)
                == Ok::<(OperationId, Seq<u8>), XdrError>((m, rest)),
    {
        reveal(OperationId::wire_payload);
        reveal(OperationId::parse_payload);
        match m {
            OperationId::Access => {
                assert(Seq::<u8>::empty() + rest =~= rest);
            },
            OperationId::Close => {
                assert(Seq::<u8>::empty() + rest =~= rest);
            },
            OperationId::Commit => {
                assert(Seq::<u8>::empty() + rest =~= rest);
            },
            OperationId::Create => {
                assert(Seq::<u8>::empty() + rest =~= rest);
            },
            OperationId::DelegPurge => {
                assert(Seq::<u8>::empty() + rest =~= rest);
            },
            OperationId::DelegReturn => {
                assert(Seq::<u8>::empty() + rest =~= rest);
            },
            OperationId::GetAttr => {
                assert(Seq::<u8>::empty() + rest =~= rest);
            },
            OperationId::GetFh => {
                assert(Seq::<u8>::empty() + rest =~= rest);
            },
            OperationId::Link => {
                assert(Seq::<u8>::empty() + rest =~= rest);
            },
            OperationId::Lock => {
                assert(Seq::<u8>::empty() + rest =~= rest);
            },
            OperationId::LockT => {
                assert(Seq::<u8>::empty() + rest =~= rest);
            },
            OperationId::LockU => {
                assert(Seq::<u8>::empty() + rest =~= rest);
            },
            OperationId::LookUp => {
                assert(Seq::<u8>::empty() + rest =~= rest);
            },
            OperationId::LookUpP => {
                assert(Seq::<u8>::empty() + rest =~= rest);
            },
            OperationId::NVerify => {
                assert(Seq::<u8>::empty() + rest =~= rest);
            },
            OperationId::Open => {
                assert(Seq::<u8>::empty() + rest =~= rest);
            },
            OperationId::OpenAttr => {
                assert(Seq::<u8>::empty() + rest =~= rest);
            },
            OperationId::OpenDowngrade => {
                assert(Seq::<u8>::empty() + rest =~= rest);
            },
            OperationId::PutFh => {
                assert(Seq::<u8>::empty() + rest =~= rest);
            },
            OperationId::PutPubFh => {
                assert(Seq::<u8>::empty() + rest =~= rest);
            },
            OperationId::PutRootFh => {
                assert(Seq::<u8>::empty() + rest =~= rest);
            },
            OperationId::Read => {
                assert(Seq::<u8>::empty() + rest =~= rest);
            },
            OperationId::ReadDir => {
                assert(Seq::<u8>::empty() + rest =~= rest);
            },
            OperationId::ReadLink => {
                assert(Seq::<u8>::empty() + rest =~= rest);
            },
            OperationId::Remove => {
                assert(Seq::<u8>::empty() + rest =~= rest);
            },
            OperationId::Rename => {
                assert(Seq::<u8>::empty() + rest =~= rest);
            },
            OperationId::RestoreFh => {
                assert(Seq::<u8>::empty() + rest =~= rest);
            },
            OperationId::SaveFh => {
                assert(Seq::<u8>::empty() + rest =~= rest);
            },
            OperationId::SecInfo => {
                assert(Seq::<u8>::empty() + rest =~= rest);
            },
            OperationId::SetAttr => {
                assert(Seq::<u8>::empty() + rest =~= rest);
            },
            OperationId::Verify => {
                assert(Seq::<u8>::empty() + rest =~= rest);
            },
            OperationId::Write => {
                assert(Seq::<u8>::empty() + rest =~= rest);
            },
            OperationId::BackchannelCtl => {
                assert(Seq::<u8>::empty() + rest =~= rest);
            },
            OperationId::BindConnToSession => {
                assert(Seq::<u8>::empty() + rest =~= rest);
            },
            OperationId::ExchangeId => {
                assert(Seq::<u8>::empty() + rest =~= rest);
            },
            OperationId::CreateSession => {
                assert(Seq::<u8>::empty() + rest =~= rest);
            },
            OperationId::DestroySession => {
                assert(Seq::<u8>::empty() + rest =~= rest);
            },
            OperationId::FreeStateid => {
                assert(Seq::<u8>::empty() + rest =~= rest);
            },
            OperationId::GetDirDelegation => {
                assert(Seq::<u8>::empty() + rest =~= rest);
            },
            OperationId::GetDeviceInfo => {
                assert(Seq::<u8>::empty() + rest =~= rest);
            },
            OperationId::GetDeviceList => {
                assert(Seq::<u8>::empty() + rest =~= rest);
            },
            OperationId::LayoutCommit => {
                assert(Seq::<u8>::empty() + rest =~= rest);
            },
            OperationId::LayoutGet => {
                assert(Seq::<u8>::empty() + rest =~= rest);
            },
            OperationId::LayoutReturn => {
                assert(Seq::<u8>::empty() + rest =~= rest);
            },
            OperationId::SecInfoNoName => {
                assert(Seq::<u8>::empty() + rest =~= rest);
            },
            OperationId::Sequence => {
                assert(Seq::<u8>::empty() + rest =~= rest);
            },
            OperationId::SetSsv => {
                assert(Seq::<u8>::empty() + rest =~= rest);
            },
            OperationId::TestStateId => {
                assert(Seq::<u8>::empty() + rest =~= rest);
            },
            OperationId::WantDelegation => {
                assert(Seq::<u8>::empty() + rest =~= rest);
            },
            OperationId::DestroyClientId => {
                assert(Seq::<u8>::empty() + rest =~= rest);
            },
            OperationId::ReclaimComplete => {
                assert(Seq::<u8>::empty() + rest =~= rest);
            },
        }
    }

    /// The encoding of a value begins with its discriminant, big-endian.
    pub proof fn lemma_wire_leads_with_tag(m: OperationId)
        ensures
            <OperationId as Xdr>::wire(m).len() >= 4,
            <OperationId as Xdr>::wire(m).take(4) == wire_u32(Self::tag(m)),
    {
        reveal(<OperationId as Xdr>::wire);
        reveal(wire_u32);
        assert((wire_u32(Self::tag(m)) + Self::wire_payload(m)).take(4) =~= wire_u32(Self::tag(m)));
    }

    /// The discriminant of a value.
    pub fn tag_of(&self) -> (t: u32)
        ensures
            t == Self::tag(self.model()),
    {
        match self {
            OperationId::Access => 3,
            OperationId::Close => 4,
            OperationId::Commit => 5,
            OperationId::Create => 6,
            OperationId::DelegPurge => 7,
            OperationId::DelegReturn => 8,
            OperationId::GetAttr => 9,
            OperationId::GetFh => 10,
            OperationId::Link => 11,
            OperationId::Lock => 12,
            OperationId::LockT => 13,
            OperationId::LockU => 14,
            OperationId::LookUp => 15,
            OperationId::LookUpP => 16,
            OperationId::NVerify => 17,
            OperationId::Open => 18,
            OperationId::OpenAttr => 19,
            OperationId::OpenDowngrade => 21,
            OperationId::PutFh => 22,
            OperationId::PutPubFh => 23,
            OperationId::PutRootFh => 24,
            OperationId::Read => 25,
            OperationId::ReadDir => 26,
            OperationId::ReadLink => 27,
            OperationId::Remove => 28,
            OperationId::Rename => 29,
            OperationId::RestoreFh => 31,
            OperationId::SaveFh => 32,
            OperationId::SecInfo => 33,
            OperationId::SetAttr => 34,
            OperationId::Verify => 37,
            OperationId::Write => 38,
            OperationId::BackchannelCtl => 40,
            OperationId::BindConnToSession => 41,
            OperationId::ExchangeId => 42,
            OperationId::CreateSession => 43,
            OperationId::DestroySession => 44,
            OperationId::FreeStateid => 45,
            OperationId::GetDirDelegation => 46,
            OperationId::GetDeviceInfo => 47,
            OperationId::GetDeviceList => 48,
            OperationId::LayoutCommit => 49,
            OperationId::LayoutGet => 50,
            OperationId::LayoutReturn => 51,
            OperationId::SecInfoNoName => 52,
            OperationId::Sequence => 53,
            OperationId::SetSsv => 54,
            OperationId::TestStateId => 55,
            OperationId::WantDelegation => 56,
            OperationId::DestroyClientId => 57,
            OperationId::ReclaimComplete => 58,
        }
    }

    /// Appends what follows the discriminant in the encoding of `self`.
    pub fn encode_payload(&self, out: &mut Vec<u8>) -> (r: Result<(), EncodeError>)
        ensures
            r is Ok <==> <OperationId as Xdr>::wf(self.model()),
            r is Ok ==> final(out)@ == old(out)@ + Self::wire_payload(self.model()),
    {
        proof {
            reveal(OperationId::wire_payload);
        }
        match self {
            OperationId::Access => {
                assert(out@ =~= old(out)@ + Seq::<u8>::empty());
            },
            OperationId::Close => {
                assert(out@ =~= old(out)@ + Seq::<u8>::empty());
            },
            OperationId::Commit => {
                assert(out@ =~= old(out)@ + Seq::<u8>::empty());
            },
            OperationId::Create => {
                assert(out@ =~= old(out)@ + Seq::<u8>::empty());
            },
            OperationId::DelegPurge => {
                assert(out@ =~= old(out)@ + Seq::<u8>::empty());
            },
            OperationId::DelegReturn => {
                assert(out@ =~= old(out)@ + Seq::<u8>::empty());
            },
            OperationId::GetAttr => {
                assert(out@ =~= old(out)@ + Seq::<u8>::empty());
            },
            OperationId::GetFh => {
                assert(out@ =~= old(out)@ + Seq::<u8>::empty());
            },
            OperationId::Link => {
                assert(out@ =~= old(out)@ + Seq::<u8>::empty());
            },
            OperationId::Lock => {
                assert(out@ =~= old(out)@ + Seq::<u8>::empty());
            },
            OperationId::LockT => {
                assert(out@ =~= old(out)@ + Seq::<u8>::empty());
            },
            OperationId::LockU => {
                assert(out@ =~= old(out)@ + Seq::<u8>::empty());
            },
            OperationId::LookUp => {
                assert(out@ =~= old(out)@ + Seq::<u8>::empty());
            },
            OperationId::LookUpP => {
                assert(out@ =~= old(out)@ + Seq::<u8>::empty());
            },
            OperationId::NVerify => {
                assert(out@ =~= old(out)@ + Seq::<u8>::empty());
            },
            OperationId::Open => {
                assert(out@ =~= old(out)@ + Seq::<u8>::empty());
            },
            OperationId::OpenAttr => {
                assert(out@ =~= old(out)@ + Seq::<u8>::empty());
            },
            OperationId::OpenDowngrade => {
                assert(out@ =~= old(out)@ + Seq::<u8>::empty());
            },
            OperationId::PutFh => {
                assert(out@ =~= old(out)@ + Seq::<u8>::empty());
            },
            OperationId::PutPubFh => {
                assert(out@ =~= old(out)@ + Seq::<u8>::empty());
            },
            OperationId::PutRootFh => {
                assert(out@ =~= old(out)@ + Seq::<u8>::empty());
            },
            OperationId::Read => {
                assert(out@ =~= old(out)@ + Seq::<u8>::empty());
            },
            OperationId::ReadDir => {
                assert(out@ =~= old(out)@ + Seq::<u8>::empty());
            },
            OperationId::ReadLink => {
                assert(out@ =~= old(out)@ + Seq::<u8>::empty());
            },
            OperationId::Remove => {
                assert(out@ =~= old(out)@ + Seq::<u8>::empty());
            },
            OperationId::Rename => {
                assert(out@ =~= old(out)@ + Seq::<u8>::empty());
            },
            OperationId::RestoreFh => {
                assert(out@ =~= old(out)@ + Seq::<u8>::empty());
            },
            OperationId::SaveFh => {
                assert(out@ =~= old(out)@ + Seq::<u8>::empty());
            },
            OperationId::SecInfo => {
                assert(out@ =~= old(out)@ + Seq::<u8>::empty());
            },
            OperationId::SetAttr => {
                assert(out@ =~= old(out)@ + Seq::<u8>::empty());
            },
            OperationId::Verify => {
                assert(out@ =~= old(out)@ + Seq::<u8>::empty());
            },
            OperationId::Write => {
                assert(out@ =~= old(out)@ + Seq::<u8>::empty());
            },
            OperationId::BackchannelCtl => {
                assert(out@ =~= old(out)@ + Seq::<u8>::empty());
            },
            OperationId::BindConnToSession => {
                assert(out@ =~= old(out)@ + Seq::<u8>::empty());
            },
            OperationId::ExchangeId => {
                assert(out@ =~= old(out)@ + Seq::<u8>::empty());
            },
            OperationId::CreateSession => {
                assert(out@ =~= old(out)@ + Seq::<u8>::empty());
            },
            OperationId::DestroySession => {
                assert(out@ =~= old(out)@ + Seq::<u8>::empty());
            },
            OperationId::FreeStateid => {
                assert(out@ =~= old(out)@ + Seq::<u8>::empty());
            },
            OperationId::GetDirDelegation => {
                assert(out@ =~= old(out)@ + Seq::<u8>::empty());
            },
            OperationId::GetDeviceInfo => {
                assert(out@ =~= old(out)@ + Seq::<u8>::empty());
            },
            OperationId::GetDeviceList => {
                assert(out@ =~= old(out)@ + Seq::<u8>::empty());
            },
            OperationId::LayoutCommit => {
                assert(out@ =~= old(out)@ + Seq::<u8>::empty());
            },
            OperationId::LayoutGet => {
                assert(out@ =~= old(out)@ + Seq::<u8>::empty());
            },
            OperationId::LayoutReturn => {
                assert(out@ =~= old(out)@ + Seq::<u8>::empty());
            },
            OperationId::SecInfoNoName => {
                assert(out@ =~= old(out)@ + Seq::<u8>::empty());
            },
            OperationId::Sequence => {
                assert(out@ =~= old(out)@ + Seq::<u8>::empty());
            },
            OperationId::SetSsv => {
                assert(out@ =~= old(out)@ + Seq::<u8>::empty());
            },
            OperationId::TestStateId => {
                assert(out@ =~= old(out)@ + Seq::<u8>::empty());
            },
            OperationId::WantDelegation => {
                assert(out@ =~= old(out)@ + Seq::<u8>::empty());
            },
            OperationId::DestroyClientId => {
                assert(out@ =~= old(out)@ + Seq::<u8>::empty());
            },
            OperationId::ReclaimComplete => {
                assert(out@ =~= old(out)@ + Seq::<u8>::empty());
            },
        }
        Ok(())
    }

    /// Decodes the payload of the value with the discriminant `tag`.
    pub fn decode_payload<'a>(
        tag: u32,
        input: &'a [u8],
    ) -> (r: Result<(OperationId, &'a [u8]), XdrError>)
        ensures
            match r {
                Ok((v, rest)) => {
                    Self::parse_payload(tag, input@)
                        == Ok::<(OperationId, Seq<u8>), XdrError>((v.model(), rest@))
                },
                Err(e) => {
                    Self::parse_payload(tag, input@) == Err::<(OperationId, Seq<u8>), XdrError>(e)
                },
            },
    {
        proof {
            reveal(OperationId::parse_payload);
        }
        if tag == 3 {
            Ok((OperationId::Access, input))
        } else if tag == 4 {
            Ok((OperationId::Close, input))
        } else if tag == 5 {
            Ok((OperationId::Commit, input))
        } else if tag == 6 {
            Ok((OperationId::Create, input))
        } else if tag == 7 {
            Ok((OperationId::DelegPurge, input))
        } else if tag == 8 {
            Ok((OperationId::DelegReturn, input))
        } else if tag == 9 {
            Ok((OperationId::GetAttr, input))
        } else if tag == 10 {
            Ok((OperationId::GetFh, input))
        } else if tag == 11 {
            Ok((OperationId::Link, input))
        } else if tag == 12 {
            Ok((OperationId::Lock, input))
        } else if tag == 13 {
            Ok((OperationId::LockT, input))
        } else if tag == 14 {
            Ok((OperationId::LockU, input))
        } else if tag == 15 {
            Ok((OperationId::LookUp, input))
        } else if tag == 16 {
            Ok((OperationId::LookUpP, input))
        } else if tag == 17 {
            Ok((OperationId::NVerify, input))
        } else if tag == 18 {
            Ok((OperationId::Open, input))
        } else if tag == 19 {
            Ok((OperationId::OpenAttr, input))
        } else if tag == 21 {
            Ok((OperationId::OpenDowngrade, input))
        } else if tag == 22 {
            Ok((OperationId::PutFh, input))
        } else if tag == 23 {
            Ok((OperationId::PutPubFh, input))
        } else if tag == 24 {
            Ok((OperationId::PutRootFh, input))
        } else if tag == 25 {
            Ok((OperationId::Read, input))
        } else if tag == 26 {
            Ok((OperationId::ReadDir, input))
        } else if tag == 27 {
            Ok((OperationId::ReadLink, input))
        } else if tag == 28 {
            Ok((OperationId::Remove, input))
        } else if tag == 29 {
            Ok((OperationId::Rename, input))
        } else if tag == 31 {
            Ok((OperationId::RestoreFh, input))
        } else if tag == 32 {
            Ok((OperationId::SaveFh, input))
        } else if tag == 33 {
            Ok((OperationId::SecInfo, input))
        } else if tag == 34 {
            Ok((OperationId::SetAttr, input))
        } else if tag == 37 {
            Ok((OperationId::Verify, input))
        } else if tag == 38 {
            Ok((OperationId::Write, input))
        } else if tag == 40 {
            Ok((OperationId::BackchannelCtl, input))
        } else if tag == 41 {
            Ok((OperationId::BindConnToSession, input))
        } else if tag == 42 {
            Ok((OperationId::ExchangeId, input))
        } else if tag == 43 {
            Ok((OperationId::CreateSession, input))
        } else if tag == 44 {
            Ok((OperationId::DestroySession, input))
        } else if tag == 45 {
            Ok((OperationId::FreeStateid, input))
        } else if tag == 46 {
            Ok((OperationId::GetDirDelegation, input))
        } else if tag == 47 {
            Ok((OperationId::GetDeviceInfo, input))
        } else if tag == 48 {
            Ok((OperationId::GetDeviceList, input))
        } else if tag == 49 {
            Ok((OperationId::LayoutCommit, input))
        } else if tag == 50 {
            Ok((OperationId::LayoutGet, input))
        } else if tag == 51 {
            Ok((OperationId::LayoutReturn, input))
        } else if tag == 52 {
            Ok((OperationId::SecInfoNoName, input))
        } else if tag == 53 {
            Ok((OperationId::Sequence, input))
        } else if tag == 54 {
            Ok((OperationId::SetSsv, input))
        } else if tag == 55 {
            Ok((OperationId::TestStateId, input))
        } else if tag == 56 {
            Ok((OperationId::WantDelegation, input))
        } else if tag == 57 {
            Ok((OperationId::DestroyClientId, input))
        } else if tag == 58 {
            Ok((OperationId::ReclaimComplete, input))
        } else {
            Err(XdrError::BadDiscriminant("OperationId", tag))
        }
    }
}

impl Xdr for OperationId {
    type Model = OperationId;

    open spec fn model(&self) -> OperationId {
        *self
    }

    open spec fn wf(m: OperationId) -> bool {
        true
    }

    #[verifier::opaque]
    open spec fn wire(m: OperationId) -> Seq<u8> {
        wire_u32(Self::tag(m)) + Self::wire_payload(m)
    }

    #[verifier::opaque]
    open spec fn parse(s: Seq<u8>) -> Result<(OperationId, Seq<u8>), XdrError> {
        match parse_u32(s) {
            Ok((tag, r)) => Self::parse_payload(tag, r),
            Err(e) => Err(e),
        }
    }

    proof fn lemma_round_trip(m: OperationId, rest: Seq<u8>) {
        reveal(<OperationId as Xdr>::wire);
        reveal(<OperationId as Xdr>::parse);
        lemma_concat_assoc(wire_u32(Self::tag(m)), Self::wire_payload(m), rest);
        lemma_u32_round_trip(Self::tag(m), Self::wire_payload(m) + rest);
        Self::lemma_payload_round_trip(m, rest);
    }

    fn encode(&self, out: &mut Vec<u8>) -> (r: Result<(), EncodeError>) {
        proof {
            reveal(<OperationId as Xdr>::wire);
        }
        let tag = self.tag_of();
        let _ = tag.encode(out);
        self.encode_payload(out)?;
        proof {
            lemma_concat_assoc(old(out)@, wire_u32(tag), Self::wire_payload(self.model()));
        }
        Ok(())
    }

    fn decode<'a>(input: &'a [u8]) -> (r: Result<(OperationId, &'a [u8]), XdrError>) {
        proof {
            reveal(<OperationId as Xdr>::parse);
        }
        let (tag, cur) = u32::decode(input)?;
        Self::decode_payload(tag, cur)
    }
}

impl EnumId for OperationId {
    open spec fn id(self) -> u32 {
        Self::tag(self)
    }

    open spec fn from_id(id: u32) -> Option<Self> {
        if id == 3 {
            Some(OperationId::Access)
        } else if id == 4 {
            Some(OperationId::Close)
        } else if id == 5 {
            Some(OperationId::Commit)
        } else if id == 6 {
            Some(OperationId::Create)
        } else if id == 7 {
            Some(OperationId::DelegPurge)
        } else if id == 8 {
            Some(OperationId::DelegReturn)
        } else if id == 9 {
            Some(OperationId::GetAttr)
        } else if id == 10 {
            Some(OperationId::GetFh)
        } else if id == 11 {
            Some(OperationId::Link)
        } else if id == 12 {
            Some(OperationId::Lock)
        } else if id == 13 {
            Some(OperationId::LockT)
        } else if id == 14 {
            Some(OperationId::LockU)
        } else if id == 15 {
            Some(OperationId::LookUp)
        } else if id == 16 {
            Some(OperationId::LookUpP)
        } else if id == 17 {
            Some(OperationId::NVerify)
        } else if id == 18 {
            Some(OperationId::Open)
        } else if id == 19 {
            Some(OperationId::OpenAttr)
        } else if id == 21 {
            Some(OperationId::OpenDowngrade)
        } else if id == 22 {
            Some(OperationId::PutFh)
        } else if id == 23 {
            Some(OperationId::PutPubFh)
        } else if id == 24 {
            Some(OperationId::PutRootFh)
        } else if id == 25 {
            Some(OperationId::Read)
        } else if id == 26 {
            Some(OperationId::ReadDir)
        } else if id == 27 {
            Some(OperationId::ReadLink)
        } else if id == 28 {
            Some(OperationId::Remove)
        } else if id == 29 {
            Some(OperationId::Rename)
        } else if id == 31 {
            Some(OperationId::RestoreFh)
        } else if id == 32 {
            Some(OperationId::SaveFh)
        } else if id == 33 {
            Some(OperationId::SecInfo)
        } else if id == 34 {
            Some(OperationId::SetAttr)
        } else if id == 37 {
            Some(OperationId::Verify)
        } else if id == 38 {
            Some(OperationId::Write)
        } else if id == 40 {
            Some(OperationId::BackchannelCtl)
        } else if id == 41 {
            Some(OperationId::BindConnToSession)
        } else if id == 42 {
            Some(OperationId::ExchangeId)
        } else if id == 43 {
            Some(OperationId::CreateSession)
        } else if id == 44 {
            Some(OperationId::DestroySession)
        } else if id == 45 {
            Some(OperationId::FreeStateid)
        } else if id == 46 {
            Some(OperationId::GetDirDelegation)
        } else if id == 47 {
            Some(OperationId::GetDeviceInfo)
        } else if id == 48 {
            Some(OperationId::GetDeviceList)
        } else if id == 49 {
            Some(OperationId::LayoutCommit)
        } else if id == 50 {
            Some(OperationId::LayoutGet)
        } else if id == 51 {
            Some(OperationId::LayoutReturn)
        } else if id == 52 {
            Some(OperationId::SecInfoNoName)
        } else if id == 53 {
            Some(OperationId::Sequence)
        } else if id == 54 {
            Some(OperationId::SetSsv)
        } else if id == 55 {
            Some(OperationId::TestStateId)
        } else if id == 56 {
            Some(OperationId::WantDelegation)
        } else if id == 57 {
            Some(OperationId::DestroyClientId)
        } else if id == 58 {
            Some(OperationId::ReclaimComplete)
        } else {
            None
        }
    }

    proof fn lemma_from_id(id: u32) {
    }

    proof fn lemma_id(k: Self) {
    }

    fn to_u32(self) -> (r: u32) {
        self.tag_of()
    }

    fn try_from_u32(id: u32) -> (r: Option<Self>) {
        if id == 3 {
            Some(OperationId::Access)
        } else if id == 4 {
            Some(OperationId::Close)
        } else if id == 5 {
            Some(OperationId::Commit)
        } else if id == 6 {
            Some(OperationId::Create)
        } else if id == 7 {
            Some(OperationId::DelegPurge)
        } else if id == 8 {
            Some(OperationId::DelegReturn)
        } else if id == 9 {
            Some(OperationId::GetAttr)
        } else if id == 10 {
            Some(OperationId::GetFh)
        } else if id == 11 {
            Some(OperationId::Link)
        } else if id == 12 {
            Some(OperationId::Lock)
        } else if id == 13 {
            Some(OperationId::LockT)
        } else if id == 14 {
            Some(OperationId::LockU)
        } else if id == 15 {
            Some(OperationId::LookUp)
        } else if id == 16 {
            Some(OperationId::LookUpP)
        } else if id == 17 {
            Some(OperationId::NVerify)
        } else if id == 18 {
            Some(OperationId::Open)
        } else if id == 19 {
            Some(OperationId::OpenAttr)
        } else if id == 21 {
            Some(OperationId::OpenDowngrade)
        } else if id == 22 {
            Some(OperationId::PutFh)
        } else if id == 23 {
            Some(OperationId::PutPubFh)
        } else if id == 24 {
            Some(OperationId::PutRootFh)
        } else if id == 25 {
            Some(OperationId::Read)
        } else if id == 26 {
            Some(OperationId::ReadDir)
        } else if id == 27 {
            Some(OperationId::ReadLink)
        } else if id == 28 {
            Some(OperationId::Remove)
        } else if id == 29 {
            Some(OperationId::Rename)
        } else if id == 31 {
            Some(OperationId::RestoreFh)
        } else if id == 32 {
            Some(OperationId::SaveFh)
        } else if id == 33 {
            Some(OperationId::SecInfo)
        } else if id == 34 {
            Some(OperationId::SetAttr)
        } else if id == 37 {
            Some(OperationId::Verify)
        } else if id == 38 {
            Some(OperationId::Write)
        } else if id == 40 {
            Some(OperationId::BackchannelCtl)
        } else if id == 41 {
            Some(OperationId::BindConnToSession)
        } else if id == 42 {
            Some(OperationId::ExchangeId)
        } else if id == 43 {
            Some(OperationId::CreateSession)
        } else if id == 44 {
            Some(OperationId::DestroySession)
        } else if id == 45 {
            Some(OperationId::FreeStateid)
        } else if id == 46 {
            Some(OperationId::GetDirDelegation)
        } else if id == 47 {
            Some(OperationId::GetDeviceInfo)
        } else if id == 48 {
            Some(OperationId::GetDeviceList)
        } else if id == 49 {
            Some(OperationId::LayoutCommit)
        } else if id == 50 {
            Some(OperationId::LayoutGet)
        } else if id == 51 {
            Some(OperationId::LayoutReturn)
        } else if id == 52 {
            Some(OperationId::SecInfoNoName)
        } else if id == 53 {
            Some(OperationId::Sequence)
        } else if id == 54 {
            Some(OperationId::SetSsv)
        } else if id == 55 {
            Some(OperationId::TestStateId)
        } else if id == 56 {
            Some(OperationId::WantDelegation)
        } else if id == 57 {
            Some(OperationId::DestroyClientId)
        } else if id == 58 {
            Some(OperationId::ReclaimComplete)
        } else {
            None
        }
    }
}

/// An operation of a COMPOUND request together with its arguments.
#[derive(Clone, Debug, PartialEq, Eq)]
pub enum ArgOp {
    Access(AccessArgs),
    Close(CloseArgs),
    Commit(CommitArgs),
    Create(CreateArgs),
    DelegPurge(DelegPurgeArgs),
    DelegReturn(DelegReturnArgs),
    GetAttr(GetAttrArgs),
    GetFh,
    Link(LinkArgs),
    Lock(LockArgs),
    LockT(LockTArgs),
    LockU(LockUArgs),
    LookUp(LookUpArgs),
    LookUpP,
    NVerify(NVerifyArgs),
    Open(OpenArgs),
    OpenAttr(OpenAttrArgs),
    OpenDowngrade(OpenDowngradeArgs),
    PutFh(PutFhArgs),
    PutPubFh,
    PutRootFh,
    Read(ReadArgs),
    ReadDir(ReadDirArgs),
    ReadLink,
    Remove(RemoveArgs),
    Rename(RenameArgs),
    RestoreFh,
    SaveFh,
    SecInfo(SecInfoArgs),
    SetAttr(SetAttrArgs),
    Verify(VerifyArgs),
    Write(WriteArgs),
    BackchannelCtl(BackchannelCtlArgs),
    BindConnToSession(BindConnToSessionArgs),
    ExchangeId(ExchangeIdArgs),
    CreateSession(CreateSessionArgs),
    DestroySession(DestroySessionArgs),
    FreeStateid(FreeStateidArgs),
    GetDirDelegation(GetDirDelegationArgs),
    GetDeviceInfo(GetDeviceInfoArgs),
    GetDeviceList(GetDeviceListArgs),
    LayoutCommit(LayoutCommitArgs),
    LayoutGet(LayoutGetArgs),
    LayoutReturn(LayoutReturnArgs),
    SecInfoNoName(SecInfoNoNameArgs),
    Sequence(SequenceArgs),
    SetSsv(SetSsvArgs),
    TestStateId(TestStateIdArgs),
    WantDelegation(WantDelegationArgs),
    DestroyClientId(DestroyClientIdArgs),
    ReclaimComplete(ReclaimCompleteArgs),
}

/// What a [`ArgOp`] stands for.
pub enum ArgOpModel {
    Access(AccessArgs),
    Close(CloseArgsModel),
    Commit(CommitArgs),
    Create(CreateArgsModel),
    DelegPurge(DelegPurgeArgs),
    DelegReturn(DelegReturnArgsModel),
    GetAttr(GetAttrArgsModel),
    GetFh,
    Link(LinkArgsModel),
    Lock(LockArgsModel),
    LockT(LockTArgsModel),
    LockU(LockUArgsModel),
    LookUp(LookUpArgsModel),
    LookUpP,
    NVerify(NVerifyArgsModel),
    Open(OpenArgsModel),
    OpenAttr(OpenAttrArgs),
    OpenDowngrade(OpenDowngradeArgsModel),
    PutFh(PutFhArgsModel),
    PutPubFh,
    PutRootFh,
    Read(ReadArgsModel),
    ReadDir(ReadDirArgsModel),
    ReadLink,
    Remove(RemoveArgsModel),
    Rename(RenameArgsModel),
    RestoreFh,
    SaveFh,
    SecInfo(SecInfoArgsModel),
    SetAttr(SetAttrArgsModel),
    Verify(VerifyArgsModel),
    Write(WriteArgsModel),
    BackchannelCtl(BackchannelCtlArgsModel),
    BindConnToSession(BindConnToSessionArgsModel),
    ExchangeId(ExchangeIdArgsModel),
    CreateSession(CreateSessionArgsModel),
    DestroySession(DestroySessionArgsModel),
    FreeStateid(FreeStateidArgsModel),
    GetDirDelegation(GetDirDelegationArgsModel),
    GetDeviceInfo(GetDeviceInfoArgsModel),
    GetDeviceList(GetDeviceListArgs),
    LayoutCommit(LayoutCommitArgsModel),
    LayoutGet(LayoutGetArgsModel),
    LayoutReturn(LayoutReturnArgsModel),
    SecInfoNoName(SecInfoNoNameArgs),
    Sequence(SequenceArgsModel),
    SetSsv(SetSsvArgsModel),
    TestStateId(TestStateIdArgsModel),
    WantDelegation(WantDelegationArgs),
    DestroyClientId(DestroyClientIdArgs),
    ReclaimComplete(ReclaimCompleteArgs),
}

impl ArgOp {
    /// The discriminant that leads the encoding of a value.
    pub open spec fn tag(m: ArgOpModel) -> u32 {
        match m {
            ArgOpModel::Access(..) => 3,
            ArgOpModel::Close(..) => 4,
            ArgOpModel::Commit(..) => 5,
            ArgOpModel::Create(..) => 6,
            ArgOpModel::DelegPurge(..) => 7,
            ArgOpModel::DelegReturn(..) => 8,
            ArgOpModel::GetAttr(..) => 9,
            ArgOpModel::GetFh => 10,
            ArgOpModel::Link(..) => 11,
            ArgOpModel::Lock(..) => 12,
            ArgOpModel::LockT(..) => 13,
            ArgOpModel::LockU(..) => 14,
            ArgOpModel::LookUp(..) => 15,
            ArgOpModel::LookUpP => 16,
            ArgOpModel::NVerify(..) => 17,
            ArgOpModel::Open(..) => 18,
            ArgOpModel::OpenAttr(..) => 19,
            ArgOpModel::OpenDowngrade(..) => 21,
            ArgOpModel::PutFh(..) => 22,
            ArgOpModel::PutPubFh => 23,
            ArgOpModel::PutRootFh => 24,
            ArgOpModel::Read(..) => 25,
            ArgOpModel::ReadDir(..) => 26,
            ArgOpModel::ReadLink => 27,
            ArgOpModel::Remove(..) => 28,
            ArgOpModel::Rename(..) => 29,
            ArgOpModel::RestoreFh => 31,
            ArgOpModel::SaveFh => 32,
            ArgOpModel::SecInfo(..) => 33,
            ArgOpModel::SetAttr(..) => 34,
            ArgOpModel::Verify(..) => 37,
            ArgOpModel::Write(..) => 38,
            ArgOpModel::BackchannelCtl(..) => 40,
            ArgOpModel::BindConnToSession(..) => 41,
            ArgOpModel::ExchangeId(..) => 42,
            ArgOpModel::CreateSession(..) => 43,
            ArgOpModel::DestroySession(..) => 44,
            ArgOpModel::FreeStateid(..) => 45,
            ArgOpModel::GetDirDelegation(..) => 46,
            ArgOpModel::GetDeviceInfo(..) => 47,
            ArgOpModel::GetDeviceList(..) => 48,
            ArgOpModel::LayoutCommit(..) => 49,
            ArgOpModel::LayoutGet(..) => 50,
            ArgOpModel::LayoutReturn(..) => 51,
            ArgOpModel::SecInfoNoName(..) => 52,
            ArgOpModel::Sequence(..) => 53,
            ArgOpModel::SetSsv(..) => 54,
            ArgOpModel::TestStateId(..) => 55,
            ArgOpModel::WantDelegation(..) => 56,
            ArgOpModel::DestroyClientId(..) => 57,
            ArgOpModel::ReclaimComplete(..) => 58,
        }
    }

    /// What follows the discriminant in the encoding of a value.
    #[verifier::opaque]
    pub open spec fn wire_payload(m: ArgOpModel) -> Seq<u8> {
        match m {
            ArgOpModel::Access(f0) => AccessArgs::wire(f0),
            ArgOpModel::Close(f0) => CloseArgs::wire(f0),
            ArgOpModel::Commit(f0) => CommitArgs::wire(f0),
            ArgOpModel::Create(f0) => CreateArgs::wire(f0),
            ArgOpModel::DelegPurge(f0) => DelegPurgeArgs::wire(f0),
            ArgOpModel::DelegReturn(f0) => DelegReturnArgs::wire(f0),
            ArgOpModel::GetAttr(f0) => GetAttrArgs::wire(f0),
            ArgOpModel::GetFh => Seq::<u8>::empty(),
            ArgOpModel::Link(f0) => LinkArgs::wire(f0),
            ArgOpModel::Lock(f0) => LockArgs::wire(f0),
            ArgOpModel::LockT(f0) => LockTArgs::wire(f0),
            ArgOpModel::LockU(f0) => LockUArgs::wire(f0),
            ArgOpModel::LookUp(f0) => LookUpArgs::wire(f0),
            ArgOpModel::LookUpP => Seq::<u8>::empty(),
            ArgOpModel::NVerify(f0) => NVerifyArgs::wire(f0),
            ArgOpModel::Open(f0) => OpenArgs::wire(f0),
            ArgOpModel::OpenAttr(f0) => OpenAttrArgs::wire(f0),
            ArgOpModel::OpenDowngrade(f0) => OpenDowngradeArgs::wire(f0),
            ArgOpModel::PutFh(f0) => PutFhArgs::wire(f0),
            ArgOpModel::PutPubFh => Seq::<u8>::empty(),
            ArgOpModel::PutRootFh => Seq::<u8>::empty(),
            ArgOpModel::Read(f0) => ReadArgs::wire(f0),
            ArgOpModel::ReadDir(f0) => ReadDirArgs::wire(f0),
            ArgOpModel::ReadLink => Seq::<u8>::empty(),
            ArgOpModel::Remove(f0) => RemoveArgs::wire(f0),
            ArgOpModel::Rename(f0) => RenameArgs::wire(f0),
            ArgOpModel::RestoreFh => Seq::<u8>::empty(),
            ArgOpModel::SaveFh => Seq::<u8>::empty(),
            ArgOpModel::SecInfo(f0) => SecInfoArgs::wire(f0),
            ArgOpModel::SetAttr(f0) => SetAttrArgs::wire(f0),
            ArgOpModel::Verify(f0) => VerifyArgs::wire(f0),
            ArgOpModel::Write(f0) => WriteArgs::wire(f0),
            ArgOpModel::BackchannelCtl(f0) => BackchannelCtlArgs::wire(f0),
            ArgOpModel::BindConnToSession(f0) => BindConnToSessionArgs::wire(f0),
            ArgOpModel::ExchangeId(f0) => ExchangeIdArgs::wire(f0),
            ArgOpModel::CreateSession(f0) => CreateSessionArgs::wire(f0),
            ArgOpModel::DestroySession(f0) => DestroySessionArgs::wire(f0),
            ArgOpModel::FreeStateid(f0) => FreeStateidArgs::wire(f0),
            ArgOpModel::GetDirDelegation(f0) => GetDirDelegationArgs::wire(f0),
            ArgOpModel::GetDeviceInfo(f0) => GetDeviceInfoArgs::wire(f0),
            ArgOpModel::GetDeviceList(f0) => GetDeviceListArgs::wire(f0),
            ArgOpModel::LayoutCommit(f0) => LayoutCommitArgs::wire(f0),
            ArgOpModel::LayoutGet(f0) => LayoutGetArgs::wire(f0),
            ArgOpModel::LayoutReturn(f0) => LayoutReturnArgs::wire(f0),
            ArgOpModel::SecInfoNoName(f0) => SecInfoNoNameArgs::wire(f0),
            ArgOpModel::Sequence(f0) => SequenceArgs::wire(f0),
            ArgOpModel::SetSsv(f0) => SetSsvArgs::wire(f0),
            ArgOpModel::TestStateId(f0) => TestStateIdArgs::wire(f0),
            ArgOpModel::WantDelegation(f0) => WantDelegationArgs::wire(f0),
            ArgOpModel::DestroyClientId(f0) => DestroyClientIdArgs::wire(f0),
            ArgOpModel::ReclaimComplete(f0) => ReclaimCompleteArgs::wire(f0),
        }
    }

    /// The value with the discriminant `tag` whose payload is at the front of `s`.
    #[verifier::opaque]
    pub open spec fn parse_payload(
        tag: u32,
        s: Seq<u8>,
    ) -> Result<(ArgOpModel, Seq<u8>), XdrError> {
        if tag == 3 {
            match AccessArgs::parse(s) {
                Err(e) => Err(e),
                Ok((f0, s1)) => Ok((ArgOpModel::Access(f0), s1)),
            }
        } else if tag == 4 {
            match CloseArgs::parse(s) {
                Err(e) => Err(e),
                Ok((f0, s1)) => Ok((ArgOpModel::Close(f0), s1)),
            }
        } else if tag == 5 {
            match CommitArgs::parse(s) {
                Err(e) => Err(e),
                Ok((f0, s1)) => Ok((ArgOpModel::Commit(f0), s1)),
            }
        } else if tag == 6 {
            match CreateArgs::parse(s) {
                Err(e) => Err(e),
                Ok((f0, s1)) => Ok((ArgOpModel::Create(f0), s1)),
            }
        } else if tag == 7 {
            match DelegPurgeArgs::parse(s) {
                Err(e) => Err(e),
                Ok((f0, s1)) => Ok((ArgOpModel::DelegPurge(f0), s1)),
            }
        } else if tag == 8 {
            match DelegReturnArgs::parse(s) {
                Err(e) => Err(e),
                Ok((f0, s1)) => Ok((ArgOpModel::DelegReturn(f0), s1)),
            }
        } else if tag == 9 {
            match GetAttrArgs::parse(s) {
                Err(e) => Err(e),
                Ok((f0, s1)) => Ok((ArgOpModel::GetAttr(f0), s1)),
            }
        } else if tag == 10 {
            Ok((ArgOpModel::GetFh, s))
        } else if tag == 11 {
            match LinkArgs::parse(s) {
                Err(e) => Err(e),
                Ok((f0, s1)) => Ok((ArgOpModel::Link(f0), s1)),
            }
        } else if tag == 12 {
            match LockArgs::parse(s) {
                Err(e) => Err(e),
                Ok((f0, s1)) => Ok((ArgOpModel::Lock(f0), s1)),
            }
        } else if tag == 13 {
            match LockTArgs::parse(s) {
                Err(e) => Err(e),
                Ok((f0, s1)) => Ok((ArgOpModel::LockT(f0), s1)),
            }
        } else if tag == 14 {
            match LockUArgs::parse(s) {
                Err(e) => Err(e),
                Ok((f0, s1)) => Ok((ArgOpModel::LockU(f0), s1)),
            }
        } else if tag == 15 {
            match LookUpArgs::parse(s) {
                Err(e) => Err(e),
                Ok((f0, s1)) => Ok((ArgOpModel::LookUp(f0), s1)),
            }
        } else if tag == 16 {
            Ok((ArgOpModel::LookUpP, s))
        } else if tag == 17 {
            match NVerifyArgs::parse(s) {
                Err(e) => Err(e),
                Ok((f0, s1)) => Ok((ArgOpModel::NVerify(f0), s1)),
            }
        } else if tag == 18 {
            match OpenArgs::parse(s) {
                Err(e) => Err(e),
                Ok((f0, s1)) => Ok((ArgOpModel::Open(f0), s1)),
            }
        } else if tag == 19 {
            match OpenAttrArgs::parse(s) {
                Err(e) => Err(e),
                Ok((f0, s1)) => Ok((ArgOpModel::OpenAttr(f0), s1)),
            }
        } else if tag == 21 {
            match OpenDowngradeArgs::parse(s) {
                Err(e) => Err(e),
                Ok((f0, s1)) => Ok((ArgOpModel::OpenDowngrade(f0), s1)),
            }
        } else if tag == 22 {
            match PutFhArgs::parse(s) {
                Err(e) => Err(e),
                Ok((f0, s1)) => Ok((ArgOpModel::PutFh(f0), s1)),
            }
        } else if tag == 23 {
            Ok((ArgOpModel::PutPubFh, s))
        } else if tag == 24 {
            Ok((ArgOpModel::PutRootFh, s))
        } else if tag == 25 {
            match ReadArgs::parse(s) {
                Err(e) => Err(e),
                Ok((f0, s1)) => Ok((ArgOpModel::Read(f0), s1)),
            }
        } else if tag == 26 {
            match ReadDirArgs::parse(s) {
                Err(e) => Err(e),
                Ok((f0, s1)) => Ok((ArgOpModel::ReadDir(f0), s1)),
            }
        } else if tag == 27 {
            Ok((ArgOpModel::ReadLink, s))
        } else if tag == 28 {
            match RemoveArgs::parse(s) {
                Err(e) => Err(e),
                Ok((f0, s1)) => Ok((ArgOpModel::Remove(f0), s1)),
            }
        } else if tag == 29 {
            match RenameArgs::parse(s) {
                Err(e) => Err(e),
                Ok((f0, s1)) => Ok((ArgOpModel::Rename(f0), s1)),
            }
        } else if tag == 31 {
            Ok((ArgOpModel::RestoreFh, s))
        } else if tag == 32 {
            Ok((ArgOpModel::SaveFh, s))
        } else if tag == 33 {
            match SecInfoArgs::parse(s) {
                Err(e) => Err(e),
                Ok((f0, s1)) => Ok((ArgOpModel::SecInfo(f0), s1)),
            }
        } else if tag == 34 {
            match SetAttrArgs::parse(s) {
                Err(e) => Err(e),
                Ok((f0, s1)) => Ok((ArgOpModel::SetAttr(f0), s1)),
            }
        } else if tag == 37 {
            match VerifyArgs::parse(s) {
                Err(e) => Err(e),
                Ok((f0, s1)) => Ok((ArgOpModel::Verify(f0), s1)),
            }
        } else if tag == 38 {
            match WriteArgs::parse(s) {
                Err(e) => Err(e),
                Ok((f0, s1)) => Ok((ArgOpModel::Write(f0), s1)),
            }
        } else if tag == 40 {
            match BackchannelCtlArgs::parse(s) {
                Err(e) => Err(e),
                Ok((f0, s1)) => Ok((ArgOpModel::BackchannelCtl(f0), s1)),
            }
        } else if tag == 41 {
            match BindConnToSessionArgs::parse(s) {
                Err(e) => Err(e),
                Ok((f0, s1)) => Ok((ArgOpModel::BindConnToSession(f0), s1)),
            }
        } else if tag == 42 {
            match ExchangeIdArgs::parse(s) {
                Err(e) => Err(e),
                Ok((f0, s1)) => Ok((ArgOpModel::ExchangeId(f0), s1)),
            }
        } else if tag == 43 {
            match CreateSessionArgs::parse(s) {
                Err(e) => Err(e),
                Ok((f0, s1)) => Ok((ArgOpModel::CreateSession(f0), s1)),
            }
        } else if tag == 44 {
            match DestroySessionArgs::parse(s) {
                Err(e) => Err(e),
                Ok((f0, s1)) => Ok((ArgOpModel::DestroySession(f0), s1)),
            }
        } else if tag == 45 {
            match FreeStateidArgs::parse(s) {
                Err(e) => Err(e),
                Ok((f0, s1)) => Ok((ArgOpModel::FreeStateid(f0), s1)),
            }
        } else if tag == 46 {
            match GetDirDelegationArgs::parse(s) {
                Err(e) => Err(e),
                Ok((f0, s1)) => Ok((ArgOpModel::GetDirDelegation(f0), s1)),
            }
        } else if tag == 47 {
            match GetDeviceInfoArgs::parse(s) {
                Err(e) => Err(e),
                Ok((f0, s1)) => Ok((ArgOpModel::GetDeviceInfo(f0), s1)),
            }
        } else if tag == 48 {
            match GetDeviceListArgs::parse(s) {
                Err(e) => Err(e),
                Ok((f0, s1)) => Ok((ArgOpModel::GetDeviceList(f0), s1)),
            }
        } else if tag == 49 {
            match LayoutCommitArgs::parse(s) {
                Err(e) => Err(e),
                Ok((f0, s1)) => Ok((ArgOpModel::LayoutCommit(f0), s1)),
            }
        } else if tag == 50 {
            match LayoutGetArgs::parse(s) {
                Err(e) => Err(e),
                Ok((f0, s1)) => Ok((ArgOpModel::LayoutGet(f0), s1)),
            }
        } else if tag == 51 {
            match LayoutReturnArgs::parse(s) {
                Err(e) => Err(e),
                Ok((f0, s1)) => Ok((ArgOpModel::LayoutReturn(f0), s1)),
            }
        } else if tag == 52 {
            match SecInfoNoNameArgs::parse(s) {
                Err(e) => Err(e),
                Ok((f0, s1)) => Ok((ArgOpModel::SecInfoNoName(f0), s1)),
            }
        } else if tag == 53 {
            match SequenceArgs::parse(s) {
                Err(e) => Err(e),
                Ok((f0, s1)) => Ok((ArgOpModel::Sequence(f0), s1)),
            }
        } else if tag == 54 {
            match SetSsvArgs::parse(s) {
                Err(e) => Err(e),
                Ok((f0, s1)) => Ok((ArgOpModel::SetSsv(f0), s1)),
            }
        } else if tag == 55 {
            match TestStateIdArgs::parse(s) {
                Err(e) => Err(e),
                Ok((f0, s1)) => Ok((ArgOpModel::TestStateId(f0), s1)),
            }
        } else if tag == 56 {
            match WantDelegationArgs::parse(s) {
                Err(e) => Err(e),
                Ok((f0, s1)) => Ok((ArgOpModel::WantDelegation(f0), s1)),
            }
        } else if tag == 57 {
            match DestroyClientIdArgs::parse(s) {
                Err(e) => Err(e),
                Ok((f0, s1)) => Ok((ArgOpModel::DestroyClientId(f0), s1)),
            }
        } else if tag == 58 {
            match ReclaimCompleteArgs::parse(s) {
                Err(e) => Err(e),
                Ok((f0, s1)) => Ok((ArgOpModel::ReclaimComplete(f0), s1)),
            }
        } else {
            Err(XdrError::BadDiscriminant("ArgOp", tag))
        }
    }

    pub proof fn lemma_payload_round_trip(m: ArgOpModel, rest: Seq<u8>)
        requires
            <ArgOp as Xdr>::wf(m),
        ensures
            Self::parse_payload(Self::tag(m), Self::wire_payload(m) + rest)
                == Ok::<(ArgOpModel, Seq<u8>), XdrError>((m, rest)),
    {
        reveal(<ArgOp as Xdr>::wf);
        reveal(ArgOp::wire_payload);
        reveal(ArgOp::parse_payload);
        match m {
            ArgOpModel::Access(f0) => {
                AccessArgs::lemma_round_trip(f0, rest);
            },
            ArgOpModel::Close(f0) => {
                CloseArgs::lemma_round_trip(f0, rest);
            },
            ArgOpModel::Commit(f0) => {
                CommitArgs::lemma_round_trip(f0, rest);
            },
            ArgOpModel::Create(f0) => {
                CreateArgs::lemma_round_trip(f0, rest);
            },
            ArgOpModel::DelegPurge(f0) => {
                DelegPurgeArgs::lemma_round_trip(f0, rest);
            },
            ArgOpModel::DelegReturn(f0) => {
                DelegReturnArgs::lemma_round_trip(f0, rest);
            },
            ArgOpModel::GetAttr(f0) => {
                GetAttrArgs::lemma_round_trip(f0, rest);
            },
            ArgOpModel::GetFh => {
                assert(Seq::<u8>::empty() + rest =~= rest);
            },
            ArgOpModel::Link(f0) => {
                LinkArgs::lemma_round_trip(f0, rest);
            },
            ArgOpModel::Lock(f0) => {
                LockArgs::lemma_round_trip(f0, rest);
            },
            ArgOpModel::LockT(f0) => {
                LockTArgs::lemma_round_trip(f0, rest);
            },
            ArgOpModel::LockU(f0) => {
                LockUArgs::lemma_round_trip(f0, rest);
            },
            ArgOpModel::LookUp(f0) => {
                LookUpArgs::lemma_round_trip(f0, rest);
            },
            ArgOpModel::LookUpP => {
                assert(Seq::<u8>::empty() + rest =~= rest);
            },
            ArgOpModel::NVerify(f0) => {
                NVerifyArgs::lemma_round_trip(f0, rest);
            },
            ArgOpModel::Open(f0) => {
                OpenArgs::lemma_round_trip(f0, rest);
            },
            ArgOpModel::OpenAttr(f0) => {
                OpenAttrArgs::lemma_round_trip(f0, rest);
            },
            ArgOpModel::OpenDowngrade(f0) => {
                OpenDowngradeArgs::lemma_round_trip(f0, rest);
            },
            ArgOpModel::PutFh(f0) => {
                PutFhArgs::lemma_round_trip(f0, rest);
            },
            ArgOpModel::PutPubFh => {
                assert(Seq::<u8>::empty() + rest =~= rest);
            },
            ArgOpModel::PutRootFh => {
                assert(Seq::<u8>::empty() + rest =~= rest);
            },
            ArgOpModel::Read(f0) => {
                ReadArgs::lemma_round_trip(f0, rest);
            },
            ArgOpModel::ReadDir(f0) => {
                ReadDirArgs::lemma_round_trip(f0, rest);
            },
            ArgOpModel::ReadLink => {
                assert(Seq::<u8>::empty() + rest =~= rest);
            },
            ArgOpModel::Remove(f0) => {
                RemoveArgs::lemma_round_trip(f0, rest);
            },
            ArgOpModel::Rename(f0) => {
                RenameArgs::lemma_round_trip(f0, rest);
            },
            ArgOpModel::RestoreFh => {
                assert(Seq::<u8>::empty() + rest =~= rest);
            },
            ArgOpModel::SaveFh => {
                assert(Seq::<u8>::empty() + rest =~= rest);
            },
            ArgOpModel::SecInfo(f0) => {
                SecInfoArgs::lemma_round_trip(f0, rest);
            },
            ArgOpModel::SetAttr(f0) => {
                SetAttrArgs::lemma_round_trip(f0, rest);
            },
            ArgOpModel::Verify(f0) => {
                VerifyArgs::lemma_round_trip(f0, rest);
            },
            ArgOpModel::Write(f0) => {
                WriteArgs::lemma_round_trip(f0, rest);
            },
            ArgOpModel::BackchannelCtl(f0) => {
                BackchannelCtlArgs::lemma_round_trip(f0, rest);
            },
            ArgOpModel::BindConnToSession(f0) => {
                BindConnToSessionArgs::lemma_round_trip(f0, rest);
            },
            ArgOpModel::ExchangeId(f0) => {
                ExchangeIdArgs::lemma_round_trip(f0, rest);
            },
            ArgOpModel::CreateSession(f0) => {
                CreateSessionArgs::lemma_round_trip(f0, rest);
            },
            ArgOpModel::DestroySession(f0) => {
                DestroySessionArgs::lemma_round_trip(f0, rest);
            },
            ArgOpModel::FreeStateid(f0) => {
                FreeStateidArgs::lemma_round_trip(f0, rest);
            },
            ArgOpModel::GetDirDelegation(f0) => {
                GetDirDelegationArgs::lemma_round_trip(f0, rest);
            },
            ArgOpModel::GetDeviceInfo(f0) => {
                GetDeviceInfoArgs::lemma_round_trip(f0, rest);
            },
            ArgOpModel::GetDeviceList(f0) => {
                GetDeviceListArgs::lemma_round_trip(f0, rest);
            },
            ArgOpModel::LayoutCommit(f0) => {
                LayoutCommitArgs::lemma_round_trip(f0, rest);
            },
            ArgOpModel::LayoutGet(f0) => {
                LayoutGetArgs::lemma_round_trip(f0, rest);
            },
            ArgOpModel::LayoutReturn(f0) => {
                LayoutReturnArgs::lemma_round_trip(f0, rest);
            },
            ArgOpModel::SecInfoNoName(f0) => {
                SecInfoNoNameArgs::lemma_round_trip(f0, rest);
            },
            ArgOpModel::Sequence(f0) => {
                SequenceArgs::lemma_round_trip(f0, rest);
            },
            ArgOpModel::SetSsv(f0) => {
                SetSsvArgs::lemma_round_trip(f0, rest);
            },
            ArgOpModel::TestStateId(f0) => {
                TestStateIdArgs::lemma_round_trip(f0, rest);
            },
            ArgOpModel::WantDelegation(f0) => {
                WantDelegationArgs::lemma_round_trip(f0, rest);
            },
            ArgOpModel::DestroyClientId(f0) => {
                DestroyClientIdArgs::lemma_round_trip(f0, rest);
            },
            ArgOpModel::ReclaimComplete(f0) => {
                ReclaimCompleteArgs::lemma_round_trip(f0, rest);
            },
        }
    }

    /// The encoding of a value begins with its discriminant, big-endian.
    pub proof fn lemma_wire_leads_with_tag(m: ArgOpModel)
        ensures
            <ArgOp as Xdr>::wire(m).len() >= 4,
            <ArgOp as Xdr>::wire(m).take(4) == wire_u32(Self::tag(m)),
    {
        reveal(<ArgOp as Xdr>::wire);
        reveal(wire_u32);
        assert((wire_u32(Self::tag(m)) + Self::wire_payload(m)).take(4) =~= wire_u32(Self::tag(m)));
    }

    /// The discriminant of a value.
    pub fn tag_of(&self) -> (t: u32)
        ensures
            t == Self::tag(self.model()),
    {
        proof {
            reveal(<ArgOp as Xdr>::model);
        }
        match self {
            ArgOp::Access(..) => 3,
            ArgOp::Close(..) => 4,
            ArgOp::Commit(..) => 5,
            ArgOp::Create(..) => 6,
            ArgOp::DelegPurge(..) => 7,
            ArgOp::DelegReturn(..) => 8,
            ArgOp::GetAttr(..) => 9,
            ArgOp::GetFh => 10,
            ArgOp::Link(..) => 11,
            ArgOp::Lock(..) => 12,
            ArgOp::LockT(..) => 13,
            ArgOp::LockU(..) => 14,
            ArgOp::LookUp(..) => 15,
            ArgOp::LookUpP => 16,
            ArgOp::NVerify(..) => 17,
            ArgOp::Open(..) => 18,
            ArgOp::OpenAttr(..) => 19,
            ArgOp::OpenDowngrade(..) => 21,
            ArgOp::PutFh(..) => 22,
            ArgOp::PutPubFh => 23,
            ArgOp::PutRootFh => 24,
            ArgOp::Read(..) => 25,
            ArgOp::ReadDir(..) => 26,
            ArgOp::ReadLink => 27,
            ArgOp::Remove(..) => 28,
            ArgOp::Rename(..) => 29,
            ArgOp::RestoreFh => 31,
            ArgOp::SaveFh => 32,
            ArgOp::SecInfo(..) => 33,
            ArgOp::SetAttr(..) => 34,
            ArgOp::Verify(..) => 37,
            ArgOp::Write(..) => 38,
            ArgOp::BackchannelCtl(..) => 40,
            ArgOp::BindConnToSession(..) => 41,
            ArgOp::ExchangeId(..) => 42,
            ArgOp::CreateSession(..) => 43,
            ArgOp::DestroySession(..) => 44,
            ArgOp::FreeStateid(..) => 45,
            ArgOp::GetDirDelegation(..) => 46,
            ArgOp::GetDeviceInfo(..) => 47,
            ArgOp::GetDeviceList(..) => 48,
            ArgOp::LayoutCommit(..) => 49,
            ArgOp::LayoutGet(..) => 50,
            ArgOp::LayoutReturn(..) => 51,
            ArgOp::SecInfoNoName(..) => 52,
            ArgOp::Sequence(..) => 53,
            ArgOp::SetSsv(..) => 54,
            ArgOp::TestStateId(..) => 55,
            ArgOp::WantDelegation(..) => 56,
            ArgOp::DestroyClientId(..) => 57,
            ArgOp::ReclaimComplete(..) => 58,
        }
    }

    /// Appends what follows the discriminant in the encoding of `self`.
    pub fn encode_payload(&self, out: &mut Vec<u8>) -> (r: Result<(), EncodeError>)
        ensures
            r is Ok <==> <ArgOp as Xdr>::wf(self.model()),
            r is Ok ==> final(out)@ == old(out)@ + Self::wire_payload(self.model()),
    {
        proof {
            reveal(<ArgOp as Xdr>::model);
            reveal(<ArgOp as Xdr>::wf);
            reveal(ArgOp::wire_payload);
        }
        match self {
            ArgOp::Access(f0) => {
                f0.encode(out)?;
            },
            ArgOp::Close(f0) => {
                f0.encode(out)?;
            },
            ArgOp::Commit(f0) => {
                f0.encode(out)?;
            },
            ArgOp::Create(f0) => {
                f0.encode(out)?;
            },
            ArgOp::DelegPurge(f0) => {
                f0.encode(out)?;
            },
            ArgOp::DelegReturn(f0) => {
                f0.encode(out)?;
            },
            ArgOp::GetAttr(f0) => {
                f0.encode(out)?;
            },
            ArgOp::GetFh => {
                assert(out@ =~= old(out)@ + Seq::<u8>::empty());
            },
            ArgOp::Link(f0) => {
                f0.encode(out)?;
            },
            ArgOp::Lock(f0) => {
                f0.encode(out)?;
            },
            ArgOp::LockT(f0) => {
                f0.encode(out)?;
            },
            ArgOp::LockU(f0) => {
                f0.encode(out)?;
            },
            ArgOp::LookUp(f0) => {
                f0.encode(out)?;
            },
            ArgOp::LookUpP => {
                assert(out@ =~= old(out)@ + Seq::<u8>::empty());
            },
            ArgOp::NVerify(f0) => {
                f0.encode(out)?;
            },
            ArgOp::Open(f0) => {
                f0.encode(out)?;
            },
            ArgOp::OpenAttr(f0) => {
                f0.encode(out)?;
            },
            ArgOp::OpenDowngrade(f0) => {
                f0.encode(out)?;
            },
            ArgOp::PutFh(f0) => {
                f0.encode(out)?;
            },
            ArgOp::PutPubFh => {
                assert(out@ =~= old(out)@ + Seq::<u8>::empty());
            },
            ArgOp::PutRootFh => {
                assert(out@ =~= old(out)@ + Seq::<u8>::empty());
            },
            ArgOp::Read(f0) => {
                f0.encode(out)?;
            },
            ArgOp::ReadDir(f0) => {
                f0.encode(out)?;
            },
            ArgOp::ReadLink => {
                assert(out@ =~= old(out)@ + Seq::<u8>::empty());
            },
            ArgOp::Remove(f0) => {
                f0.encode(out)?;
            },
            ArgOp::Rename(f0) => {
                f0.encode(out)?;
            },
            ArgOp::RestoreFh => {
                assert(out@ =~= old(out)@ + Seq::<u8>::empty());
            },
            ArgOp::SaveFh => {
                assert(out@ =~= old(out)@ + Seq::<u8>::empty());
            },
            ArgOp::SecInfo(f0) => {
                f0.encode(out)?;
            },
            ArgOp::SetAttr(f0) => {
                f0.encode(out)?;
            },
            ArgOp::Verify(f0) => {
                f0.encode(out)?;
            },
            ArgOp::Write(f0) => {
                f0.encode(out)?;
            },
            ArgOp::BackchannelCtl(f0) => {
                f0.encode(out)?;
            },
            ArgOp::BindConnToSession(f0) => {
                f0.encode(out)?;
            },
            ArgOp::ExchangeId(f0) => {
                f0.encode(out)?;
            },
            ArgOp::CreateSession(f0) => {
                f0.encode(out)?;
            },
            ArgOp::DestroySession(f0) => {
                f0.encode(out)?;
            },
            ArgOp::FreeStateid(f0) => {
                f0.encode(out)?;
            },
            ArgOp::GetDirDelegation(f0) => {
                f0.encode(out)?;
            },
            ArgOp::GetDeviceInfo(f0) => {
                f0.encode(out)?;
            },
            ArgOp::GetDeviceList(f0) => {
                f0.encode(out)?;
            },
            ArgOp::LayoutCommit(f0) => {
                f0.encode(out)?;
            },
            ArgOp::LayoutGet(f0) => {
                f0.encode(out)?;
            },
            ArgOp::LayoutReturn(f0) => {
                f0.encode(out)?;
            },
            ArgOp::SecInfoNoName(f0) => {
                f0.encode(out)?;
            },
            ArgOp::Sequence(f0) => {
                f0.encode(out)?;
            },
            ArgOp::SetSsv(f0) => {
                f0.encode(out)?;
            },
            ArgOp::TestStateId(f0) => {
                f0.encode(out)?;
            },
            ArgOp::WantDelegation(f0) => {
                f0.encode(out)?;
            },
            ArgOp::DestroyClientId(f0) => {
                f0.encode(out)?;
            },
            ArgOp::ReclaimComplete(f0) => {
                f0.encode(out)?;
            },
        }
        Ok(())
    }

    /// Decodes the payload of the value with the discriminant `tag`.
    pub fn decode_payload<'a>(tag: u32, input: &'a [u8]) -> (r: Result<(ArgOp, &'a [u8]), XdrError>)
        ensures
            match r {
                Ok((v, rest)) => {
                    Self::parse_payload(tag, input@)
                        == Ok::<(ArgOpModel, Seq<u8>), XdrError>((v.model(), rest@))
                },
                Err(e) => {
                    Self::parse_payload(tag, input@) == Err::<(ArgOpModel, Seq<u8>), XdrError>(e)
                },
            },
    {
        proof {
            reveal(<ArgOp as Xdr>::model);
            reveal(ArgOp::parse_payload);
        }
        if tag == 3 {
            let (f0, cur) = AccessArgs::decode(input)?;
            Ok((ArgOp::Access(f0), cur))
        } else if tag == 4 {
            let (f0, cur) = CloseArgs::decode(input)?;
            Ok((ArgOp::Close(f0), cur))
        } else if tag == 5 {
            let (f0, cur) = CommitArgs::decode(input)?;
            Ok((ArgOp::Commit(f0), cur))
        } else if tag == 6 {
            let (f0, cur) = CreateArgs::decode(input)?;
            Ok((ArgOp::Create(f0), cur))
        } else if tag == 7 {
            let (f0, cur) = DelegPurgeArgs::decode(input)?;
            Ok((ArgOp::DelegPurge(f0), cur))
        } else if tag == 8 {
            let (f0, cur) = DelegReturnArgs::decode(input)?;
            Ok((ArgOp::DelegReturn(f0), cur))
        } else if tag == 9 {
            let (f0, cur) = GetAttrArgs::decode(input)?;
            Ok((ArgOp::GetAttr(f0), cur))
        } else if tag == 10 {
            Ok((ArgOp::GetFh, input))
        } else if tag == 11 {
            let (f0, cur) = LinkArgs::decode(input)?;
            Ok((ArgOp::Link(f0), cur))
        } else if tag == 12 {
            let (f0, cur) = LockArgs::decode(input)?;
            Ok((ArgOp::Lock(f0), cur))
        } else if tag == 13 {
            let (f0, cur) = LockTArgs::decode(input)?;
            Ok((ArgOp::LockT(f0), cur))
        } else if tag == 14 {
            let (f0, cur) = LockUArgs::decode(input)?;
            Ok((ArgOp::LockU(f0), cur))
        } else if tag == 15 {
            let (f0, cur) = LookUpArgs::decode(input)?;
            Ok((ArgOp::LookUp(f0), cur))
        } else if tag == 16 {
            Ok((ArgOp::LookUpP, input))
        } else if tag == 17 {
            let (f0, cur) = NVerifyArgs::decode(input)?;
            Ok((ArgOp::NVerify(f0), cur))
        } else if tag == 18 {
            let (f0, cur) = OpenArgs::decode(input)?;
            Ok((ArgOp::Open(f0), cur))
        } else if tag == 19 {
            let (f0, cur) = OpenAttrArgs::decode(input)?;
            Ok((ArgOp::OpenAttr(f0), cur))
        } else if tag == 21 {
            let (f0, cur) = OpenDowngradeArgs::decode(input)?;
            Ok((ArgOp::OpenDowngrade(f0), cur))
        } else if tag == 22 {
            let (f0, cur) = PutFhArgs::decode(input)?;
            Ok((ArgOp::PutFh(f0), cur))
        } else if tag == 23 {
            Ok((ArgOp::PutPubFh, input))
        } else if tag == 24 {
            Ok((ArgOp::PutRootFh, input))
        } else if tag == 25 {
            let (f0, cur) = ReadArgs::decode(input)?;
            Ok((ArgOp::Read(f0), cur))
        } else if tag == 26 {
            let (f0, cur) = ReadDirArgs::decode(input)?;
            Ok((ArgOp::ReadDir(f0), cur))
        } else if tag == 27 {
            Ok((ArgOp::ReadLink, input))
        } else if tag == 28 {
            let (f0, cur) = RemoveArgs::decode(input)?;
            Ok((ArgOp::Remove(f0), cur))
        } else if tag == 29 {
            let (f0, cur) = RenameArgs::decode(input)?;
            Ok((ArgOp::Rename(f0), cur))
        } else if tag == 31 {
            Ok((ArgOp::RestoreFh, input))
        } else if tag == 32 {
            Ok((ArgOp::SaveFh, input))
        } else if tag == 33 {
            let (f0, cur) = SecInfoArgs::decode(input)?;
            Ok((ArgOp::SecInfo(f0), cur))
        } else if tag == 34 {
            let (f0, cur) = SetAttrArgs::decode(input)?;
            Ok((ArgOp::SetAttr(f0), cur))
        } else if tag == 37 {
            let (f0, cur) = VerifyArgs::decode(input)?;
            Ok((ArgOp::Verify(f0), cur))
        } else if tag == 38 {
            let (f0, cur) = WriteArgs::decode(input)?;
            Ok((ArgOp::Write(f0), cur))
        } else if tag == 40 {
            let (f0, cur) = BackchannelCtlArgs::decode(input)?;
            Ok((ArgOp::BackchannelCtl(f0), cur))
        } else if tag == 41 {
            let (f0, cur) = BindConnToSessionArgs::decode(input)?;
            Ok((ArgOp::BindConnToSession(f0), cur))
        } else if tag == 42 {
            let (f0, cur) = ExchangeIdArgs::decode(input)?;
            Ok((ArgOp::ExchangeId(f0), cur))
        } else if tag == 43 {
            let (f0, cur) = CreateSessionArgs::decode(input)?;
            Ok((ArgOp::CreateSession(f0), cur))
        } else if tag == 44 {
            let (f0, cur) = DestroySessionArgs::decode(input)?;
            Ok((ArgOp::DestroySession(f0), cur))
        } else if tag == 45 {
            let (f0, cur) = FreeStateidArgs::decode(input)?;
            Ok((ArgOp::FreeStateid(f0), cur))
        } else if tag == 46 {
            let (f0, cur) = GetDirDelegationArgs::decode(input)?;
            Ok((ArgOp::GetDirDelegation(f0), cur))
        } else if tag == 47 {
            let (f0, cur) = GetDeviceInfoArgs::decode(input)?;
            Ok((ArgOp::GetDeviceInfo(f0), cur))
        } else if tag == 48 {
            let (f0, cur) = GetDeviceListArgs::decode(input)?;
            Ok((ArgOp::GetDeviceList(f0), cur))
        } else if tag == 49 {
            let (f0, cur) = LayoutCommitArgs::decode(input)?;
            Ok((ArgOp::LayoutCommit(f0), cur))
        } else if tag == 50 {
            let (f0, cur) = LayoutGetArgs::decode(input)?;
            Ok((ArgOp::LayoutGet(f0), cur))
        } else if tag == 51 {
            let (f0, cur) = LayoutReturnArgs::decode(input)?;
            Ok((ArgOp::LayoutReturn(f0), cur))
        } else if tag == 52 {
            let (f0, cur) = SecInfoNoNameArgs::decode(input)?;
            Ok((ArgOp::SecInfoNoName(f0), cur))
        } else if tag == 53 {
            let (f0, cur) = SequenceArgs::decode(input)?;
            Ok((ArgOp::Sequence(f0), cur))
        } else if tag == 54 {
            let (f0, cur) = SetSsvArgs::decode(input)?;
            Ok((ArgOp::SetSsv(f0), cur))
        } else if tag == 55 {
            let (f0, cur) = TestStateIdArgs::decode(input)?;
            Ok((ArgOp::TestStateId(f0), cur))
        } else if tag == 56 {
            let (f0, cur) = WantDelegationArgs::decode(input)?;
            Ok((ArgOp::WantDelegation(f0), cur))
        } else if tag == 57 {
            let (f0, cur) = DestroyClientIdArgs::decode(input)?;
            Ok((ArgOp::DestroyClientId(f0), cur))
        } else if tag == 58 {
            let (f0, cur) = ReclaimCompleteArgs::decode(input)?;
            Ok((ArgOp::ReclaimComplete(f0), cur))
        } else {
            Err(XdrError::BadDiscriminant("ArgOp", tag))
        }
    }
}

impl Xdr for ArgOp {
    type Model = ArgOpModel;

    #[verifier::opaque]
    open spec fn model(&self) -> ArgOpModel {
        match self {
            ArgOp::Access(f0) => ArgOpModel::Access(f0.model()),
            ArgOp::Close(f0) => ArgOpModel::Close(f0.model()),
            ArgOp::Commit(f0) => ArgOpModel::Commit(f0.model()),
            ArgOp::Create(f0) => ArgOpModel::Create(f0.model()),
            ArgOp::DelegPurge(f0) => ArgOpModel::DelegPurge(f0.model()),
            ArgOp::DelegReturn(f0) => ArgOpModel::DelegReturn(f0.model()),
            ArgOp::GetAttr(f0) => ArgOpModel::GetAttr(f0.model()),
            ArgOp::GetFh => ArgOpModel::GetFh,
            ArgOp::Link(f0) => ArgOpModel::Link(f0.model()),
            ArgOp::Lock(f0) => ArgOpModel::Lock(f0.model()),
            ArgOp::LockT(f0) => ArgOpModel::LockT(f0.model()),
            ArgOp::LockU(f0) => ArgOpModel::LockU(f0.model()),
            ArgOp::LookUp(f0) => ArgOpModel::LookUp(f0.model()),
            ArgOp::LookUpP => ArgOpModel::LookUpP,
            ArgOp::NVerify(f0) => ArgOpModel::NVerify(f0.model()),
            ArgOp::Open(f0) => ArgOpModel::Open(f0.model()),
            ArgOp::OpenAttr(f0) => ArgOpModel::OpenAttr(f0.model()),
            ArgOp::OpenDowngrade(f0) => ArgOpModel::OpenDowngrade(f0.model()),
            ArgOp::PutFh(f0) => ArgOpModel::PutFh(f0.model()),
            ArgOp::PutPubFh => ArgOpModel::PutPubFh,
            ArgOp::PutRootFh => ArgOpModel::PutRootFh,
            ArgOp::Read(f0) => ArgOpModel::Read(f0.model()),
            ArgOp::ReadDir(f0) => ArgOpModel::ReadDir(f0.model()),
            ArgOp::ReadLink => ArgOpModel::ReadLink,
            ArgOp::Remove(f0) => ArgOpModel::Remove(f0.model()),
            ArgOp::Rename(f0) => ArgOpModel::Rename(f0.model()),
            ArgOp::RestoreFh => ArgOpModel::RestoreFh,
            ArgOp::SaveFh => ArgOpModel::SaveFh,
            ArgOp::SecInfo(f0) => ArgOpModel::SecInfo(f0.model()),
            ArgOp::SetAttr(f0) => ArgOpModel::SetAttr(f0.model()),
            ArgOp::Verify(f0) => ArgOpModel::Verify(f0.model()),
            ArgOp::Write(f0) => ArgOpModel::Write(f0.model()),
            ArgOp::BackchannelCtl(f0) => ArgOpModel::BackchannelCtl(f0.model()),
            ArgOp::BindConnToSession(f0) => ArgOpModel::BindConnToSession(f0.model()),
            ArgOp::ExchangeId(f0) => ArgOpModel::ExchangeId(f0.model()),
            ArgOp::CreateSession(f0) => ArgOpModel::CreateSession(f0.model()),
            ArgOp::DestroySession(f0) => ArgOpModel::DestroySession(f0.model()),
            ArgOp::FreeStateid(f0) => ArgOpModel::FreeStateid(f0.model()),
            ArgOp::GetDirDelegation(f0) => ArgOpModel::GetDirDelegation(f0.model()),
            ArgOp::GetDeviceInfo(f0) => ArgOpModel::GetDeviceInfo(f0.model()),
            ArgOp::GetDeviceList(f0) => ArgOpModel::GetDeviceList(f0.model()),
            ArgOp::LayoutCommit(f0) => ArgOpModel::LayoutCommit(f0.model()),
            ArgOp::LayoutGet(f0) => ArgOpModel::LayoutGet(f0.model()),
            ArgOp::LayoutReturn(f0) => ArgOpModel::LayoutReturn(f0.model()),
            ArgOp::SecInfoNoName(f0) => ArgOpModel::SecInfoNoName(f0.model()),
            ArgOp::Sequence(f0) => ArgOpModel::Sequence(f0.model()),
            ArgOp::SetSsv(f0) => ArgOpModel::SetSsv(f0.model()),
            ArgOp::TestStateId(f0) => ArgOpModel::TestStateId(f0.model()),
            ArgOp::WantDelegation(f0) => ArgOpModel::WantDelegation(f0.model()),
            ArgOp::DestroyClientId(f0) => ArgOpModel::DestroyClientId(f0.model()),
            ArgOp::ReclaimComplete(f0) => ArgOpModel::ReclaimComplete(f0.model()),
        }
    }

    #[verifier::opaque]
    open spec fn wf(m: ArgOpModel) -> bool {
        match m {
            ArgOpModel::Access(f0) => AccessArgs::wf(f0),
            ArgOpModel::Close(f0) => CloseArgs::wf(f0),
            ArgOpModel::Commit(f0) => CommitArgs::wf(f0),
            ArgOpModel::Create(f0) => CreateArgs::wf(f0),
            ArgOpModel::DelegPurge(f0) => DelegPurgeArgs::wf(f0),
            ArgOpModel::DelegReturn(f0) => DelegReturnArgs::wf(f0),
            ArgOpModel::GetAttr(f0) => GetAttrArgs::wf(f0),
            ArgOpModel::GetFh => true,
            ArgOpModel::Link(f0) => LinkArgs::wf(f0),
            ArgOpModel::Lock(f0) => LockArgs::wf(f0),
            ArgOpModel::LockT(f0) => LockTArgs::wf(f0),
            ArgOpModel::LockU(f0) => LockUArgs::wf(f0),
            ArgOpModel::LookUp(f0) => LookUpArgs::wf(f0),
            ArgOpModel::LookUpP => true,
            ArgOpModel::NVerify(f0) => NVerifyArgs::wf(f0),
            ArgOpModel::Open(f0) => OpenArgs::wf(f0),
            ArgOpModel::OpenAttr(f0) => OpenAttrArgs::wf(f0),
            ArgOpModel::OpenDowngrade(f0) => OpenDowngradeArgs::wf(f0),
            ArgOpModel::PutFh(f0) => PutFhArgs::wf(f0),
            ArgOpModel::PutPubFh => true,
            ArgOpModel::PutRootFh => true,
            ArgOpModel::Read(f0) => ReadArgs::wf(f0),
            ArgOpModel::ReadDir(f0) => ReadDirArgs::wf(f0),
            ArgOpModel::ReadLink => true,
            ArgOpModel::Remove(f0) => RemoveArgs::wf(f0),
            ArgOpModel::Rename(f0) => RenameArgs::wf(f0),
            ArgOpModel::RestoreFh => true,
            ArgOpModel::SaveFh => true,
            ArgOpModel::SecInfo(f0) => SecInfoArgs::wf(f0),
            ArgOpModel::SetAttr(f0) => SetAttrArgs::wf(f0),
            ArgOpModel::Verify(f0) => VerifyArgs::wf(f0),
            ArgOpModel::Write(f0) => WriteArgs::wf(f0),
            ArgOpModel::BackchannelCtl(f0) => BackchannelCtlArgs::wf(f0),
            ArgOpModel::BindConnToSession(f0) => BindConnToSessionArgs::wf(f0),
            ArgOpModel::ExchangeId(f0) => ExchangeIdArgs::wf(f0),
            ArgOpModel::CreateSession(f0) => CreateSessionArgs::wf(f0),
            ArgOpModel::DestroySession(f0) => DestroySessionArgs::wf(f0),
            ArgOpModel::FreeStateid(f0) => FreeStateidArgs::wf(f0),
            ArgOpModel::GetDirDelegation(f0) => GetDirDelegationArgs::wf(f0),
            ArgOpModel::GetDeviceInfo(f0) => GetDeviceInfoArgs::wf(f0),
            ArgOpModel::GetDeviceList(f0) => GetDeviceListArgs::wf(f0),
            ArgOpModel::LayoutCommit(f0) => LayoutCommitArgs::wf(f0),
            ArgOpModel::LayoutGet(f0) => LayoutGetArgs::wf(f0),
            ArgOpModel::LayoutReturn(f0) => LayoutReturnArgs::wf(f0),
            ArgOpModel::SecInfoNoName(f0) => SecInfoNoNameArgs::wf(f0),
            ArgOpModel::Sequence(f0) => SequenceArgs::wf(f0),
            ArgOpModel::SetSsv(f0) => SetSsvArgs::wf(f0),
            ArgOpModel::TestStateId(f0) => TestStateIdArgs::wf(f0),
            ArgOpModel::WantDelegation(f0) => WantDelegationArgs::wf(f0),
            ArgOpModel::DestroyClientId(f0) => DestroyClientIdArgs::wf(f0),
            ArgOpModel::ReclaimComplete(f0) => ReclaimCompleteArgs::wf(f0),
        }
    }

    #[verifier::opaque]
    open spec fn wire(m: ArgOpModel) -> Seq<u8> {
        wire_u32(Self::tag(m)) + Self::wire_payload(m)
    }

    #[verifier::opaque]
    open spec fn parse(s: Seq<u8>) -> Result<(ArgOpModel, Seq<u8>), XdrError> {
        match parse_u32(s) {
            Ok((tag, r)) => Self::parse_payload(tag, r),
            Err(e) => Err(e),
        }
    }

    proof fn lemma_round_trip(m: ArgOpModel, rest: Seq<u8>) {
        reveal(<ArgOp as Xdr>::wire);
        reveal(<ArgOp as Xdr>::parse);
        lemma_concat_assoc(wire_u32(Self::tag(m)), Self::wire_payload(m), rest);
        lemma_u32_round_trip(Self::tag(m), Self::wire_payload(m) + rest);
        Self::lemma_payload_round_trip(m, rest);
    }

    fn encode(&self, out: &mut Vec<u8>) -> (r: Result<(), EncodeError>) {
        proof {
            reveal(<ArgOp as Xdr>::wire);
        }
        let tag = self.tag_of();
        let _ = tag.encode(out);
        self.encode_payload(out)?;
        proof {
            lemma_concat_assoc(old(out)@, wire_u32(tag), Self::wire_payload(self.model()));
        }
        Ok(())
    }

    fn decode<'a>(input: &'a [u8]) -> (r: Result<(ArgOp, &'a [u8]), XdrError>) {
        proof {
            reveal(<ArgOp as Xdr>::parse);
        }
        let (tag, cur) = u32::decode(input)?;
        Self::decode_payload(tag, cur)
    }
}

/// The result of an operation of a COMPOUND request.
#[derive(Clone, Debug, PartialEq, Eq)]
pub enum ResOp {
    Access(StatusResult<AccessRes>),
    Close(StatusResult<CloseRes>),
    Commit(StatusResult<CommitRes>),
    Create(StatusResult<CreateRes>),
    DelegPurge(StatusResult<()>),
    DelegReturn(StatusResult<()>),
    GetAttr(StatusResult<GetAttrRes>),
    GetFh(StatusResult<GetFhRes>),
    Link(LockStatusResult<LinkRes>),
    Lock(LockStatusResult<LockRes>),
    LockT(StatusResult<()>),
    LockU(StatusResult<LockURes>),
    LookUp(StatusResult<()>),
    LookUpP(StatusResult<()>),
    NVerify(StatusResult<()>),
    Open(StatusResult<OpenRes>),
    OpenAttr(StatusResult<()>),
    OpenDowngrade(StatusResult<OpenDowngradeRes>),
    PutFh(StatusResult<()>),
    PutPubFh(StatusResult<()>),
    PutRootFh(StatusResult<()>),
    Read(StatusResult<ReadRes>),
    ReadDir(StatusResult<ReadDirRes>),
    ReadLink(StatusResult<ReadLinkRes>),
    Remove(StatusResult<RemoveRes>),
    Rename(StatusResult<RenameRes>),
    RestoreFh(StatusResult<()>),
    SaveFh(StatusResult<()>),
    SecInfo(StatusResult<SecInfoRes>),
    SetAttr(SetAttrStatusResult),
    Verify(StatusResult<()>),
    Write(StatusResult<WriteRes>),
    BackchannelCtl(StatusResult<()>),
    BindConnToSession(StatusResult<BindConnToSessionRes>),
    ExchangeId(StatusResult<ExchangeIdRes>),
    CreateSession(StatusResult<CreateSessionRes>),
    DestroySession(StatusResult<()>),
    FreeStateid(StatusResult<()>),
    GetDirDelegation(StatusResult<GetDirDelegationRes>),
    GetDeviceInfo(StatusResult<GetDeviceInfoRes>),
    GetDeviceList(StatusResult<GetDeviceListRes>),
    LayoutCommit(StatusResult<LayoutCommitRes>),
    LayoutGet(StatusResult<LayoutGetRes>),
    LayoutReturn(StatusResult<LayoutReturnRes>),
    SecInfoNoName(StatusResult<SecInfoRes>),
    Sequence(StatusResult<SequenceRes>),
    SetSsv(StatusResult<SetSsvRes>),
    TestStateId(StatusResult<TestStateIdRes>),
    WantDelegation(StatusResult<WantDelegationRes>),
    DestroyClientId(StatusResult<()>),
    ReclaimComplete(StatusResult<()>),
}

/// What a [`ResOp`] stands for.
pub enum ResOpModel {
    Access(StatusResult<AccessRes>),
    Close(StatusResult<CloseResModel>),
    Commit(StatusResult<CommitRes>),
    Create(StatusResult<CreateResModel>),
    DelegPurge(StatusResult<()>),
    DelegReturn(StatusResult<()>),
    GetAttr(StatusResult<GetAttrResModel>),
    GetFh(StatusResult<GetFhResModel>),
    Link(LockStatusResultModel<LinkRes>),
    Lock(LockStatusResultModel<LockResModel>),
    LockT(StatusResult<()>),
    LockU(StatusResult<LockUResModel>),
    LookUp(StatusResult<()>),
    LookUpP(StatusResult<()>),
    NVerify(StatusResult<()>),
    Open(StatusResult<OpenResModel>),
    OpenAttr(StatusResult<()>),
    OpenDowngrade(StatusResult<OpenDowngradeResModel>),
    PutFh(StatusResult<()>),
    PutPubFh(StatusResult<()>),
    PutRootFh(StatusResult<()>),
    Read(StatusResult<ReadResModel>),
    ReadDir(StatusResult<ReadDirResModel>),
    ReadLink(StatusResult<ReadLinkResModel>),
    Remove(StatusResult<RemoveRes>),
    Rename(StatusResult<RenameRes>),
    RestoreFh(StatusResult<()>),
    SaveFh(StatusResult<()>),
    SecInfo(StatusResult<SecInfoResModel>),
    SetAttr(SetAttrStatusResultModel),
    Verify(StatusResult<()>),
    Write(StatusResult<WriteRes>),
    BackchannelCtl(StatusResult<()>),
    BindConnToSession(StatusResult<BindConnToSessionResModel>),
    ExchangeId(StatusResult<ExchangeIdResModel>),
    CreateSession(StatusResult<CreateSessionResModel>),
    DestroySession(StatusResult<()>),
    FreeStateid(StatusResult<()>),
    GetDirDelegation(StatusResult<GetDirDelegationResModel>),
    GetDeviceInfo(StatusResult<GetDeviceInfoResModel>),
    GetDeviceList(StatusResult<GetDeviceListResModel>),
    LayoutCommit(StatusResult<LayoutCommitResModel>),
    LayoutGet(StatusResult<LayoutGetResModel>),
    LayoutReturn(StatusResult<LayoutReturnResModel>),
    SecInfoNoName(StatusResult<SecInfoResModel>),
    Sequence(StatusResult<SequenceResModel>),
    SetSsv(StatusResult<SetSsvResModel>),
    TestStateId(StatusResult<TestStateIdResModel>),
    WantDelegation(StatusResult<WantDelegationResModel>),
    DestroyClientId(StatusResult<()>),
    ReclaimComplete(StatusResult<()>),
}

impl ResOp {
    /// The discriminant that leads the encoding of a value.
    pub open spec fn tag(m: ResOpModel) -> u32 {
        match m {
            ResOpModel::Access(..) => 3,
            ResOpModel::Close(..) => 4,
            ResOpModel::Commit(..) => 5,
            ResOpModel::Create(..) => 6,
            ResOpModel::DelegPurge(..) => 7,
            ResOpModel::DelegReturn(..) => 8,
            ResOpModel::GetAttr(..) => 9,
            ResOpModel::GetFh(..) => 10,
            ResOpModel::Link(..) => 11,
            ResOpModel::Lock(..) => 12,
            ResOpModel::LockT(..) => 13,
            ResOpModel::LockU(..) => 14,
            ResOpModel::LookUp(..) => 15,
            ResOpModel::LookUpP(..) => 16,
            ResOpModel::NVerify(..) => 17,
            ResOpModel::Open(..) => 18,
            ResOpModel::OpenAttr(..) => 19,
            ResOpModel::OpenDowngrade(..) => 21,
            ResOpModel::PutFh(..) => 22,
            ResOpModel::PutPubFh(..) => 23,
            ResOpModel::PutRootFh(..) => 24,
            ResOpModel::Read(..) => 25,
            ResOpModel::ReadDir(..) => 26,
            ResOpModel::ReadLink(..) => 27,
            ResOpModel::Remove(..) => 28,
            ResOpModel::Rename(..) => 29,
            ResOpModel::RestoreFh(..) => 31,
            ResOpModel::SaveFh(..) => 32,
            ResOpModel::SecInfo(..) => 33,
            ResOpModel::SetAttr(..) => 34,
            ResOpModel::Verify(..) => 37,
            ResOpModel::Write(..) => 38,
            ResOpModel::BackchannelCtl(..) => 40,
            ResOpModel::BindConnToSession(..) => 41,
            ResOpModel::ExchangeId(..) => 42,
            ResOpModel::CreateSession(..) => 43,
            ResOpModel::DestroySession(..) => 44,
            ResOpModel::FreeStateid(..) => 45,
            ResOpModel::GetDirDelegation(..) => 46,
            ResOpModel::GetDeviceInfo(..) => 47,
            ResOpModel::GetDeviceList(..) => 48,
            ResOpModel::LayoutCommit(..) => 49,
            ResOpModel::LayoutGet(..) => 50,
            ResOpModel::LayoutReturn(..) => 51,
            ResOpModel::SecInfoNoName(..) => 52,
            ResOpModel::Sequence(..) => 53,
            ResOpModel::SetSsv(..) => 54,
            ResOpModel::TestStateId(..) => 55,
            ResOpModel::WantDelegation(..) => 56,
            ResOpModel::DestroyClientId(..) => 57,
            ResOpModel::ReclaimComplete(..) => 58,
        }
    }

    /// What follows the discriminant in the encoding of a value.
    #[verifier::opaque]
    pub open spec fn wire_payload(m: ResOpModel) -> Seq<u8> {
        match m {
            ResOpModel::Access(f0) => StatusResult::<AccessRes>::wire(f0),
            ResOpModel::Close(f0) => StatusResult::<CloseRes>::wire(f0),
            ResOpModel::Commit(f0) => StatusResult::<CommitRes>::wire(f0),
            ResOpModel::Create(f0) => StatusResult::<CreateRes>::wire(f0),
            ResOpModel::DelegPurge(f0) => StatusResult::<()>::wire(f0),
            ResOpModel::DelegReturn(f0) => StatusResult::<()>::wire(f0),
            ResOpModel::GetAttr(f0) => StatusResult::<GetAttrRes>::wire(f0),
            ResOpModel::GetFh(f0) => StatusResult::<GetFhRes>::wire(f0),
            ResOpModel::Link(f0) => LockStatusResult::<LinkRes>::wire(f0),
            ResOpModel::Lock(f0) => LockStatusResult::<LockRes>::wire(f0),
            ResOpModel::LockT(f0) => StatusResult::<()>::wire(f0),
            ResOpModel::LockU(f0) => StatusResult::<LockURes>::wire(f0),
            ResOpModel::LookUp(f0) => StatusResult::<()>::wire(f0),
            ResOpModel::LookUpP(f0) => StatusResult::<()>::wire(f0),
            ResOpModel::NVerify(f0) => StatusResult::<()>::wire(f0),
            ResOpModel::Open(f0) => StatusResult::<OpenRes>::wire(f0),
            ResOpModel::OpenAttr(f0) => StatusResult::<()>::wire(f0),
            ResOpModel::OpenDowngrade(f0) => StatusResult::<OpenDowngradeRes>::wire(f0),
            ResOpModel::PutFh(f0) => StatusResult::<()>::wire(f0),
            ResOpModel::PutPubFh(f0) => StatusResult::<()>::wire(f0),
            ResOpModel::PutRootFh(f0) => StatusResult::<()>::wire(f0),
            ResOpModel::Read(f0) => StatusResult::<ReadRes>::wire(f0),
            ResOpModel::ReadDir(f0) => StatusResult::<ReadDirRes>::wire(f0),
            ResOpModel::ReadLink(f0) => StatusResult::<ReadLinkRes>::wire(f0),
            ResOpModel::Remove(f0) => StatusResult::<RemoveRes>::wire(f0),
            ResOpModel::Rename(f0) => StatusResult::<RenameRes>::wire(f0),
            ResOpModel::RestoreFh(f0) => StatusResult::<()>::wire(f0),
            ResOpModel::SaveFh(f0) => StatusResult::<()>::wire(f0),
            ResOpModel::SecInfo(f0) => StatusResult::<SecInfoRes>::wire(f0),
            ResOpModel::SetAttr(f0) => SetAttrStatusResult::wire(f0),
            ResOpModel::Verify(f0) => StatusResult::<()>::wire(f0),
            ResOpModel::Write(f0) => StatusResult::<WriteRes>::wire(f0),
            ResOpModel::BackchannelCtl(f0) => StatusResult::<()>::wire(f0),
            ResOpModel::BindConnToSession(f0) => StatusResult::<BindConnToSessionRes>::wire(f0),
            ResOpModel::ExchangeId(f0) => StatusResult::<ExchangeIdRes>::wire(f0),
            ResOpModel::CreateSession(f0) => StatusResult::<CreateSessionRes>::wire(f0),
            ResOpModel::DestroySession(f0) => StatusResult::<()>::wire(f0),
            ResOpModel::FreeStateid(f0) => StatusResult::<()>::wire(f0),
            ResOpModel::GetDirDelegation(f0) => StatusResult::<GetDirDelegationRes>::wire(f0),
            ResOpModel::GetDeviceInfo(f0) => StatusResult::<GetDeviceInfoRes>::wire(f0),
            ResOpModel::GetDeviceList(f0) => StatusResult::<GetDeviceListRes>::wire(f0),
            ResOpModel::LayoutCommit(f0) => StatusResult::<LayoutCommitRes>::wire(f0),
            ResOpModel::LayoutGet(f0) => StatusResult::<LayoutGetRes>::wire(f0),
            ResOpModel::LayoutReturn(f0) => StatusResult::<LayoutReturnRes>::wire(f0),
            ResOpModel::SecInfoNoName(f0) => StatusResult::<SecInfoRes>::wire(f0),
            ResOpModel::Sequence(f0) => StatusResult::<SequenceRes>::wire(f0),
            ResOpModel::SetSsv(f0) => StatusResult::<SetSsvRes>::wire(f0),
            ResOpModel::TestStateId(f0) => StatusResult::<TestStateIdRes>::wire(f0),
            ResOpModel::WantDelegation(f0) => StatusResult::<WantDelegationRes>::wire(f0),
            ResOpModel::DestroyClientId(f0) => StatusResult::<()>::wire(f0),
            ResOpModel::ReclaimComplete(f0) => StatusResult::<()>::wire(f0),
        }
    }

    /// The value with the discriminant `tag` whose payload is at the front of `s`.
    #[verifier::opaque]
    pub open spec fn parse_payload(
        tag: u32,
        s: Seq<u8>,
    ) -> Result<(ResOpModel, Seq<u8>), XdrError> {
        if tag == 3 {
            match StatusResult::<AccessRes>::parse(s) {
                Err(e) => Err(e),
                Ok((f0, s1)) => Ok((ResOpModel::Access(f0), s1)),
            }
        } else if tag == 4 {
            match StatusResult::<CloseRes>::parse(s) {
                Err(e) => Err(e),
                Ok((f0, s1)) => Ok((ResOpModel::Close(f0), s1)),
            }
        } else if tag == 5 {
            match StatusResult::<CommitRes>::parse(s) {
                Err(e) => Err(e),
                Ok((f0, s1)) => Ok((ResOpModel::Commit(f0), s1)),
            }
        } else if tag == 6 {
            match StatusResult::<CreateRes>::parse(s) {
                Err(e) => Err(e),
                Ok((f0, s1)) => Ok((ResOpModel::Create(f0), s1)),
            }
        } else if tag == 7 {
            match StatusResult::<()>::parse(s) {
                Err(e) => Err(e),
                Ok((f0, s1)) => Ok((ResOpModel::DelegPurge(f0), s1)),
            }
        } else if tag == 8 {
            match StatusResult::<()>::parse(s) {
                Err(e) => Err(e),
                Ok((f0, s1)) => Ok((ResOpModel::DelegReturn(f0), s1)),
            }
        } else if tag == 9 {
            match StatusResult::<GetAttrRes>::parse(s) {
                Err(e) => Err(e),
                Ok((f0, s1)) => Ok((ResOpModel::GetAttr(f0), s1)),
            }
        } else if tag == 10 {
            match StatusResult::<GetFhRes>::parse(s) {
                Err(e) => Err(e),
                Ok((f0, s1)) => Ok((ResOpModel::GetFh(f0), s1)),
            }
        } else if tag == 11 {
            match LockStatusResult::<LinkRes>::parse(s) {
                Err(e) => Err(e),
                Ok((f0, s1)) => Ok((ResOpModel::Link(f0), s1)),
            }
        } else if tag == 12 {
            match LockStatusResult::<LockRes>::parse(s) {
                Err(e) => Err(e),
                Ok((f0, s1)) => Ok((ResOpModel::Lock(f0), s1)),
            }
        } else if tag == 13 {
            match StatusResult::<()>::parse(s) {
                Err(e) => Err(e),
                Ok((f0, s1)) => Ok((ResOpModel::LockT(f0), s1)),
            }
        } else if tag == 14 {
            match StatusResult::<LockURes>::parse(s) {
                Err(e) => Err(e),
                Ok((f0, s1)) => Ok((ResOpModel::LockU(f0), s1)),
            }
        } else if tag == 15 {
            match StatusResult::<()>::parse(s) {
                Err(e) => Err(e),
                Ok((f0, s1)) => Ok((ResOpModel::LookUp(f0), s1)),
            }
        } else if tag == 16 {
            match StatusResult::<()>::parse(s) {
                Err(e) => Err(e),
                Ok((f0, s1)) => Ok((ResOpModel::LookUpP(f0), s1)),
            }
        } else if tag == 17 {
            match StatusResult::<()>::parse(s) {
                Err(e) => Err(e),
                Ok((f0, s1)) => Ok((ResOpModel::NVerify(f0), s1)),
            }
        } else if tag == 18 {
            match StatusResult::<OpenRes>::parse(s) {
                Err(e) => Err(e),
                Ok((f0, s1)) => Ok((ResOpModel::Open(f0), s1)),
            }
        } else if tag == 19 {
            match StatusResult::<()>::parse(s) {
                Err(e) => Err(e),
                Ok((f0, s1)) => Ok((ResOpModel::OpenAttr(f0), s1)),
            }
        } else if tag == 21 {
            match StatusResult::<OpenDowngradeRes>::parse(s) {
                Err(e) => Err(e),
                Ok((f0, s1)) => Ok((ResOpModel::OpenDowngrade(f0), s1)),
            }
        } else if tag == 22 {
            match StatusResult::<()>::parse(s) {
                Err(e) => Err(e),
                Ok((f0, s1)) => Ok((ResOpModel::PutFh(f0), s1)),
            }
        } else if tag == 23 {
            match StatusResult::<()>::parse(s) {
                Err(e) => Err(e),
                Ok((f0, s1)) => Ok((ResOpModel::PutPubFh(f0), s1)),
            }
        } else if tag == 24 {
            match StatusResult::<()>::parse(s) {
                Err(e) => Err(e),
                Ok((f0, s1)) => Ok((ResOpModel::PutRootFh(f0), s1)),
            }
        } else if tag == 25 {
            match StatusResult::<ReadRes>::parse(s) {
                Err(e) => Err(e),
                Ok((f0, s1)) => Ok((ResOpModel::Read(f0), s1)),
            }
        } else if tag == 26 {
            match StatusResult::<ReadDirRes>::parse(s) {
                Err(e) => Err(e),
                Ok((f0, s1)) => Ok((ResOpModel::ReadDir(f0), s1)),
            }
        } else if tag == 27 {
            match StatusResult::<ReadLinkRes>::parse(s) {
                Err(e) => Err(e),
                Ok((f0, s1)) => Ok((ResOpModel::ReadLink(f0), s1)),
            }
        } else if tag == 28 {
            match StatusResult::<RemoveRes>::parse(s) {
                Err(e) => Err(e),
                Ok((f0, s1)) => Ok((ResOpModel::Remove(f0), s1)),
            }
        } else if tag == 29 {
            match StatusResult::<RenameRes>::parse(s) {
                Err(e) => Err(e),
                Ok((f0, s1)) => Ok((ResOpModel::Rename(f0), s1)),
            }
        } else if tag == 31 {
            match StatusResult::<()>::parse(s) {
                Err(e) => Err(e),
                Ok((f0, s1)) => Ok((ResOpModel::RestoreFh(f0), s1)),
            }
        } else if tag == 32 {
            match StatusResult::<()>::parse(s) {
                Err(e) => Err(e),
                Ok((f0, s1)) => Ok((ResOpModel::SaveFh(f0), s1)),
            }
        } else if tag == 33 {
            match StatusResult::<SecInfoRes>::parse(s) {
                Err(e) => Err(e),
                Ok((f0, s1)) => Ok((ResOpModel::SecInfo(f0), s1)),
            }
        } else if tag == 34 {
            match SetAttrStatusResult::parse(s) {
                Err(e) => Err(e),
                Ok((f0, s1)) => Ok((ResOpModel::SetAttr(f0), s1)),
            }
        } else if tag == 37 {
            match StatusResult::<()>::parse(s) {
                Err(e) => Err(e),
                Ok((f0, s1)) => Ok((ResOpModel::Verify(f0), s1)),
            }
        } else if tag == 38 {
            match StatusResult::<WriteRes>::parse(s) {
                Err(e) => Err(e),
                Ok((f0, s1)) => Ok((ResOpModel::Write(f0), s1)),
            }
        } else if tag == 40 {
            match StatusResult::<()>::parse(s) {
                Err(e) => Err(e),
                Ok((f0, s1)) => Ok((ResOpModel::BackchannelCtl(f0), s1)),
            }
        } else if tag == 41 {
            match StatusResult::<BindConnToSessionRes>::parse(s) {
                Err(e) => Err(e),
                Ok((f0, s1)) => Ok((ResOpModel::BindConnToSession(f0), s1)),
            }
        } else if tag == 42 {
            match StatusResult::<ExchangeIdRes>::parse(s) {
                Err(e) => Err(e),
                Ok((f0, s1)) => Ok((ResOpModel::ExchangeId(f0), s1)),
            }
        } else if tag == 43 {
            match StatusResult::<CreateSessionRes>::parse(s) {
                Err(e) => Err(e),
                Ok((f0, s1)) => Ok((ResOpModel::CreateSession(f0), s1)),
            }
        } else if tag == 44 {
            match StatusResult::<()>::parse(s) {
                Err(e) => Err(e),
                Ok((f0, s1)) => Ok((ResOpModel::DestroySession(f0), s1)),
            }
        } else if tag == 45 {
            match StatusResult::<()>::parse(s) {
                Err(e) => Err(e),
                Ok((f0, s1)) => Ok((ResOpModel::FreeStateid(f0), s1)),
            }
        } else if tag == 46 {
            match StatusResult::<GetDirDelegationRes>::parse(s) {
                Err(e) => Err(e),
                Ok((f0, s1)) => Ok((ResOpModel::GetDirDelegation(f0), s1)),
            }
        } else if tag == 47 {
            match StatusResult::<GetDeviceInfoRes>::parse(s) {
                Err(e) => Err(e),
                Ok((f0, s1)) => Ok((ResOpModel::GetDeviceInfo(f0), s1)),
            }
        } else if tag == 48 {
            match StatusResult::<GetDeviceListRes>::parse(s) {
                Err(e) => Err(e),
                Ok((f0, s1)) => Ok((ResOpModel::GetDeviceList(f0), s1)),
            }
        } else if tag == 49 {
            match StatusResult::<LayoutCommitRes>::parse(s) {
                Err(e) => Err(e),
                Ok((f0, s1)) => Ok((ResOpModel::LayoutCommit(f0), s1)),
            }
        } else if tag == 50 {
            match StatusResult::<LayoutGetRes>::parse(s) {
                Err(e) => Err(e),
                Ok((f0, s1)) => Ok((ResOpModel::LayoutGet(f0), s1)),
            }
        } else if tag == 51 {
            match StatusResult::<LayoutReturnRes>::parse(s) {
                Err(e) => Err(e),
                Ok((f0, s1)) => Ok((ResOpModel::LayoutReturn(f0), s1)),
            }
        } else if tag == 52 {
            match StatusResult::<SecInfoRes>::parse(s) {
                Err(e) => Err(e),
                Ok((f0, s1)) => Ok((ResOpModel::SecInfoNoName(f0), s1)),
            }
        } else if tag == 53 {
            match StatusResult::<SequenceRes>::parse(s) {
                Err(e) => Err(e),
                Ok((f0, s1)) => Ok((ResOpModel::Sequence(f0), s1)),
            }
        } else if tag == 54 {
            match StatusResult::<SetSsvRes>::parse(s) {
                Err(e) => Err(e),
                Ok((f0, s1)) => Ok((ResOpModel::SetSsv(f0), s1)),
            }
        } else if tag == 55 {
            match StatusResult::<TestStateIdRes>::parse(s) {
                Err(e) => Err(e),
                Ok((f0, s1)) => Ok((ResOpModel::TestStateId(f0), s1)),
            }
        } else if tag == 56 {
            match StatusResult::<WantDelegationRes>::parse(s) {
                Err(e) => Err(e),
                Ok((f0, s1)) => Ok((ResOpModel::WantDelegation(f0), s1)),
            }
        } else if tag == 57 {
            match StatusResult::<()>::parse(s) {
                Err(e) => Err(e),
                Ok((f0, s1)) => Ok((ResOpModel::DestroyClientId(f0), s1)),
            }
        } else if tag == 58 {
            match StatusResult::<()>::parse(s) {
                Err(e) => Err(e),
                Ok((f0, s1)) => Ok((ResOpModel::ReclaimComplete(f0), s1)),
            }
        } else {
            Err(XdrError::BadDiscriminant("ResOp", tag))
        }
    }

    pub proof fn lemma_payload_round_trip(m: ResOpModel, rest: Seq<u8>)
        requires
            <ResOp as Xdr>::wf(m),
        ensures
            Self::parse_payload(Self::tag(m), Self::wire_payload(m) + rest)
                == Ok::<(ResOpModel, Seq<u8>), XdrError>((m, rest)),
    {
        reveal(<ResOp as Xdr>::wf);
        reveal(ResOp::wire_payload);
        reveal(ResOp::parse_payload);
        match m {
            ResOpModel::Access(f0) => {
                StatusResult::<AccessRes>::lemma_round_trip(f0, rest);
            },
            ResOpModel::Close(f0) => {
                StatusResult::<CloseRes>::lemma_round_trip(f0, rest);
            },
            ResOpModel::Commit(f0) => {
                StatusResult::<CommitRes>::lemma_round_trip(f0, rest);
            },
            ResOpModel::Create(f0) => {
                StatusResult::<CreateRes>::lemma_round_trip(f0, rest);
            },
            ResOpModel::DelegPurge(f0) => {
                StatusResult::<()>::lemma_round_trip(f0, rest);
            },
            ResOpModel::DelegReturn(f0) => {
                StatusResult::<()>::lemma_round_trip(f0, rest);
            },
            ResOpModel::GetAttr(f0) => {
                StatusResult::<GetAttrRes>::lemma_round_trip(f0, rest);
            },
            ResOpModel::GetFh(f0) => {
                StatusResult::<GetFhRes>::lemma_round_trip(f0, rest);
            },
            ResOpModel::Link(f0) => {
                LockStatusResult::<LinkRes>::lemma_round_trip(f0, rest);
            },
            ResOpModel::Lock(f0) => {
                LockStatusResult::<LockRes>::lemma_round_trip(f0, rest);
            },
            ResOpModel::LockT(f0) => {
                StatusResult::<()>::lemma_round_trip(f0, rest);
            },
            ResOpModel::LockU(f0) => {
                StatusResult::<LockURes>::lemma_round_trip(f0, rest);
            },
            ResOpModel::LookUp(f0) => {
                StatusResult::<()>::lemma_round_trip(f0, rest);
            },
            ResOpModel::LookUpP(f0) => {
                StatusResult::<()>::lemma_round_trip(f0, rest);
            },
            ResOpModel::NVerify(f0) => {
                StatusResult::<()>::lemma_round_trip(f0, rest);
            },
            ResOpModel::Open(f0) => {
                StatusResult::<OpenRes>::lemma_round_trip(f0, rest);
            },
            ResOpModel::OpenAttr(f0) => {
                StatusResult::<()>::lemma_round_trip(f0, rest);
            },
            ResOpModel::OpenDowngrade(f0) => {
                StatusResult::<OpenDowngradeRes>::lemma_round_trip(f0, rest);
            },
            ResOpModel::PutFh(f0) => {
                StatusResult::<()>::lemma_round_trip(f0, rest);
            },
            ResOpModel::PutPubFh(f0) => {
                StatusResult::<()>::lemma_round_trip(f0, rest);
            },
            ResOpModel::PutRootFh(f0) => {
                StatusResult::<()>::lemma_round_trip(f0, rest);
            },
            ResOpModel::Read(f0) => {
                StatusResult::<ReadRes>::lemma_round_trip(f0, rest);
            },
            ResOpModel::ReadDir(f0) => {
                StatusResult::<ReadDirRes>::lemma_round_trip(f0, rest);
            },
            ResOpModel::ReadLink(f0) => {
                StatusResult::<ReadLinkRes>::lemma_round_trip(f0, rest);
            },
            ResOpModel::Remove(f0) => {
                StatusResult::<RemoveRes>::lemma_round_trip(f0, rest);
            },
            ResOpModel::Rename(f0) => {
                StatusResult::<RenameRes>::lemma_round_trip(f0, rest);
            },
            ResOpModel::RestoreFh(f0) => {
                StatusResult::<()>::lemma_round_trip(f0, rest);
            },
            ResOpModel::SaveFh(f0) => {
                StatusResult::<()>::lemma_round_trip(f0, rest);
            },
            ResOpModel::SecInfo(f0) => {
                StatusResult::<SecInfoRes>::lemma_round_trip(f0, rest);
            },
            ResOpModel::SetAttr(f0) => {
                SetAttrStatusResult::lemma_round_trip(f0, rest);
            },
            ResOpModel::Verify(f0) => {
                StatusResult::<()>::lemma_round_trip(f0, rest);
            },
            ResOpModel::Write(f0) => {
                StatusResult::<WriteRes>::lemma_round_trip(f0, rest);
            },
            ResOpModel::BackchannelCtl(f0) => {
                StatusResult::<()>::lemma_round_trip(f0, rest);
            },
            ResOpModel::BindConnToSession(f0) => {
                StatusResult::<BindConnToSessionRes>::lemma_round_trip(f0, rest);
            },
            ResOpModel::ExchangeId(f0) => {
                StatusResult::<ExchangeIdRes>::lemma_round_trip(f0, rest);
            },
            ResOpModel::CreateSession(f0) => {
                StatusResult::<CreateSessionRes>::lemma_round_trip(f0, rest);
            },
            ResOpModel::DestroySession(f0) => {
                StatusResult::<()>::lemma_round_trip(f0, rest);
            },
            ResOpModel::FreeStateid(f0) => {
                StatusResult::<()>::lemma_round_trip(f0, rest);
            },
            ResOpModel::GetDirDelegation(f0) => {
                StatusResult::<GetDirDelegationRes>::lemma_round_trip(f0, rest);
            },
            ResOpModel::GetDeviceInfo(f0) => {
                StatusResult::<GetDeviceInfoRes>::lemma_round_trip(f0, rest);
            },
            ResOpModel::GetDeviceList(f0) => {
                StatusResult::<GetDeviceListRes>::lemma_round_trip(f0, rest);
            },
            ResOpModel::LayoutCommit(f0) => {
                StatusResult::<LayoutCommitRes>::lemma_round_trip(f0, rest);
            },
            ResOpModel::LayoutGet(f0) => {
                StatusResult::<LayoutGetRes>::lemma_round_trip(f0, rest);
            },
            ResOpModel::LayoutReturn(f0) => {
                StatusResult::<LayoutReturnRes>::lemma_round_trip(f0, rest);
            },
            ResOpModel::SecInfoNoName(f0) => {
                StatusResult::<SecInfoRes>::lemma_round_trip(f0, rest);
            },
            ResOpModel::Sequence(f0) => {
                StatusResult::<SequenceRes>::lemma_round_trip(f0, rest);
            },
            ResOpModel::SetSsv(f0) => {
                StatusResult::<SetSsvRes>::lemma_round_trip(f0, rest);
            },
            ResOpModel::TestStateId(f0) => {
                StatusResult::<TestStateIdRes>::lemma_round_trip(f0, rest);
            },
            ResOpModel::WantDelegation(f0) => {
                StatusResult::<WantDelegationRes>::lemma_round_trip(f0, rest);
            },
            ResOpModel::DestroyClientId(f0) => {
                StatusResult::<()>::lemma_round_trip(f0, rest);
            },
            ResOpModel::ReclaimComplete(f0) => {
                StatusResult::<()>::lemma_round_trip(f0, rest);
            },
        }
    }

    /// The encoding of a value begins with its discriminant, big-endian.
    pub proof fn lemma_wire_leads_with_tag(m: ResOpModel)
        ensures
            <ResOp as Xdr>::wire(m).len() >= 4,
            <ResOp as Xdr>::wire(m).take(4) == wire_u32(Self::tag(m)),
    {
        reveal(<ResOp as Xdr>::wire);
        reveal(wire_u32);
        assert((wire_u32(Self::tag(m)) + Self::wire_payload(m)).take(4) =~= wire_u32(Self::tag(m)));
    }

    /// The discriminant of a value.
    pub fn tag_of(&self) -> (t: u32)
        ensures
            t == Self::tag(self.model()),
    {
        proof {
            reveal(<ResOp as Xdr>::model);
        }
        match self {
            ResOp::Access(..) => 3,
            ResOp::Close(..) => 4,
            ResOp::Commit(..) => 5,
            ResOp::Create(..) => 6,
            ResOp::DelegPurge(..) => 7,
            ResOp::DelegReturn(..) => 8,
            ResOp::GetAttr(..) => 9,
            ResOp::GetFh(..) => 10,
            ResOp::Link(..) => 11,
            ResOp::Lock(..) => 12,
            ResOp::LockT(..) => 13,
            ResOp::LockU(..) => 14,
            ResOp::LookUp(..) => 15,
            ResOp::LookUpP(..) => 16,
            ResOp::NVerify(..) => 17,
            ResOp::Open(..) => 18,
            ResOp::OpenAttr(..) => 19,
            ResOp::OpenDowngrade(..) => 21,
            ResOp::PutFh(..) => 22,
            ResOp::PutPubFh(..) => 23,
            ResOp::PutRootFh(..) => 24,
            ResOp::Read(..) => 25,
            ResOp::ReadDir(..) => 26,
            ResOp::ReadLink(..) => 27,
            ResOp::Remove(..) => 28,
            ResOp::Rename(..) => 29,
            ResOp::RestoreFh(..) => 31,
            ResOp::SaveFh(..) => 32,
            ResOp::SecInfo(..) => 33,
            ResOp::SetAttr(..) => 34,
            ResOp::Verify(..) => 37,
            ResOp::Write(..) => 38,
            ResOp::BackchannelCtl(..) => 40,
            ResOp::BindConnToSession(..) => 41,
            ResOp::ExchangeId(..) => 42,
            ResOp::CreateSession(..) => 43,
            ResOp::DestroySession(..) => 44,
            ResOp::FreeStateid(..) => 45,
            ResOp::GetDirDelegation(..) => 46,
            ResOp::GetDeviceInfo(..) => 47,
            ResOp::GetDeviceList(..) => 48,
            ResOp::LayoutCommit(..) => 49,
            ResOp::LayoutGet(..) => 50,
            ResOp::LayoutReturn(..) => 51,
            ResOp::SecInfoNoName(..) => 52,
            ResOp::Sequence(..) => 53,
            ResOp::SetSsv(..) => 54,
            ResOp::TestStateId(..) => 55,
            ResOp::WantDelegation(..) => 56,
            ResOp::DestroyClientId(..) => 57,
            ResOp::ReclaimComplete(..) => 58,
        }
    }

    /// Appends what follows the discriminant in the encoding of `self`.
    pub fn encode_payload(&self, out: &mut Vec<u8>) -> (r: Result<(), EncodeError>)
        ensures
            r is Ok <==> <ResOp as Xdr>::wf(self.model()),
            r is Ok ==> final(out)@ == old(out)@ + Self::wire_payload(self.model()),
    {
        proof {
            reveal(<ResOp as Xdr>::model);
            reveal(<ResOp as Xdr>::wf);
            reveal(ResOp::wire_payload);
        }
        match self {
            ResOp::Access(f0) => {
                f0.encode(out)?;
            },
            ResOp::Close(f0) => {
                f0.encode(out)?;
            },
            ResOp::Commit(f0) => {
                f0.encode(out)?;
            },
            ResOp::Create(f0) => {
                f0.encode(out)?;
            },
            ResOp::DelegPurge(f0) => {
                f0.encode(out)?;
            },
            ResOp::DelegReturn(f0) => {
                f0.encode(out)?;
            },
            ResOp::GetAttr(f0) => {
                f0.encode(out)?;
            },
            ResOp::GetFh(f0) => {
                f0.encode(out)?;
            },
            ResOp::Link(f0) => {
                f0.encode(out)?;
            },
            ResOp::Lock(f0) => {
                f0.encode(out)?;
            },
            ResOp::LockT(f0) => {
                f0.encode(out)?;
            },
            ResOp::LockU(f0) => {
                f0.encode(out)?;
            },
            ResOp::LookUp(f0) => {
                f0.encode(out)?;
            },
            ResOp::LookUpP(f0) => {
                f0.encode(out)?;
            },
            ResOp::NVerify(f0) => {
                f0.encode(out)?;
            },
            ResOp::Open(f0) => {
                f0.encode(out)?;
            },
            ResOp::OpenAttr(f0) => {
                f0.encode(out)?;
            },
            ResOp::OpenDowngrade(f0) => {
                f0.encode(out)?;
            },
            ResOp::PutFh(f0) => {
                f0.encode(out)?;
            },
            ResOp::PutPubFh(f0) => {
                f0.encode(out)?;
            },
            ResOp::PutRootFh(f0) => {
                f0.encode(out)?;
            },
            ResOp::Read(f0) => {
                f0.encode(out)?;
            },
            ResOp::ReadDir(f0) => {
                f0.encode(out)?;
            },
            ResOp::ReadLink(f0) => {
                f0.encode(out)?;
            },
            ResOp::Remove(f0) => {
                f0.encode(out)?;
            },
            ResOp::Rename(f0) => {
                f0.encode(out)?;
            },
            ResOp::RestoreFh(f0) => {
                f0.encode(out)?;
            },
            ResOp::SaveFh(f0) => {
                f0.encode(out)?;
            },
            ResOp::SecInfo(f0) => {
                f0.encode(out)?;
            },
            ResOp::SetAttr(f0) => {
                f0.encode(out)?;
            },
            ResOp::Verify(f0) => {
                f0.encode(out)?;
            },
            ResOp::Write(f0) => {
                f0.encode(out)?;
            },
            ResOp::BackchannelCtl(f0) => {
                f0.encode(out)?;
            },
            ResOp::BindConnToSession(f0) => {
                f0.encode(out)?;
            },
            ResOp::ExchangeId(f0) => {
                f0.encode(out)?;
            },
            ResOp::CreateSession(f0) => {
                f0.encode(out)?;
            },
            ResOp::DestroySession(f0) => {
                f0.encode(out)?;
            },
            ResOp::FreeStateid(f0) => {
                f0.encode(out)?;
            },
            ResOp::GetDirDelegation(f0) => {
                f0.encode(out)?;
            },
            ResOp::GetDeviceInfo(f0) => {
                f0.encode(out)?;
            },
            ResOp::GetDeviceList(f0) => {
                f0.encode(out)?;
            },
            ResOp::LayoutCommit(f0) => {
                f0.encode(out)?;
            },
            ResOp::LayoutGet(f0) => {
                f0.encode(out)?;
            },
            ResOp::LayoutReturn(f0) => {
                f0.encode(out)?;
            },
            ResOp::SecInfoNoName(f0) => {
                f0.encode(out)?;
            },
            ResOp::Sequence(f0) => {
                f0.encode(out)?;
            },
            ResOp::SetSsv(f0) => {
                f0.encode(out)?;
            },
            ResOp::TestStateId(f0) => {
                f0.encode(out)?;
            },
            ResOp::WantDelegation(f0) => {
                f0.encode(out)?;
            },
            ResOp::DestroyClientId(f0) => {
                f0.encode(out)?;
            },
            ResOp::ReclaimComplete(f0) => {
                f0.encode(out)?;
            },
        }
        Ok(())
    }

    /// Decodes the payload of the value with the discriminant `tag`.
    pub fn decode_payload<'a>(tag: u32, input: &'a [u8]) -> (r: Result<(ResOp, &'a [u8]), XdrError>)
        ensures
            match r {
                Ok((v, rest)) => {
                    Self::parse_payload(tag, input@)
                        == Ok::<(ResOpModel, Seq<u8>), XdrError>((v.model(), rest@))
                },
                Err(e) => {
                    Self::parse_payload(tag, input@) == Err::<(ResOpModel, Seq<u8>), XdrError>(e)
                },
            },
            r matches Ok((v, _)) ==> v.canonical(),
    {
        proof {
            reveal(<ResOp as Xdr>::model);
            reveal(ResOp::parse_payload);
        }
        if tag == 3 {
            let (f0, cur) = StatusResult::<AccessRes>::decode(input)?;
            Ok((ResOp::Access(f0), cur))
        } else if tag == 4 {
            let (f0, cur) = StatusResult::<CloseRes>::decode(input)?;
            Ok((ResOp::Close(f0), cur))
        } else if tag == 5 {
            let (f0, cur) = StatusResult::<CommitRes>::decode(input)?;
            Ok((ResOp::Commit(f0), cur))
        } else if tag == 6 {
            let (f0, cur) = StatusResult::<CreateRes>::decode(input)?;
            Ok((ResOp::Create(f0), cur))
        } else if tag == 7 {
            let (f0, cur) = StatusResult::<()>::decode(input)?;
            Ok((ResOp::DelegPurge(f0), cur))
        } else if tag == 8 {
            let (f0, cur) = StatusResult::<()>::decode(input)?;
            Ok((ResOp::DelegReturn(f0), cur))
        } else if tag == 9 {
            let (f0, cur) = StatusResult::<GetAttrRes>::decode(input)?;
            Ok((ResOp::GetAttr(f0), cur))
        } else if tag == 10 {
            let (f0, cur) = StatusResult::<GetFhRes>::decode(input)?;
            Ok((ResOp::GetFh(f0), cur))
        } else if tag == 11 {
            let (f0, cur) = LockStatusResult::<LinkRes>::decode(input)?;
            Ok((ResOp::Link(f0), cur))
        } else if tag == 12 {
            let (f0, cur) = LockStatusResult::<LockRes>::decode(input)?;
            Ok((ResOp::Lock(f0), cur))
        } else if tag == 13 {
            let (f0, cur) = StatusResult::<()>::decode(input)?;
            Ok((ResOp::LockT(f0), cur))
        } else if tag == 14 {
            let (f0, cur) = StatusResult::<LockURes>::decode(input)?;
            Ok((ResOp::LockU(f0), cur))
        } else if tag == 15 {
            let (f0, cur) = StatusResult::<()>::decode(input)?;
            Ok((ResOp::LookUp(f0), cur))
        } else if tag == 16 {
            let (f0, cur) = StatusResult::<()>::decode(input)?;
            Ok((ResOp::LookUpP(f0), cur))
        } else if tag == 17 {
            let (f0, cur) = StatusResult::<()>::decode(input)?;
            Ok((ResOp::NVerify(f0), cur))
        } else if tag == 18 {
            let (f0, cur) = StatusResult::<OpenRes>::decode(input)?;
            Ok((ResOp::Open(f0), cur))
        } else if tag == 19 {
            let (f0, cur) = StatusResult::<()>::decode(input)?;
            Ok((ResOp::OpenAttr(f0), cur))
        } else if tag == 21 {
            let (f0, cur) = StatusResult::<OpenDowngradeRes>::decode(input)?;
            Ok((ResOp::OpenDowngrade(f0), cur))
        } else if tag == 22 {
            let (f0, cur) = StatusResult::<()>::decode(input)?;
            Ok((ResOp::PutFh(f0), cur))
        } else if tag == 23 {
            let (f0, cur) = StatusResult::<()>::decode(input)?;
            Ok((ResOp::PutPubFh(f0), cur))
        } else if tag == 24 {
            let (f0, cur) = StatusResult::<()>::decode(input)?;
            Ok((ResOp::PutRootFh(f0), cur))
        } else if tag == 25 {
            let (f0, cur) = StatusResult::<ReadRes>::decode(input)?;
            Ok((ResOp::Read(f0), cur))
        } else if tag == 26 {
            let (f0, cur) = StatusResult::<ReadDirRes>::decode(input)?;
            Ok((ResOp::ReadDir(f0), cur))
        } else if tag == 27 {
            let (f0, cur) = StatusResult::<ReadLinkRes>::decode(input)?;
            Ok((ResOp::ReadLink(f0), cur))
        } else if tag == 28 {
            let (f0, cur) = StatusResult::<RemoveRes>::decode(input)?;
            Ok((ResOp::Remove(f0), cur))
        } else if tag == 29 {
            let (f0, cur) = StatusResult::<RenameRes>::decode(input)?;
            Ok((ResOp::Rename(f0), cur))
        } else if tag == 31 {
            let (f0, cur) = StatusResult::<()>::decode(input)?;
            Ok((ResOp::RestoreFh(f0), cur))
        } else if tag == 32 {
            let (f0, cur) = StatusResult::<()>::decode(input)?;
            Ok((ResOp::SaveFh(f0), cur))
        } else if tag == 33 {
            let (f0, cur) = StatusResult::<SecInfoRes>::decode(input)?;
            Ok((ResOp::SecInfo(f0), cur))
        } else if tag == 34 {
            let (f0, cur) = SetAttrStatusResult::decode(input)?;
            Ok((ResOp::SetAttr(f0), cur))
        } else if tag == 37 {
            let (f0, cur) = StatusResult::<()>::decode(input)?;
            Ok((ResOp::Verify(f0), cur))
        } else if tag == 38 {
            let (f0, cur) = StatusResult::<WriteRes>::decode(input)?;
            Ok((ResOp::Write(f0), cur))
        } else if tag == 40 {
            let (f0, cur) = StatusResult::<()>::decode(input)?;
            Ok((ResOp::BackchannelCtl(f0), cur))
        } else if tag == 41 {
            let (f0, cur) = StatusResult::<BindConnToSessionRes>::decode(input)?;
            Ok((ResOp::BindConnToSession(f0), cur))
        } else if tag == 42 {
            let (f0, cur) = StatusResult::<ExchangeIdRes>::decode(input)?;
            Ok((ResOp::ExchangeId(f0), cur))
        } else if tag == 43 {
            let (f0, cur) = StatusResult::<CreateSessionRes>::decode(input)?;
            Ok((ResOp::CreateSession(f0), cur))
        } else if tag == 44 {
            let (f0, cur) = StatusResult::<()>::decode(input)?;
            Ok((ResOp::DestroySession(f0), cur))
        } else if tag == 45 {
            let (f0, cur) = StatusResult::<()>::decode(input)?;
            Ok((ResOp::FreeStateid(f0), cur))
        } else if tag == 46 {
            let (f0, cur) = StatusResult::<GetDirDelegationRes>::decode(input)?;
            Ok((ResOp::GetDirDelegation(f0), cur))
        } else if tag == 47 {
            let (f0, cur) = StatusResult::<GetDeviceInfoRes>::decode(input)?;
            Ok((ResOp::GetDeviceInfo(f0), cur))
        } else if tag == 48 {
            let (f0, cur) = StatusResult::<GetDeviceListRes>::decode(input)?;
            Ok((ResOp::GetDeviceList(f0), cur))
        } else if tag == 49 {
            let (f0, cur) = StatusResult::<LayoutCommitRes>::decode(input)?;
            Ok((ResOp::LayoutCommit(f0), cur))
        } else if tag == 50 {
            let (f0, cur) = StatusResult::<LayoutGetRes>::decode(input)?;
            Ok((ResOp::LayoutGet(f0), cur))
        } else if tag == 51 {
            let (f0, cur) = StatusResult::<LayoutReturnRes>::decode(input)?;
            Ok((ResOp::LayoutReturn(f0), cur))
        } else if tag == 52 {
            let (f0, cur) = StatusResult::<SecInfoRes>::decode(input)?;
            Ok((ResOp::SecInfoNoName(f0), cur))
        } else if tag == 53 {
            let (f0, cur) = StatusResult::<SequenceRes>::decode(input)?;
            Ok((ResOp::Sequence(f0), cur))
        } else if tag == 54 {
            let (f0, cur) = StatusResult::<SetSsvRes>::decode(input)?;
            Ok((ResOp::SetSsv(f0), cur))
        } else if tag == 55 {
            let (f0, cur) = StatusResult::<TestStateIdRes>::decode(input)?;
            Ok((ResOp::TestStateId(f0), cur))
        } else if tag == 56 {
            let (f0, cur) = StatusResult::<WantDelegationRes>::decode(input)?;
            Ok((ResOp::WantDelegation(f0), cur))
        } else if tag == 57 {
            let (f0, cur) = StatusResult::<()>::decode(input)?;
            Ok((ResOp::DestroyClientId(f0), cur))
        } else if tag == 58 {
            let (f0, cur) = StatusResult::<()>::decode(input)?;
            Ok((ResOp::ReclaimComplete(f0), cur))
        } else {
            Err(XdrError::BadDiscriminant("ResOp", tag))
        }
    }
}

impl Xdr for ResOp {
    type Model = ResOpModel;

    /// A result is canonical where what it holds is: a failure of a lock
    /// operation holds a denied lock if and only if its status is `Denied`.
    open spec fn canonical(&self) -> bool {
        match self {
            ResOp::Access(f0) => f0.canonical(),
            ResOp::Close(f0) => f0.canonical(),
            ResOp::Commit(f0) => f0.canonical(),
            ResOp::Create(f0) => f0.canonical(),
            ResOp::DelegPurge(f0) => f0.canonical(),
            ResOp::DelegReturn(f0) => f0.canonical(),
            ResOp::GetAttr(f0) => f0.canonical(),
            ResOp::GetFh(f0) => f0.canonical(),
            ResOp::Link(f0) => f0.canonical(),
            ResOp::Lock(f0) => f0.canonical(),
            ResOp::LockT(f0) => f0.canonical(),
            ResOp::LockU(f0) => f0.canonical(),
            ResOp::LookUp(f0) => f0.canonical(),
            ResOp::LookUpP(f0) => f0.canonical(),
            ResOp::NVerify(f0) => f0.canonical(),
            ResOp::Open(f0) => f0.canonical(),
            ResOp::OpenAttr(f0) => f0.canonical(),
            ResOp::OpenDowngrade(f0) => f0.canonical(),
            ResOp::PutFh(f0) => f0.canonical(),
            ResOp::PutPubFh(f0) => f0.canonical(),
            ResOp::PutRootFh(f0) => f0.canonical(),
            ResOp::Read(f0) => f0.canonical(),
            ResOp::ReadDir(f0) => f0.canonical(),
            ResOp::ReadLink(f0) => f0.canonical(),
            ResOp::Remove(f0) => f0.canonical(),
            ResOp::Rename(f0) => f0.canonical(),
            ResOp::RestoreFh(f0) => f0.canonical(),
            ResOp::SaveFh(f0) => f0.canonical(),
            ResOp::SecInfo(f0) => f0.canonical(),
            ResOp::SetAttr(f0) => f0.canonical(),
            ResOp::Verify(f0) => f0.canonical(),
            ResOp::Write(f0) => f0.canonical(),
            ResOp::BackchannelCtl(f0) => f0.canonical(),
            ResOp::BindConnToSession(f0) => f0.canonical(),
            ResOp::ExchangeId(f0) => f0.canonical(),
            ResOp::CreateSession(f0) => f0.canonical(),
            ResOp::DestroySession(f0) => f0.canonical(),
            ResOp::FreeStateid(f0) => f0.canonical(),
            ResOp::GetDirDelegation(f0) => f0.canonical(),
            ResOp::GetDeviceInfo(f0) => f0.canonical(),
            ResOp::GetDeviceList(f0) => f0.canonical(),
            ResOp::LayoutCommit(f0) => f0.canonical(),
            ResOp::LayoutGet(f0) => f0.canonical(),
            ResOp::LayoutReturn(f0) => f0.canonical(),
            ResOp::SecInfoNoName(f0) => f0.canonical(),
            ResOp::Sequence(f0) => f0.canonical(),
            ResOp::SetSsv(f0) => f0.canonical(),
            ResOp::TestStateId(f0) => f0.canonical(),
            ResOp::WantDelegation(f0) => f0.canonical(),
            ResOp::DestroyClientId(f0) => f0.canonical(),
            ResOp::ReclaimComplete(f0) => f0.canonical(),
        }
    }

    #[verifier::opaque]
    open spec fn model(&self) -> ResOpModel {
        match self {
            ResOp::Access(f0) => ResOpModel::Access(f0.model()),
            ResOp::Close(f0) => ResOpModel::Close(f0.model()),
            ResOp::Commit(f0) => ResOpModel::Commit(f0.model()),
            ResOp::Create(f0) => ResOpModel::Create(f0.model()),
            ResOp::DelegPurge(f0) => ResOpModel::DelegPurge(f0.model()),
            ResOp::DelegReturn(f0) => ResOpModel::DelegReturn(f0.model()),
            ResOp::GetAttr(f0) => ResOpModel::GetAttr(f0.model()),
            ResOp::GetFh(f0) => ResOpModel::GetFh(f0.model()),
            ResOp::Link(f0) => ResOpModel::Link(f0.model()),
            ResOp::Lock(f0) => ResOpModel::Lock(f0.model()),
            ResOp::LockT(f0) => ResOpModel::LockT(f0.model()),
            ResOp::LockU(f0) => ResOpModel::LockU(f0.model()),
            ResOp::LookUp(f0) => ResOpModel::LookUp(f0.model()),
            ResOp::LookUpP(f0) => ResOpModel::LookUpP(f0.model()),
            ResOp::NVerify(f0) => ResOpModel::NVerify(f0.model()),
            ResOp::Open(f0) => ResOpModel::Open(f0.model()),
            ResOp::OpenAttr(f0) => ResOpModel::OpenAttr(f0.model()),
            ResOp::OpenDowngrade(f0) => ResOpModel::OpenDowngrade(f0.model()),
            ResOp::PutFh(f0) => ResOpModel::PutFh(f0.model()),
            ResOp::PutPubFh(f0) => ResOpModel::PutPubFh(f0.model()),
            ResOp::PutRootFh(f0) => ResOpModel::PutRootFh(f0.model()),
            ResOp::Read(f0) => ResOpModel::Read(f0.model()),
            ResOp::ReadDir(f0) => ResOpModel::ReadDir(f0.model()),
            ResOp::ReadLink(f0) => ResOpModel::ReadLink(f0.model()),
            ResOp::Remove(f0) => ResOpModel::Remove(f0.model()),
            ResOp::Rename(f0) => ResOpModel::Rename(f0.model()),
            ResOp::RestoreFh(f0) => ResOpModel::RestoreFh(f0.model()),
            ResOp::SaveFh(f0) => ResOpModel::SaveFh(f0.model()),
            ResOp::SecInfo(f0) => ResOpModel::SecInfo(f0.model()),
            ResOp::SetAttr(f0) => ResOpModel::SetAttr(f0.model()),
            ResOp::Verify(f0) => ResOpModel::Verify(f0.model()),
            ResOp::Write(f0) => ResOpModel::Write(f0.model()),
            ResOp::BackchannelCtl(f0) => ResOpModel::BackchannelCtl(f0.model()),
            ResOp::BindConnToSession(f0) => ResOpModel::BindConnToSession(f0.model()),
            ResOp::ExchangeId(f0) => ResOpModel::ExchangeId(f0.model()),
            ResOp::CreateSession(f0) => ResOpModel::CreateSession(f0.model()),
            ResOp::DestroySession(f0) => ResOpModel::DestroySession(f0.model()),
            ResOp::FreeStateid(f0) => ResOpModel::FreeStateid(f0.model()),
            ResOp::GetDirDelegation(f0) => ResOpModel::GetDirDelegation(f0.model()),
            ResOp::GetDeviceInfo(f0) => ResOpModel::GetDeviceInfo(f0.model()),
            ResOp::GetDeviceList(f0) => ResOpModel::GetDeviceList(f0.model()),
            ResOp::LayoutCommit(f0) => ResOpModel::LayoutCommit(f0.model()),
            ResOp::LayoutGet(f0) => ResOpModel::LayoutGet(f0.model()),
            ResOp::LayoutReturn(f0) => ResOpModel::LayoutReturn(f0.model()),
            ResOp::SecInfoNoName(f0) => ResOpModel::SecInfoNoName(f0.model()),
            ResOp::Sequence(f0) => ResOpModel::Sequence(f0.model()),
            ResOp::SetSsv(f0) => ResOpModel::SetSsv(f0.model()),
            ResOp::TestStateId(f0) => ResOpModel::TestStateId(f0.model()),
            ResOp::WantDelegation(f0) => ResOpModel::WantDelegation(f0.model()),
            ResOp::DestroyClientId(f0) => ResOpModel::DestroyClientId(f0.model()),
            ResOp::ReclaimComplete(f0) => ResOpModel::ReclaimComplete(f0.model()),
        }
    }

    #[verifier::opaque]
    open spec fn wf(m: ResOpModel) -> bool {
        match m {
            ResOpModel::Access(f0) => StatusResult::<AccessRes>::wf(f0),
            ResOpModel::Close(f0) => StatusResult::<CloseRes>::wf(f0),
            ResOpModel::Commit(f0) => StatusResult::<CommitRes>::wf(f0),
            ResOpModel::Create(f0) => StatusResult::<CreateRes>::wf(f0),
            ResOpModel::DelegPurge(f0) => StatusResult::<()>::wf(f0),
            ResOpModel::DelegReturn(f0) => StatusResult::<()>::wf(f0),
            ResOpModel::GetAttr(f0) => StatusResult::<GetAttrRes>::wf(f0),
            ResOpModel::GetFh(f0) => StatusResult::<GetFhRes>::wf(f0),
            ResOpModel::Link(f0) => LockStatusResult::<LinkRes>::wf(f0),
            ResOpModel::Lock(f0) => LockStatusResult::<LockRes>::wf(f0),
            ResOpModel::LockT(f0) => StatusResult::<()>::wf(f0),
            ResOpModel::LockU(f0) => StatusResult::<LockURes>::wf(f0),
            ResOpModel::LookUp(f0) => StatusResult::<()>::wf(f0),
            ResOpModel::LookUpP(f0) => StatusResult::<()>::wf(f0),
            ResOpModel::NVerify(f0) => StatusResult::<()>::wf(f0),
            ResOpModel::Open(f0) => StatusResult::<OpenRes>::wf(f0),
            ResOpModel::OpenAttr(f0) => StatusResult::<()>::wf(f0),
            ResOpModel::OpenDowngrade(f0) => StatusResult::<OpenDowngradeRes>::wf(f0),
            ResOpModel::PutFh(f0) => StatusResult::<()>::wf(f0),
            ResOpModel::PutPubFh(f0) => StatusResult::<()>::wf(f0),
            ResOpModel::PutRootFh(f0) => StatusResult::<()>::wf(f0),
            ResOpModel::Read(f0) => StatusResult::<ReadRes>::wf(f0),
            ResOpModel::ReadDir(f0) => StatusResult::<ReadDirRes>::wf(f0),
            ResOpModel::ReadLink(f0) => StatusResult::<ReadLinkRes>::wf(f0),
            ResOpModel::Remove(f0) => StatusResult::<RemoveRes>::wf(f0),
            ResOpModel::Rename(f0) => StatusResult::<RenameRes>::wf(f0),
            ResOpModel::RestoreFh(f0) => StatusResult::<()>::wf(f0),
            ResOpModel::SaveFh(f0) => StatusResult::<()>::wf(f0),
            ResOpModel::SecInfo(f0) => StatusResult::<SecInfoRes>::wf(f0),
            ResOpModel::SetAttr(f0) => SetAttrStatusResult::wf(f0),
            ResOpModel::Verify(f0) => StatusResult::<()>::wf(f0),
            ResOpModel::Write(f0) => StatusResult::<WriteRes>::wf(f0),
            ResOpModel::BackchannelCtl(f0) => StatusResult::<()>::wf(f0),
            ResOpModel::BindConnToSession(f0) => StatusResult::<BindConnToSessionRes>::wf(f0),
            ResOpModel::ExchangeId(f0) => StatusResult::<ExchangeIdRes>::wf(f0),
            ResOpModel::CreateSession(f0) => StatusResult::<CreateSessionRes>::wf(f0),
            ResOpModel::DestroySession(f0) => StatusResult::<()>::wf(f0),
            ResOpModel::FreeStateid(f0) => StatusResult::<()>::wf(f0),
            ResOpModel::GetDirDelegation(f0) => StatusResult::<GetDirDelegationRes>::wf(f0),
            ResOpModel::GetDeviceInfo(f0) => StatusResult::<GetDeviceInfoRes>::wf(f0),
            ResOpModel::GetDeviceList(f0) => StatusResult::<GetDeviceListRes>::wf(f0),
            ResOpModel::LayoutCommit(f0) => StatusResult::<LayoutCommitRes>::wf(f0),
            ResOpModel::LayoutGet(f0) => StatusResult::<LayoutGetRes>::wf(f0),
            ResOpModel::LayoutReturn(f0) => StatusResult::<LayoutReturnRes>::wf(f0),
            ResOpModel::SecInfoNoName(f0) => StatusResult::<SecInfoRes>::wf(f0),
            ResOpModel::Sequence(f0) => StatusResult::<SequenceRes>::wf(f0),
            ResOpModel::SetSsv(f0) => StatusResult::<SetSsvRes>::wf(f0),
            ResOpModel::TestStateId(f0) => StatusResult::<TestStateIdRes>::wf(f0),
            ResOpModel::WantDelegation(f0) => StatusResult::<WantDelegationRes>::wf(f0),
            ResOpModel::DestroyClientId(f0) => StatusResult::<()>::wf(f0),
            ResOpModel::ReclaimComplete(f0) => StatusResult::<()>::wf(f0),
        }
    }

    #[verifier::opaque]
    open spec fn wire(m: ResOpModel) -> Seq<u8> {
        wire_u32(Self::tag(m)) + Self::wire_payload(m)
    }

    #[verifier::opaque]
    open spec fn parse(s: Seq<u8>) -> Result<(ResOpModel, Seq<u8>), XdrError> {
        match parse_u32(s) {
            Ok((tag, r)) => Self::parse_payload(tag, r),
            Err(e) => Err(e),
        }
    }

    proof fn lemma_round_trip(m: ResOpModel, rest: Seq<u8>) {
        reveal(<ResOp as Xdr>::wire);
        reveal(<ResOp as Xdr>::parse);
        lemma_concat_assoc(wire_u32(Self::tag(m)), Self::wire_payload(m), rest);
        lemma_u32_round_trip(Self::tag(m), Self::wire_payload(m) + rest);
        Self::lemma_payload_round_trip(m, rest);
    }

    fn encode(&self, out: &mut Vec<u8>) -> (r: Result<(), EncodeError>) {
        proof {
            reveal(<ResOp as Xdr>::wire);
        }
        let tag = self.tag_of();
        let _ = tag.encode(out);
        self.encode_payload(out)?;
        proof {
            lemma_concat_assoc(old(out)@, wire_u32(tag), Self::wire_payload(self.model()));
        }
        Ok(())
    }

    fn decode<'a>(input: &'a [u8]) -> (r: Result<(ResOp, &'a [u8]), XdrError>) {
        proof {
            reveal(<ResOp as Xdr>::parse);
        }
        let (tag, cur) = u32::decode(input)?;
        Self::decode_payload(tag, cur)
    }
}

/// A COMPOUND request: a tag, the minor version, and the operations in order.
#[derive(Clone, Debug, PartialEq, Eq)]
pub struct CompoundArgs {
    pub tag: String,
    pub minor_version: u32,
    pub arg_array: Vec<ArgOp>,
}

/// What a [`CompoundArgs`] stands for.
pub struct CompoundArgsModel {
    pub tag: Seq<char>,
    pub minor_version: u32,
    pub arg_array: Seq<ArgOpModel>,
}

impl Xdr for CompoundArgs {
    type Model = CompoundArgsModel;

    #[verifier::opaque]
    open spec fn model(&self) -> CompoundArgsModel {
        CompoundArgsModel {
            tag: self.tag.model(),
            minor_version: self.minor_version.model(),
            arg_array: self.arg_array.model(),
        }
    }

    #[verifier::opaque]
    open spec fn wf(m: CompoundArgsModel) -> bool {
        &&& String::wf(m.tag)
        &&& Vec::<ArgOp>::wf(m.arg_array)
    }

    #[verifier::opaque]
    open spec fn wire(m: CompoundArgsModel) -> Seq<u8> {
        String::wire(m.tag) + u32::wire(m.minor_version) + Vec::<ArgOp>::wire(m.arg_array)
    }

    #[verifier::opaque]
    open spec fn parse(s: Seq<u8>) -> Result<(CompoundArgsModel, Seq<u8>), XdrError> {
        match String::parse(s) {
            Err(e) => Err(e),
            Ok((tag, s1)) => match u32::parse(s1) {
                Err(e) => Err(e),
                Ok((minor_version, s2)) => match Vec::<ArgOp>::parse(s2) {
                    Err(e) => Err(e),
                    Ok((arg_array, s3)) => {
                        Ok((CompoundArgsModel { tag, minor_version, arg_array }, s3))
                    },
                },
            },
        }
    }

    proof fn lemma_round_trip(m: CompoundArgsModel, rest: Seq<u8>) {
        reveal(<CompoundArgs as Xdr>::wf);
        reveal(<CompoundArgs as Xdr>::wire);
        reveal(<CompoundArgs as Xdr>::parse);
        let w1 = String::wire(m.tag);
        let w2 = u32::wire(m.minor_version);
        let w3 = Vec::<ArgOp>::wire(m.arg_array);
        let r3 = rest;
        let r2 = w3 + r3;
        let r1 = w2 + r2;
        lemma_concat_assoc(w1 + w2, w3, r3);
        lemma_concat_assoc(w1, w2, r2);
        String::lemma_round_trip(m.tag, r1);
        u32::lemma_round_trip(m.minor_version, r2);
        Vec::<ArgOp>::lemma_round_trip(m.arg_array, r3);
    }

    fn encode(&self, out: &mut Vec<u8>) -> (r: Result<(), EncodeError>) {
        proof {
            reveal(<CompoundArgs as Xdr>::model);
            reveal(<CompoundArgs as Xdr>::wf);
            reveal(<CompoundArgs as Xdr>::wire);
        }
        let ghost m = self.model();
        let ghost w1 = String::wire(m.tag);
        let ghost w2 = u32::wire(m.minor_version);
        let ghost w3 = Vec::<ArgOp>::wire(m.arg_array);
        self.tag.encode(out)?;
        let _ = self.minor_version.encode(out);
        proof {
            lemma_concat_assoc(old(out)@, w1, w2);
        }
        self.arg_array.encode(out)?;
        proof {
            lemma_concat_assoc(old(out)@, w1 + w2, w3);
        }
        Ok(())
    }

    fn decode<'a>(input: &'a [u8]) -> (r: Result<(CompoundArgs, &'a [u8]), XdrError>) {
        proof {
            reveal(<CompoundArgs as Xdr>::model);
            reveal(<CompoundArgs as Xdr>::parse);
        }
        let (tag, cur) = String::decode(input)?;
        let (minor_version, cur) = u32::decode(cur)?;
        let (arg_array, cur) = Vec::<ArgOp>::decode(cur)?;
        Ok((CompoundArgs { tag, minor_version, arg_array }, cur))
    }
}

/// The reply to a COMPOUND request: the status of the whole, the tag, and the
/// results in order, up to and with the first that failed.
#[derive(Clone, Debug, PartialEq, Eq)]
pub struct CompoundRes {
    pub status: StatusResult<()>,
    pub tag: String,
    pub res_array: Vec<ResOp>,
}

/// What a [`CompoundRes`] stands for.
pub struct CompoundResModel {
    pub status: StatusResult<()>,
    pub tag: Seq<char>,
    pub res_array: Seq<ResOpModel>,
}

impl Xdr for CompoundRes {
    type Model = CompoundResModel;

    open spec fn canonical(&self) -> bool {
        self.res_array.canonical()
    }

    #[verifier::opaque]
    open spec fn model(&self) -> CompoundResModel {
        CompoundResModel {
            status: self.status.model(),
            tag: self.tag.model(),
            res_array: self.res_array.model(),
        }
    }

    #[verifier::opaque]
    open spec fn wf(m: CompoundResModel) -> bool {
        &&& StatusResult::<()>::wf(m.status)
        &&& String::wf(m.tag)
        &&& Vec::<ResOp>::wf(m.res_array)
    }

    #[verifier::opaque]
    open spec fn wire(m: CompoundResModel) -> Seq<u8> {
        StatusResult::<()>::wire(m.status) + String::wire(m.tag) + Vec::<ResOp>::wire(m.res_array)
    }

    #[verifier::opaque]
    open spec fn parse(s: Seq<u8>) -> Result<(CompoundResModel, Seq<u8>), XdrError> {
        match StatusResult::<()>::parse(s) {
            Err(e) => Err(e),
            Ok((status, s1)) => match String::parse(s1) {
                Err(e) => Err(e),
                Ok((tag, s2)) => match Vec::<ResOp>::parse(s2) {
                    Err(e) => Err(e),
                    Ok((res_array, s3)) => Ok((CompoundResModel { status, tag, res_array }, s3)),
                },
            },
        }
    }

    proof fn lemma_round_trip(m: CompoundResModel, rest: Seq<u8>) {
        reveal(<CompoundRes as Xdr>::wf);
        reveal(<CompoundRes as Xdr>::wire);
        reveal(<CompoundRes as Xdr>::parse);
        let w1 = StatusResult::<()>::wire(m.status);
        let w2 = String::wire(m.tag);
        let w3 = Vec::<ResOp>::wire(m.res_array);
        let r3 = rest;
        let r2 = w3 + r3;
        let r1 = w2 + r2;
        lemma_concat_assoc(w1 + w2, w3, r3);
        lemma_concat_assoc(w1, w2, r2);
        StatusResult::<()>::lemma_round_trip(m.status, r1);
        String::lemma_round_trip(m.tag, r2);
        Vec::<ResOp>::lemma_round_trip(m.res_array, r3);
    }

    fn encode(&self, out: &mut Vec<u8>) -> (r: Result<(), EncodeError>) {
        proof {
            reveal(<CompoundRes as Xdr>::model);
            reveal(<CompoundRes as Xdr>::wf);
            reveal(<CompoundRes as Xdr>::wire);
        }
        let ghost m = self.model();
        let ghost w1 = StatusResult::<()>::wire(m.status);
        let ghost w2 = String::wire(m.tag);
        let ghost w3 = Vec::<ResOp>::wire(m.res_array);
        self.status.encode(out)?;
        self.tag.encode(out)?;
        proof {
            lemma_concat_assoc(old(out)@, w1, w2);
        }
        self.res_array.encode(out)?;
        proof {
            lemma_concat_assoc(old(out)@, w1 + w2, w3);
        }
        Ok(())
    }

    fn decode<'a>(input: &'a [u8]) -> (r: Result<(CompoundRes, &'a [u8]), XdrError>) {
        proof {
            reveal(<CompoundRes as Xdr>::model);
            reveal(<CompoundRes as Xdr>::parse);
        }
        let (status, cur) = StatusResult::<()>::decode(input)?;
        let (tag, cur) = String::decode(cur)?;
        let (res_array, cur) = Vec::<ResOp>::decode(cur)?;
        Ok((CompoundRes { status, tag, res_array }, cur))
    }
}

impl ArgOp {
    /// The operation that this is a call of.
    pub open spec fn kind(&self) -> OperationId {
        match self {
            ArgOp::Access(..) => OperationId::Access,
            ArgOp::Close(..) => OperationId::Close,
            ArgOp::Commit(..) => OperationId::Commit,
            ArgOp::Create(..) => OperationId::Create,
            ArgOp::DelegPurge(..) => OperationId::DelegPurge,
            ArgOp::DelegReturn(..) => OperationId::DelegReturn,
            ArgOp::GetAttr(..) => OperationId::GetAttr,
            ArgOp::GetFh => OperationId::GetFh,
            ArgOp::Link(..) => OperationId::Link,
            ArgOp::Lock(..) => OperationId::Lock,
            ArgOp::LockT(..) => OperationId::LockT,
            ArgOp::LockU(..) => OperationId::LockU,
            ArgOp::LookUp(..) => OperationId::LookUp,
            ArgOp::LookUpP => OperationId::LookUpP,
            ArgOp::NVerify(..) => OperationId::NVerify,
            ArgOp::Open(..) => OperationId::Open,
            ArgOp::OpenAttr(..) => OperationId::OpenAttr,
            ArgOp::OpenDowngrade(..) => OperationId::OpenDowngrade,
            ArgOp::PutFh(..) => OperationId::PutFh,
            ArgOp::PutPubFh => OperationId::PutPubFh,
            ArgOp::PutRootFh => OperationId::PutRootFh,
            ArgOp::Read(..) => OperationId::Read,
            ArgOp::ReadDir(..) => OperationId::ReadDir,
            ArgOp::ReadLink => OperationId::ReadLink,
            ArgOp::Remove(..) => OperationId::Remove,
            ArgOp::Rename(..) => OperationId::Rename,
            ArgOp::RestoreFh => OperationId::RestoreFh,
            ArgOp::SaveFh => OperationId::SaveFh,
            ArgOp::SecInfo(..) => OperationId::SecInfo,
            ArgOp::SetAttr(..) => OperationId::SetAttr,
            ArgOp::Verify(..) => OperationId::Verify,
            ArgOp::Write(..) => OperationId::Write,
            ArgOp::BackchannelCtl(..) => OperationId::BackchannelCtl,
            ArgOp::BindConnToSession(..) => OperationId::BindConnToSession,
            ArgOp::ExchangeId(..) => OperationId::ExchangeId,
            ArgOp::CreateSession(..) => OperationId::CreateSession,
            ArgOp::DestroySession(..) => OperationId::DestroySession,
            ArgOp::FreeStateid(..) => OperationId::FreeStateid,
            ArgOp::GetDirDelegation(..) => OperationId::GetDirDelegation,
            ArgOp::GetDeviceInfo(..) => OperationId::GetDeviceInfo,
            ArgOp::GetDeviceList(..) => OperationId::GetDeviceList,
            ArgOp::LayoutCommit(..) => OperationId::LayoutCommit,
            ArgOp::LayoutGet(..) => OperationId::LayoutGet,
            ArgOp::LayoutReturn(..) => OperationId::LayoutReturn,
            ArgOp::SecInfoNoName(..) => OperationId::SecInfoNoName,
            ArgOp::Sequence(..) => OperationId::Sequence,
            ArgOp::SetSsv(..) => OperationId::SetSsv,
            ArgOp::TestStateId(..) => OperationId::TestStateId,
            ArgOp::WantDelegation(..) => OperationId::WantDelegation,
            ArgOp::DestroyClientId(..) => OperationId::DestroyClientId,
            ArgOp::ReclaimComplete(..) => OperationId::ReclaimComplete,
        }
    }

    /// The operation that this is a call of.
    pub fn operation_id(&self) -> (id: OperationId)
        ensures
            id == self.kind(),
    {
        match self {
            ArgOp::Access(..) => OperationId::Access,
            ArgOp::Close(..) => OperationId::Close,
            ArgOp::Commit(..) => OperationId::Commit,
            ArgOp::Create(..) => OperationId::Create,
            ArgOp::DelegPurge(..) => OperationId::DelegPurge,
            ArgOp::DelegReturn(..) => OperationId::DelegReturn,
            ArgOp::GetAttr(..) => OperationId::GetAttr,
            ArgOp::GetFh => OperationId::GetFh,
            ArgOp::Link(..) => OperationId::Link,
            ArgOp::Lock(..) => OperationId::Lock,
            ArgOp::LockT(..) => OperationId::LockT,
            ArgOp::LockU(..) => OperationId::LockU,
            ArgOp::LookUp(..) => OperationId::LookUp,
            ArgOp::LookUpP => OperationId::LookUpP,
            ArgOp::NVerify(..) => OperationId::NVerify,
            ArgOp::Open(..) => OperationId::Open,
            ArgOp::OpenAttr(..) => OperationId::OpenAttr,
            ArgOp::OpenDowngrade(..) => OperationId::OpenDowngrade,
            ArgOp::PutFh(..) => OperationId::PutFh,
            ArgOp::PutPubFh => OperationId::PutPubFh,
            ArgOp::PutRootFh => OperationId::PutRootFh,
            ArgOp::Read(..) => OperationId::Read,
            ArgOp::ReadDir(..) => OperationId::ReadDir,
            ArgOp::ReadLink => OperationId::ReadLink,
            ArgOp::Remove(..) => OperationId::Remove,
            ArgOp::Rename(..) => OperationId::Rename,
            ArgOp::RestoreFh => OperationId::RestoreFh,
            ArgOp::SaveFh => OperationId::SaveFh,
            ArgOp::SecInfo(..) => OperationId::SecInfo,
            ArgOp::SetAttr(..) => OperationId::SetAttr,
            ArgOp::Verify(..) => OperationId::Verify,
            ArgOp::Write(..) => OperationId::Write,
            ArgOp::BackchannelCtl(..) => OperationId::BackchannelCtl,
            ArgOp::BindConnToSession(..) => OperationId::BindConnToSession,
            ArgOp::ExchangeId(..) => OperationId::ExchangeId,
            ArgOp::CreateSession(..) => OperationId::CreateSession,
            ArgOp::DestroySession(..) => OperationId::DestroySession,
            ArgOp::FreeStateid(..) => OperationId::FreeStateid,
            ArgOp::GetDirDelegation(..) => OperationId::GetDirDelegation,
            ArgOp::GetDeviceInfo(..) => OperationId::GetDeviceInfo,
            ArgOp::GetDeviceList(..) => OperationId::GetDeviceList,
            ArgOp::LayoutCommit(..) => OperationId::LayoutCommit,
            ArgOp::LayoutGet(..) => OperationId::LayoutGet,
            ArgOp::LayoutReturn(..) => OperationId::LayoutReturn,
            ArgOp::SecInfoNoName(..) => OperationId::SecInfoNoName,
            ArgOp::Sequence(..) => OperationId::Sequence,
            ArgOp::SetSsv(..) => OperationId::SetSsv,
            ArgOp::TestStateId(..) => OperationId::TestStateId,
            ArgOp::WantDelegation(..) => OperationId::WantDelegation,
            ArgOp::DestroyClientId(..) => OperationId::DestroyClientId,
            ArgOp::ReclaimComplete(..) => OperationId::ReclaimComplete,
        }
    }
}

impl ResOp {
    /// The operation that this is the result of.
    pub open spec fn kind(&self) -> OperationId {
        match self {
            ResOp::Access(..) => OperationId::Access,
            ResOp::Close(..) => OperationId::Close,
            ResOp::Commit(..) => OperationId::Commit,
            ResOp::Create(..) => OperationId::Create,
            ResOp::DelegPurge(..) => OperationId::DelegPurge,
            ResOp::DelegReturn(..) => OperationId::DelegReturn,
            ResOp::GetAttr(..) => OperationId::GetAttr,
            ResOp::GetFh(..) => OperationId::GetFh,
            ResOp::Link(..) => OperationId::Link,
            ResOp::Lock(..) => OperationId::Lock,
            ResOp::LockT(..) => OperationId::LockT,
            ResOp::LockU(..) => OperationId::LockU,
            ResOp::LookUp(..) => OperationId::LookUp,
            ResOp::LookUpP(..) => OperationId::LookUpP,
            ResOp::NVerify(..) => OperationId::NVerify,
            ResOp::Open(..) => OperationId::Open,
            ResOp::OpenAttr(..) => OperationId::OpenAttr,
            ResOp::OpenDowngrade(..) => OperationId::OpenDowngrade,
            ResOp::PutFh(..) => OperationId::PutFh,
            ResOp::PutPubFh(..) => OperationId::PutPubFh,
            ResOp::PutRootFh(..) => OperationId::PutRootFh,
            ResOp::Read(..) => OperationId::Read,
            ResOp::ReadDir(..) => OperationId::ReadDir,
            ResOp::ReadLink(..) => OperationId::ReadLink,
            ResOp::Remove(..) => OperationId::Remove,
            ResOp::Rename(..) => OperationId::Rename,
            ResOp::RestoreFh(..) => OperationId::RestoreFh,
            ResOp::SaveFh(..) => OperationId::SaveFh,
            ResOp::SecInfo(..) => OperationId::SecInfo,
            ResOp::SetAttr(..) => OperationId::SetAttr,
            ResOp::Verify(..) => OperationId::Verify,
            ResOp::Write(..) => OperationId::Write,
            ResOp::BackchannelCtl(..) => OperationId::BackchannelCtl,
            ResOp::BindConnToSession(..) => OperationId::BindConnToSession,
            ResOp::ExchangeId(..) => OperationId::ExchangeId,
            ResOp::CreateSession(..) => OperationId::CreateSession,
            ResOp::DestroySession(..) => OperationId::DestroySession,
            ResOp::FreeStateid(..) => OperationId::FreeStateid,
            ResOp::GetDirDelegation(..) => OperationId::GetDirDelegation,
            ResOp::GetDeviceInfo(..) => OperationId::GetDeviceInfo,
            ResOp::GetDeviceList(..) => OperationId::GetDeviceList,
            ResOp::LayoutCommit(..) => OperationId::LayoutCommit,
            ResOp::LayoutGet(..) => OperationId::LayoutGet,
            ResOp::LayoutReturn(..) => OperationId::LayoutReturn,
            ResOp::SecInfoNoName(..) => OperationId::SecInfoNoName,
            ResOp::Sequence(..) => OperationId::Sequence,
            ResOp::SetSsv(..) => OperationId::SetSsv,
            ResOp::TestStateId(..) => OperationId::TestStateId,
            ResOp::WantDelegation(..) => OperationId::WantDelegation,
            ResOp::DestroyClientId(..) => OperationId::DestroyClientId,
            ResOp::ReclaimComplete(..) => OperationId::ReclaimComplete,
        }
    }

    /// The operation that this is the result of.
    pub fn operation_id(&self) -> (id: OperationId)
        ensures
            id == self.kind(),
    {
        match self {
            ResOp::Access(..) => OperationId::Access,
            ResOp::Close(..) => OperationId::Close,
            ResOp::Commit(..) => OperationId::Commit,
            ResOp::Create(..) => OperationId::Create,
            ResOp::DelegPurge(..) => OperationId::DelegPurge,
            ResOp::DelegReturn(..) => OperationId::DelegReturn,
            ResOp::GetAttr(..) => OperationId::GetAttr,
            ResOp::GetFh(..) => OperationId::GetFh,
            ResOp::Link(..) => OperationId::Link,
            ResOp::Lock(..) => OperationId::Lock,
            ResOp::LockT(..) => OperationId::LockT,
            ResOp::LockU(..) => OperationId::LockU,
            ResOp::LookUp(..) => OperationId::LookUp,
            ResOp::LookUpP(..) => OperationId::LookUpP,
            ResOp::NVerify(..) => OperationId::NVerify,
            ResOp::Open(..) => OperationId::Open,
            ResOp::OpenAttr(..) => OperationId::OpenAttr,
            ResOp::OpenDowngrade(..) => OperationId::OpenDowngrade,
            ResOp::PutFh(..) => OperationId::PutFh,
            ResOp::PutPubFh(..) => OperationId::PutPubFh,
            ResOp::PutRootFh(..) => OperationId::PutRootFh,
            ResOp::Read(..) => OperationId::Read,
            ResOp::ReadDir(..) => OperationId::ReadDir,
            ResOp::ReadLink(..) => OperationId::ReadLink,
            ResOp::Remove(..) => OperationId::Remove,
            ResOp::Rename(..) => OperationId::Rename,
            ResOp::RestoreFh(..) => OperationId::RestoreFh,
            ResOp::SaveFh(..) => OperationId::SaveFh,
            ResOp::SecInfo(..) => OperationId::SecInfo,
            ResOp::SetAttr(..) => OperationId::SetAttr,
            ResOp::Verify(..) => OperationId::Verify,
            ResOp::Write(..) => OperationId::Write,
            ResOp::BackchannelCtl(..) => OperationId::BackchannelCtl,
            ResOp::BindConnToSession(..) => OperationId::BindConnToSession,
            ResOp::ExchangeId(..) => OperationId::ExchangeId,
            ResOp::CreateSession(..) => OperationId::CreateSession,
            ResOp::DestroySession(..) => OperationId::DestroySession,
            ResOp::FreeStateid(..) => OperationId::FreeStateid,
            ResOp::GetDirDelegation(..) => OperationId::GetDirDelegation,
            ResOp::GetDeviceInfo(..) => OperationId::GetDeviceInfo,
            ResOp::GetDeviceList(..) => OperationId::GetDeviceList,
            ResOp::LayoutCommit(..) => OperationId::LayoutCommit,
            ResOp::LayoutGet(..) => OperationId::LayoutGet,
            ResOp::LayoutReturn(..) => OperationId::LayoutReturn,
            ResOp::SecInfoNoName(..) => OperationId::SecInfoNoName,
            ResOp::Sequence(..) => OperationId::Sequence,
            ResOp::SetSsv(..) => OperationId::SetSsv,
            ResOp::TestStateId(..) => OperationId::TestStateId,
            ResOp::WantDelegation(..) => OperationId::WantDelegation,
            ResOp::DestroyClientId(..) => OperationId::DestroyClientId,
            ResOp::ReclaimComplete(..) => OperationId::ReclaimComplete,
        }
    }
}

impl Tagged for OperationId {
    open spec fn discriminant(m: OperationId) -> u32 {
        Self::tag(m)
    }

    proof fn lemma_leads_with_discriminant(m: OperationId) {
        Self::lemma_wire_leads_with_tag(m);
    }
}

impl Tagged for ArgOp {
    open spec fn discriminant(m: ArgOpModel) -> u32 {
        Self::tag(m)
    }

    proof fn lemma_leads_with_discriminant(m: ArgOpModel) {
        Self::lemma_wire_leads_with_tag(m);
    }
}

impl Tagged for ResOp {
    open spec fn discriminant(m: ResOpModel) -> u32 {
        Self::tag(m)
    }

    proof fn lemma_leads_with_discriminant(m: ResOpModel) {
        Self::lemma_wire_leads_with_tag(m);
    }
}

} // verus!
