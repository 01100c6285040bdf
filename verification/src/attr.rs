//! File attributes: their identifiers, the values that belong to them, and the
//! types those values are made of.

use crate::basic::{
    Change, DeviceData, FileHandle, FileHandleModel, FileId, FsId, Identity, IdentityModel,
    LayoutType, Lease, Mode, ModeMasked, PathName, PathNameModel, Time,
};
use crate::enum_map::{Attribute, EnumId, EnumMap, EnumSet, Payload, ToId};
use crate::flags::{AceFlags, AceMask, AclFlags, FsLocationsInfoFlags};
use crate::status::{StatusResult};
use crate::xdr::{
    copy_bytes, decode_opaque, encode_opaque, lemma_concat_assoc, lemma_opaque_round_trip,
    lemma_u32_round_trip, parse_opaque, parse_u32, wf_opaque, wire_opaque, wire_u32, EncodeError,
    Xdr, XdrError,
};
use crate::xdr::Tagged;
use vstd::prelude::*;

verus! {

/// The identifiers of the attributes of a file: 0 to 76, without 25.
#[derive(Clone, Copy, Debug, PartialEq, Eq, PartialOrd, Ord)]
pub enum FileAttributeId {
    SupportedAttrs,
    Type,
    FhExpireType,
    Change,
    Size,
    LinkSupport,
    SymlinkSupport,
    NamedAttr,
    FsId,
    UniqueHandles,
    LeaseTime,
    ReadDirAttrError,
    Acl,
    AclSupport,
    Archive,
    CanSetTime,
    CaseInsensitive,
    CasePreserving,
    ChownRestricted,
    FileHandle,
    FileId,
    FilesAvail,
    FilesFree,
    FilesTotal,
    FsLocations,
    Homogeneous,
    MaxFileSize,
    MaxLink,
    MaxName,
    MaxRead,
    MaxWrite,
    MimeType,
    Mode,
    NoTrunc,
    NumLinks,
    Owner,
    OwnerGroup,
    QuotaAvailHard,
    QuotaAvailSoft,
    QuotaUsed,
    RawDev,
    SpaceAvail,
    SpaceFree,
    SpaceTotal,
    SpaceUsed,
    System,
    TimeAccess,
    TimeAccessSet,
    TimeBackup,
    TimeCreate,
    TimeDelta,
    TimeMetadata,
    TimeModify,
    TimeModifySet,
    MountedOnFileid,
    DirNotifDelay,
    DirentNotifDelay,
    Dacl,
    Sacl,
    ChangePolicy,
    FsStatus,
    FsLayoutType,
    LayoutHint,
    LayoutType,
    LayoutBlksize,
    LayoutAlignment,
    FsLocationsInfo,
    MdsThreshold,
    RetentionGet,
    RetentionSet,
    RetentevtGet,
    RetentevtSet,
    RetentionHold,
    ModeSetMasked,
    SupportedAttrsExclusiveCreate,
    FsCharsetCap,
}

impl FileAttributeId {
    /// The discriminant that leads the encoding of a value.
    pub open spec fn tag(m: FileAttributeId) -> u32 {
        match m {
            FileAttributeId::SupportedAttrs => 0,
            FileAttributeId::Type => 1,
            FileAttributeId::FhExpireType => 2,
            FileAttributeId::Change => 3,
            FileAttributeId::Size => 4,
            FileAttributeId::LinkSupport => 5,
            FileAttributeId::SymlinkSupport => 6,
            FileAttributeId::NamedAttr => 7,
            FileAttributeId::FsId => 8,
            FileAttributeId::UniqueHandles => 9,
            FileAttributeId::LeaseTime => 10,
            FileAttributeId::ReadDirAttrError => 11,
            FileAttributeId::Acl => 12,
            FileAttributeId::AclSupport => 13,
            FileAttributeId::Archive => 14,
            FileAttributeId::CanSetTime => 15,
            FileAttributeId::CaseInsensitive => 16,
            FileAttributeId::CasePreserving => 17,
            FileAttributeId::ChownRestricted => 18,
            FileAttributeId::FileHandle => 19,
            FileAttributeId::FileId => 20,
            FileAttributeId::FilesAvail => 21,
            FileAttributeId::FilesFree => 22,
            FileAttributeId::FilesTotal => 23,
            FileAttributeId::FsLocations => 24,
            FileAttributeId::Homogeneous => 26,
            FileAttributeId::MaxFileSize => 27,
            FileAttributeId::MaxLink => 28,
            FileAttributeId::MaxName => 29,
            FileAttributeId::MaxRead => 30,
            FileAttributeId::MaxWrite => 31,
            FileAttributeId::MimeType => 32,
            FileAttributeId::Mode => 33,
            FileAttributeId::NoTrunc => 34,
            FileAttributeId::NumLinks => 35,
            FileAttributeId::Owner => 36,
            FileAttributeId::OwnerGroup => 37,
            FileAttributeId::QuotaAvailHard => 38,
            FileAttributeId::QuotaAvailSoft => 39,
            FileAttributeId::QuotaUsed => 40,
            FileAttributeId::RawDev => 41,
            FileAttributeId::SpaceAvail => 42,
            FileAttributeId::SpaceFree => 43,
            FileAttributeId::SpaceTotal => 44,
            FileAttributeId::SpaceUsed => 45,
            FileAttributeId::System => 46,
            FileAttributeId::TimeAccess => 47,
            FileAttributeId::TimeAccessSet => 48,
            FileAttributeId::TimeBackup => 49,
            FileAttributeId::TimeCreate => 50,
            FileAttributeId::TimeDelta => 51,
            FileAttributeId::TimeMetadata => 52,
            FileAttributeId::TimeModify => 53,
            FileAttributeId::TimeModifySet => 54,
            FileAttributeId::MountedOnFileid => 55,
            FileAttributeId::DirNotifDelay => 56,
            FileAttributeId::DirentNotifDelay => 57,
            FileAttributeId::Dacl => 58,
            FileAttributeId::Sacl => 59,
            FileAttributeId::ChangePolicy => 60,
            FileAttributeId::FsStatus => 61,
            FileAttributeId::FsLayoutType => 62,
            FileAttributeId::LayoutHint => 63,
            FileAttributeId::LayoutType => 64,
            FileAttributeId::LayoutBlksize => 65,
            FileAttributeId::LayoutAlignment => 66,
            FileAttributeId::FsLocationsInfo => 67,
            FileAttributeId::MdsThreshold => 68,
            FileAttributeId::RetentionGet => 69,
            FileAttributeId::RetentionSet => 70,
            FileAttributeId::RetentevtGet => 71,
            FileAttributeId::RetentevtSet => 72,
            FileAttributeId::RetentionHold => 73,
            FileAttributeId::ModeSetMasked => 74,
            FileAttributeId::SupportedAttrsExclusiveCreate => 75,
            FileAttributeId::FsCharsetCap => 76,
        }
    }

    /// What follows the discriminant in the encoding of a value.
    #[verifier::opaque]
    pub open spec fn wire_payload(m: FileAttributeId) -> Seq<u8> {
        match m {
            FileAttributeId::SupportedAttrs => Seq::<u8>::empty(),
            FileAttributeId::Type => Seq::<u8>::empty(),
            FileAttributeId::FhExpireType => Seq::<u8>::empty(),
            FileAttributeId::Change => Seq::<u8>::empty(),
            FileAttributeId::Size => Seq::<u8>::empty(),
            FileAttributeId::LinkSupport => Seq::<u8>::empty(),
            FileAttributeId::SymlinkSupport => Seq::<u8>::empty(),
            FileAttributeId::NamedAttr => Seq::<u8>::empty(),
            FileAttributeId::FsId => Seq::<u8>::empty(),
            FileAttributeId::UniqueHandles => Seq::<u8>::empty(),
            FileAttributeId::LeaseTime => Seq::<u8>::empty(),
            FileAttributeId::ReadDirAttrError => Seq::<u8>::empty(),
            FileAttributeId::Acl => Seq::<u8>::empty(),
            FileAttributeId::AclSupport => Seq::<u8>::empty(),
            FileAttributeId::Archive => Seq::<u8>::empty(),
            FileAttributeId::CanSetTime => Seq::<u8>::empty(),
            FileAttributeId::CaseInsensitive => Seq::<u8>::empty(),
            FileAttributeId::CasePreserving => Seq::<u8>::empty(),
            FileAttributeId::ChownRestricted => Seq::<u8>::empty(),
            FileAttributeId::FileHandle => Seq::<u8>::empty(),
            FileAttributeId::FileId => Seq::<u8>::empty(),
            FileAttributeId::FilesAvail => Seq::<u8>::empty(),
            FileAttributeId::FilesFree => Seq::<u8>::empty(),
            FileAttributeId::FilesTotal => Seq::<u8>::empty(),
            FileAttributeId::FsLocations => Seq::<u8>::empty(),
            FileAttributeId::Homogeneous => Seq::<u8>::empty(),
            FileAttributeId::MaxFileSize => Seq::<u8>::empty(),
            FileAttributeId::MaxLink => Seq::<u8>::empty(),
            FileAttributeId::MaxName => Seq::<u8>::empty(),
            FileAttributeId::MaxRead => Seq::<u8>::empty(),
            FileAttributeId::MaxWrite => Seq::<u8>::empty(),
            FileAttributeId::MimeType => Seq::<u8>::empty(),
            FileAttributeId::Mode => Seq::<u8>::empty(),
            FileAttributeId::NoTrunc => Seq::<u8>::empty(),
            FileAttributeId::NumLinks => Seq::<u8>::empty(),
            FileAttributeId::Owner => Seq::<u8>::empty(),
            FileAttributeId::OwnerGroup => Seq::<u8>::empty(),
            FileAttributeId::QuotaAvailHard => Seq::<u8>::empty(),
            FileAttributeId::QuotaAvailSoft => Seq::<u8>::empty(),
            FileAttributeId::QuotaUsed => Seq::<u8>::empty(),
            FileAttributeId::RawDev => Seq::<u8>::empty(),
            FileAttributeId::SpaceAvail => Seq::<u8>::empty(),
            FileAttributeId::SpaceFree => Seq::<u8>::empty(),
            FileAttributeId::SpaceTotal => Seq::<u8>::empty(),
            FileAttributeId::SpaceUsed => Seq::<u8>::empty(),
            FileAttributeId::System => Seq::<u8>::empty(),
            FileAttributeId::TimeAccess => Seq::<u8>::empty(),
            FileAttributeId::TimeAccessSet => Seq::<u8>::empty(),
            FileAttributeId::TimeBackup => Seq::<u8>::empty(),
            FileAttributeId::TimeCreate => Seq::<u8>::empty(),
            FileAttributeId::TimeDelta => Seq::<u8>::empty(),
            FileAttributeId::TimeMetadata => Seq::<u8>::empty(),
            FileAttributeId::TimeModify => Seq::<u8>::empty(),
            FileAttributeId::TimeModifySet => Seq::<u8>::empty(),
            FileAttributeId::MountedOnFileid => Seq::<u8>::empty(),
            FileAttributeId::DirNotifDelay => Seq::<u8>::empty(),
            FileAttributeId::DirentNotifDelay => Seq::<u8>::empty(),
            FileAttributeId::Dacl => Seq::<u8>::empty(),
            FileAttributeId::Sacl => Seq::<u8>::empty(),
            FileAttributeId::ChangePolicy => Seq::<u8>::empty(),
            FileAttributeId::FsStatus => Seq::<u8>::empty(),
            FileAttributeId::FsLayoutType => Seq::<u8>::empty(),
            FileAttributeId::LayoutHint => Seq::<u8>::empty(),
            FileAttributeId::LayoutType => Seq::<u8>::empty(),
            FileAttributeId::LayoutBlksize => Seq::<u8>::empty(),
            FileAttributeId::LayoutAlignment => Seq::<u8>::empty(),
            FileAttributeId::FsLocationsInfo => Seq::<u8>::empty(),
            FileAttributeId::MdsThreshold => Seq::<u8>::empty(),
            FileAttributeId::RetentionGet => Seq::<u8>::empty(),
            FileAttributeId::RetentionSet => Seq::<u8>::empty(),
            FileAttributeId::RetentevtGet => Seq::<u8>::empty(),
            FileAttributeId::RetentevtSet => Seq::<u8>::empty(),
            FileAttributeId::RetentionHold => Seq::<u8>::empty(),
            FileAttributeId::ModeSetMasked => Seq::<u8>::empty(),
            FileAttributeId::SupportedAttrsExclusiveCreate => Seq::<u8>::empty(),
            FileAttributeId::FsCharsetCap => Seq::<u8>::empty(),
        }
    }

    /// The value with the discriminant `tag` whose payload is at the front of `s`.
    #[verifier::opaque]
    pub open spec fn parse_payload(
        tag: u32,
        s: Seq<u8>,
    ) -> Result<(FileAttributeId, Seq<u8>), XdrError> {
        if tag == 0 {
            Ok((FileAttributeId::SupportedAttrs, s))
        } else if tag == 1 {
            Ok((FileAttributeId::Type, s))
        } else if tag == 2 {
            Ok((FileAttributeId::FhExpireType, s))
        } else if tag == 3 {
            Ok((FileAttributeId::Change, s))
        } else if tag == 4 {
            Ok((FileAttributeId::Size, s))
        } else if tag == 5 {
            Ok((FileAttributeId::LinkSupport, s))
        } else if tag == 6 {
            Ok((FileAttributeId::SymlinkSupport, s))
        } else if tag == 7 {
            Ok((FileAttributeId::NamedAttr, s))
        } else if tag == 8 {
            Ok((FileAttributeId::FsId, s))
        } else if tag == 9 {
            Ok((FileAttributeId::UniqueHandles, s))
        } else if tag == 10 {
            Ok((FileAttributeId::LeaseTime, s))
        } else if tag == 11 {
            Ok((FileAttributeId::ReadDirAttrError, s))
        } else if tag == 12 {
            Ok((FileAttributeId::Acl, s))
        } else if tag == 13 {
            Ok((FileAttributeId::AclSupport, s))
        } else if tag == 14 {
            Ok((FileAttributeId::Archive, s))
        } else if tag == 15 {
            Ok((FileAttributeId::CanSetTime, s))
        } else if tag == 16 {
            Ok((FileAttributeId::CaseInsensitive, s))
        } else if tag == 17 {
            Ok((FileAttributeId::CasePreserving, s))
        } else if tag == 18 {
            Ok((FileAttributeId::ChownRestricted, s))
        } else if tag == 19 {
            Ok((FileAttributeId::FileHandle, s))
        } else if tag == 20 {
            Ok((FileAttributeId::FileId, s))
        } else if tag == 21 {
            Ok((FileAttributeId::FilesAvail, s))
        } else if tag == 22 {
            Ok((FileAttributeId::FilesFree, s))
        } else if tag == 23 {
            Ok((FileAttributeId::FilesTotal, s))
        } else if tag == 24 {
            Ok((FileAttributeId::FsLocations, s))
        } else if tag == 26 {
            Ok((FileAttributeId::Homogeneous, s))
        } else if tag == 27 {
            Ok((FileAttributeId::MaxFileSize, s))
        } else if tag == 28 {
            Ok((FileAttributeId::MaxLink, s))
        } else if tag == 29 {
            Ok((FileAttributeId::MaxName, s))
        } else if tag == 30 {
            Ok((FileAttributeId::MaxRead, s))
        } else if tag == 31 {
            Ok((FileAttributeId::MaxWrite, s))
        } else if tag == 32 {
            Ok((FileAttributeId::MimeType, s))
        } else if tag == 33 {
            Ok((FileAttributeId::Mode, s))
        } else if tag == 34 {
            Ok((FileAttributeId::NoTrunc, s))
        } else if tag == 35 {
            Ok((FileAttributeId::NumLinks, s))
        } else if tag == 36 {
            Ok((FileAttributeId::Owner, s))
        } else if tag == 37 {
            Ok((FileAttributeId::OwnerGroup, s))
        } else if tag == 38 {
            Ok((FileAttributeId::QuotaAvailHard, s))
        } else if tag == 39 {
            Ok((FileAttributeId::QuotaAvailSoft, s))
        } else if tag == 40 {
            Ok((FileAttributeId::QuotaUsed, s))
        } else if tag == 41 {
            Ok((FileAttributeId::RawDev, s))
        } else if tag == 42 {
            Ok((FileAttributeId::SpaceAvail, s))
        } else if tag == 43 {
            Ok((FileAttributeId::SpaceFree, s))
        } else if tag == 44 {
            Ok((FileAttributeId::SpaceTotal, s))
        } else if tag == 45 {
            Ok((FileAttributeId::SpaceUsed, s))
        } else if tag == 46 {
            Ok((FileAttributeId::System, s))
        } else if tag == 47 {
            Ok((FileAttributeId::TimeAccess, s))
        } else if tag == 48 {
            Ok((FileAttributeId::TimeAccessSet, s))
        } else if tag == 49 {
            Ok((FileAttributeId::TimeBackup, s))
        } else if tag == 50 {
            Ok((FileAttributeId::TimeCreate, s))
        } else if tag == 51 {
            Ok((FileAttributeId::TimeDelta, s))
        } else if tag == 52 {
            Ok((FileAttributeId::TimeMetadata, s))
        } else if tag == 53 {
            Ok((FileAttributeId::TimeModify, s))
        } else if tag == 54 {
            Ok((FileAttributeId::TimeModifySet, s))
        } else if tag == 55 {
            Ok((FileAttributeId::MountedOnFileid, s))
        } else if tag == 56 {
            Ok((FileAttributeId::DirNotifDelay, s))
        } else if tag == 57 {
            Ok((FileAttributeId::DirentNotifDelay, s))
        } else if tag == 58 {
            Ok((FileAttributeId::Dacl, s))
        } else if tag == 59 {
            Ok((FileAttributeId::Sacl, s))
        } else if tag == 60 {
            Ok((FileAttributeId::ChangePolicy, s))
        } else if tag == 61 {
            Ok((FileAttributeId::FsStatus, s))
        } else if tag == 62 {
            Ok((FileAttributeId::FsLayoutType, s))
        } else if tag == 63 {
            Ok((FileAttributeId::LayoutHint, s))
        } else if tag == 64 {
            Ok((FileAttributeId::LayoutType, s))
        } else if tag == 65 {
            Ok((FileAttributeId::LayoutBlksize, s))
        } else if tag == 66 {
            Ok((FileAttributeId::LayoutAlignment, s))
        } else if tag == 67 {
            Ok((FileAttributeId::FsLocationsInfo, s))
        } else if tag == 68 {
            Ok((FileAttributeId::MdsThreshold, s))
        } else if tag == 69 {
            Ok((FileAttributeId::RetentionGet, s))
        } else if tag == 70 {
            Ok((FileAttributeId::RetentionSet, s))
        } else if tag == 71 {
            Ok((FileAttributeId::RetentevtGet, s))
        } else if tag == 72 {
            Ok((FileAttributeId::RetentevtSet, s))
        } else if tag == 73 {
            Ok((FileAttributeId::RetentionHold, s))
        } else if tag == 74 {
            Ok((FileAttributeId::ModeSetMasked, s))
        } else if tag == 75 {
            Ok((FileAttributeId::SupportedAttrsExclusiveCreate, s))
        } else if tag == 76 {
            Ok((FileAttributeId::FsCharsetCap, s))
        } else {
            Err(XdrError::BadDiscriminant("FileAttributeId", tag))
        }
    }

    pub proof fn lemma_payload_round_trip(m: FileAttributeId, rest: Seq<u8>)
        requires
            <FileAttributeId as Xdr>::wf(m),
        ensures
            Self::parse_payload(Self::tag(m), Self::wire_payload(m) + rest)
                == Ok::<(FileAttributeId, Seq<u8>), XdrError>((m, rest)),
    {
        reveal(FileAttributeId::wire_payload);
        reveal(FileAttributeId::parse_payload);
        match m {
            FileAttributeId::SupportedAttrs => {
                assert(Seq::<u8>::empty() + rest =~= rest);
            },
            FileAttributeId::Type => {
                assert(Seq::<u8>::empty() + rest =~= rest);
            },
            FileAttributeId::FhExpireType => {
                assert(Seq::<u8>::empty() + rest =~= rest);
            },
            FileAttributeId::Change => {
                assert(Seq::<u8>::empty() + rest =~= rest);
            },
            FileAttributeId::Size => {
                assert(Seq::<u8>::empty() + rest =~= rest);
            },
            FileAttributeId::LinkSupport => {
                assert(Seq::<u8>::empty() + rest =~= rest);
            },
            FileAttributeId::SymlinkSupport => {
                assert(Seq::<u8>::empty() + rest =~= rest);
            },
            FileAttributeId::NamedAttr => {
                assert(Seq::<u8>::empty() + rest =~= rest);
            },
            FileAttributeId::FsId => {
                assert(Seq::<u8>::empty() + rest =~= rest);
            },
            FileAttributeId::UniqueHandles => {
                assert(Seq::<u8>::empty() + rest =~= rest);
            },
            FileAttributeId::LeaseTime => {
                assert(Seq::<u8>::empty() + rest =~= rest);
            },
            FileAttributeId::ReadDirAttrError => {
                assert(Seq::<u8>::empty() + rest =~= rest);
            },
            FileAttributeId::Acl => {
                assert(Seq::<u8>::empty() + rest =~= rest);
            },
            FileAttributeId::AclSupport => {
                assert(Seq::<u8>::empty() + rest =~= rest);
            },
            FileAttributeId::Archive => {
                assert(Seq::<u8>::empty() + rest =~= rest);
            },
            FileAttributeId::CanSetTime => {
                assert(Seq::<u8>::empty() + rest =~= rest);
            },
            FileAttributeId::CaseInsensitive => {
                assert(Seq::<u8>::empty() + rest =~= rest);
            },
            FileAttributeId::CasePreserving => {
                assert(Seq::<u8>::empty() + rest =~= rest);
            },
            FileAttributeId::ChownRestricted => {
                assert(Seq::<u8>::empty() + rest =~= rest);
            },
            FileAttributeId::FileHandle => {
                assert(Seq::<u8>::empty() + rest =~= rest);
            },
            FileAttributeId::FileId => {
                assert(Seq::<u8>::empty() + rest =~= rest);
            },
            FileAttributeId::FilesAvail => {
                assert(Seq::<u8>::empty() + rest =~= rest);
            },
            FileAttributeId::FilesFree => {
                assert(Seq::<u8>::empty() + rest =~= rest);
            },
            FileAttributeId::FilesTotal => {
                assert(Seq::<u8>::empty() + rest =~= rest);
            },
            FileAttributeId::FsLocations => {
                assert(Seq::<u8>::empty() + rest =~= rest);
            },
            FileAttributeId::Homogeneous => {
                assert(Seq::<u8>::empty() + rest =~= rest);
            },
            FileAttributeId::MaxFileSize => {
                assert(Seq::<u8>::empty() + rest =~= rest);
            },
            FileAttributeId::MaxLink => {
                assert(Seq::<u8>::empty() + rest =~= rest);
            },
            FileAttributeId::MaxName => {
                assert(Seq::<u8>::empty() + rest =~= rest);
            },
            FileAttributeId::MaxRead => {
                assert(Seq::<u8>::empty() + rest =~= rest);
            },
            FileAttributeId::MaxWrite => {
                assert(Seq::<u8>::empty() + rest =~= rest);
            },
            FileAttributeId::MimeType => {
                assert(Seq::<u8>::empty() + rest =~= rest);
            },
            FileAttributeId::Mode => {
                assert(Seq::<u8>::empty() + rest =~= rest);
            },
            FileAttributeId::NoTrunc => {
                assert(Seq::<u8>::empty() + rest =~= rest);
            },
            FileAttributeId::NumLinks => {
                assert(Seq::<u8>::empty() + rest =~= rest);
            },
            FileAttributeId::Owner => {
                assert(Seq::<u8>::empty() + rest =~= rest);
            },
            FileAttributeId::OwnerGroup => {
                assert(Seq::<u8>::empty() + rest =~= rest);
            },
            FileAttributeId::QuotaAvailHard => {
                assert(Seq::<u8>::empty() + rest =~= rest);
            },
            FileAttributeId::QuotaAvailSoft => {
                assert(Seq::<u8>::empty() + rest =~= rest);
            },
            FileAttributeId::QuotaUsed => {
                assert(Seq::<u8>::empty() + rest =~= rest);
            },
            FileAttributeId::RawDev => {
                assert(Seq::<u8>::empty() + rest =~= rest);
            },
            FileAttributeId::SpaceAvail => {
                assert(Seq::<u8>::empty() + rest =~= rest);
            },
            FileAttributeId::SpaceFree => {
                assert(Seq::<u8>::empty() + rest =~= rest);
            },
            FileAttributeId::SpaceTotal => {
                assert(Seq::<u8>::empty() + rest =~= rest);
            },
            FileAttributeId::SpaceUsed => {
                assert(Seq::<u8>::empty() + rest =~= rest);
            },
            FileAttributeId::System => {
                assert(Seq::<u8>::empty() + rest =~= rest);
            },
            FileAttributeId::TimeAccess => {
                assert(Seq::<u8>::empty() + rest =~= rest);
            },
            FileAttributeId::TimeAccessSet => {
                assert(Seq::<u8>::empty() + rest =~= rest);
            },
            FileAttributeId::TimeBackup => {
                assert(Seq::<u8>::empty() + rest =~= rest);
            },
            FileAttributeId::TimeCreate => {
                assert(Seq::<u8>::empty() + rest =~= rest);
            },
            FileAttributeId::TimeDelta => {
                assert(Seq::<u8>::empty() + rest =~= rest);
            },
            FileAttributeId::TimeMetadata => {
                assert(Seq::<u8>::empty() + rest =~= rest);
            },
            FileAttributeId::TimeModify => {
                assert(Seq::<u8>::empty() + rest =~= rest);
            },
            FileAttributeId::TimeModifySet => {
                assert(Seq::<u8>::empty() + rest =~= rest);
            },
            FileAttributeId::MountedOnFileid => {
                assert(Seq::<u8>::empty() + rest =~= rest);
            },
            FileAttributeId::DirNotifDelay => {
                assert(Seq::<u8>::empty() + rest =~= rest);
            },
            FileAttributeId::DirentNotifDelay => {
                assert(Seq::<u8>::empty() + rest =~= rest);
            },
            FileAttributeId::Dacl => {
                assert(Seq::<u8>::empty() + rest =~= rest);
            },
            FileAttributeId::Sacl => {
                assert(Seq::<u8>::empty() + rest =~= rest);
            },
            FileAttributeId::ChangePolicy => {
                assert(Seq::<u8>::empty() + rest =~= rest);
            },
            FileAttributeId::FsStatus => {
                assert(Seq::<u8>::empty() + rest =~= rest);
            },
            FileAttributeId::FsLayoutType => {
                assert(Seq::<u8>::empty() + rest =~= rest);
            },
            FileAttributeId::LayoutHint => {
                assert(Seq::<u8>::empty() + rest =~= rest);
            },
            FileAttributeId::LayoutType => {
                assert(Seq::<u8>::empty() + rest =~= rest);
            },
            FileAttributeId::LayoutBlksize => {
                assert(Seq::<u8>::empty() + rest =~= rest);
            },
            FileAttributeId::LayoutAlignment => {
                assert(Seq::<u8>::empty() + rest =~= rest);
            },
            FileAttributeId::FsLocationsInfo => {
                assert(Seq::<u8>::empty() + rest =~= rest);
            },
            FileAttributeId::MdsThreshold => {
                assert(Seq::<u8>::empty() + rest =~= rest);
            },
            FileAttributeId::RetentionGet => {
                assert(Seq::<u8>::empty() + rest =~= rest);
            },
            FileAttributeId::RetentionSet => {
                assert(Seq::<u8>::empty() + rest =~= rest);
            },
            FileAttributeId::RetentevtGet => {
                assert(Seq::<u8>::empty() + rest =~= rest);
            },
            FileAttributeId::RetentevtSet => {
                assert(Seq::<u8>::empty() + rest =~= rest);
            },
            FileAttributeId::RetentionHold => {
                assert(Seq::<u8>::empty() + rest =~= rest);
            },
            FileAttributeId::ModeSetMasked => {
                assert(Seq::<u8>::empty() + rest =~= rest);
            },
            FileAttributeId::SupportedAttrsExclusiveCreate => {
                assert(Seq::<u8>::empty() + rest =~= rest);
            },
            FileAttributeId::FsCharsetCap => {
                assert(Seq::<u8>::empty() + rest =~= rest);
            },
        }
    }

    /// The encoding of a value begins with its discriminant, big-endian.
    pub proof fn lemma_wire_leads_with_tag(m: FileAttributeId)
        ensures
            <FileAttributeId as Xdr>::wire(m).len() >= 4,
            <FileAttributeId as Xdr>::wire(m).take(4) == wire_u32(Self::tag(m)),
    {
        reveal(<FileAttributeId as Xdr>::wire);
        reveal(wire_u32);
        assert((wire_u32(Self::tag(m)) + Self::wire_payload(m)).take(4) =~= wire_u32(Self::tag(m)));
    }

    /// The discriminant of a value.
    pub fn tag_of(&self) -> (t: u32)
        ensures
            t == Self::tag(self.model()),
    {
        match self {
            FileAttributeId::SupportedAttrs => 0,
            FileAttributeId::Type => 1,
            FileAttributeId::FhExpireType => 2,
            FileAttributeId::Change => 3,
            FileAttributeId::Size => 4,
            FileAttributeId::LinkSupport => 5,
            FileAttributeId::SymlinkSupport => 6,
            FileAttributeId::NamedAttr => 7,
            FileAttributeId::FsId => 8,
            FileAttributeId::UniqueHandles => 9,
            FileAttributeId::LeaseTime => 10,
            FileAttributeId::ReadDirAttrError => 11,
            FileAttributeId::Acl => 12,
            FileAttributeId::AclSupport => 13,
            FileAttributeId::Archive => 14,
            FileAttributeId::CanSetTime => 15,
            FileAttributeId::CaseInsensitive => 16,
            FileAttributeId::CasePreserving => 17,
            FileAttributeId::ChownRestricted => 18,
            FileAttributeId::FileHandle => 19,
            FileAttributeId::FileId => 20,
            FileAttributeId::FilesAvail => 21,
            FileAttributeId::FilesFree => 22,
            FileAttributeId::FilesTotal => 23,
            FileAttributeId::FsLocations => 24,
            FileAttributeId::Homogeneous => 26,
            FileAttributeId::MaxFileSize => 27,
            FileAttributeId::MaxLink => 28,
            FileAttributeId::MaxName => 29,
            FileAttributeId::MaxRead => 30,
            FileAttributeId::MaxWrite => 31,
            FileAttributeId::MimeType => 32,
            FileAttributeId::Mode => 33,
            FileAttributeId::NoTrunc => 34,
            FileAttributeId::NumLinks => 35,
            FileAttributeId::Owner => 36,
            FileAttributeId::OwnerGroup => 37,
            FileAttributeId::QuotaAvailHard => 38,
            FileAttributeId::QuotaAvailSoft => 39,
            FileAttributeId::QuotaUsed => 40,
            FileAttributeId::RawDev => 41,
            FileAttributeId::SpaceAvail => 42,
            FileAttributeId::SpaceFree => 43,
            FileAttributeId::SpaceTotal => 44,
            FileAttributeId::SpaceUsed => 45,
            FileAttributeId::System => 46,
            FileAttributeId::TimeAccess => 47,
            FileAttributeId::TimeAccessSet => 48,
            FileAttributeId::TimeBackup => 49,
            FileAttributeId::TimeCreate => 50,
            FileAttributeId::TimeDelta => 51,
            FileAttributeId::TimeMetadata => 52,
            FileAttributeId::TimeModify => 53,
            FileAttributeId::TimeModifySet => 54,
            FileAttributeId::MountedOnFileid => 55,
            FileAttributeId::DirNotifDelay => 56,
            FileAttributeId::DirentNotifDelay => 57,
            FileAttributeId::Dacl => 58,
            FileAttributeId::Sacl => 59,
            FileAttributeId::ChangePolicy => 60,
            FileAttributeId::FsStatus => 61,
            FileAttributeId::FsLayoutType => 62,
            FileAttributeId::LayoutHint => 63,
            FileAttributeId::LayoutType => 64,
            FileAttributeId::LayoutBlksize => 65,
            FileAttributeId::LayoutAlignment => 66,
            FileAttributeId::FsLocationsInfo => 67,
            FileAttributeId::MdsThreshold => 68,
            FileAttributeId::RetentionGet => 69,
            FileAttributeId::RetentionSet => 70,
            FileAttributeId::RetentevtGet => 71,
            FileAttributeId::RetentevtSet => 72,
            FileAttributeId::RetentionHold => 73,
            FileAttributeId::ModeSetMasked => 74,
            FileAttributeId::SupportedAttrsExclusiveCreate => 75,
            FileAttributeId::FsCharsetCap => 76,
        }
    }

    /// Appends what follows the discriminant in the encoding of `self`.
    pub fn encode_payload(&self, out: &mut Vec<u8>) -> (r: Result<(), EncodeError>)
        ensures
            r is Ok <==> <FileAttributeId as Xdr>::wf(self.model()),
            r is Ok ==> final(out)@ == old(out)@ + Self::wire_payload(self.model()),
    {
        proof {
            reveal(FileAttributeId::wire_payload);
        }
        match self {
            FileAttributeId::SupportedAttrs => {
                assert(out@ =~= old(out)@ + Seq::<u8>::empty());
            },
            FileAttributeId::Type => {
                assert(out@ =~= old(out)@ + Seq::<u8>::empty());
            },
            FileAttributeId::FhExpireType => {
                assert(out@ =~= old(out)@ + Seq::<u8>::empty());
            },
            FileAttributeId::Change => {
                assert(out@ =~= old(out)@ + Seq::<u8>::empty());
            },
            FileAttributeId::Size => {
                assert(out@ =~= old(out)@ + Seq::<u8>::empty());
            },
            FileAttributeId::LinkSupport => {
                assert(out@ =~= old(out)@ + Seq::<u8>::empty());
            },
            FileAttributeId::SymlinkSupport => {
                assert(out@ =~= old(out)@ + Seq::<u8>::empty());
            },
            FileAttributeId::NamedAttr => {
                assert(out@ =~= old(out)@ + Seq::<u8>::empty());
            },
            FileAttributeId::FsId => {
                assert(out@ =~= old(out)@ + Seq::<u8>::empty());
            },
            FileAttributeId::UniqueHandles => {
                assert(out@ =~= old(out)@ + Seq::<u8>::empty());
            },
            FileAttributeId::LeaseTime => {
                assert(out@ =~= old(out)@ + Seq::<u8>::empty());
            },
            FileAttributeId::ReadDirAttrError => {
                assert(out@ =~= old(out)@ + Seq::<u8>::empty());
            },
            FileAttributeId::Acl => {
                assert(out@ =~= old(out)@ + Seq::<u8>::empty());
            },
            FileAttributeId::AclSupport => {
                assert(out@ =~= old(out)@ + Seq::<u8>::empty());
            },
            FileAttributeId::Archive => {
                assert(out@ =~= old(out)@ + Seq::<u8>::empty());
            },
            FileAttributeId::CanSetTime => {
                assert(out@ =~= old(out)@ + Seq::<u8>::empty());
            },
            FileAttributeId::CaseInsensitive => {
                assert(out@ =~= old(out)@ + Seq::<u8>::empty());
            },
            FileAttributeId::CasePreserving => {
                assert(out@ =~= old(out)@ + Seq::<u8>::empty());
            },
            FileAttributeId::ChownRestricted => {
                assert(out@ =~= old(out)@ + Seq::<u8>::empty());
            },
            FileAttributeId::FileHandle => {
                assert(out@ =~= old(out)@ + Seq::<u8>::empty());
            },
            FileAttributeId::FileId => {
                assert(out@ =~= old(out)@ + Seq::<u8>::empty());
            },
            FileAttributeId::FilesAvail => {
                assert(out@ =~= old(out)@ + Seq::<u8>::empty());
            },
            FileAttributeId::FilesFree => {
                assert(out@ =~= old(out)@ + Seq::<u8>::empty());
            },
            FileAttributeId::FilesTotal => {
                assert(out@ =~= old(out)@ + Seq::<u8>::empty());
            },
            FileAttributeId::FsLocations => {
                assert(out@ =~= old(out)@ + Seq::<u8>::empty());
            },
            FileAttributeId::Homogeneous => {
                assert(out@ =~= old(out)@ + Seq::<u8>::empty());
            },
            FileAttributeId::MaxFileSize => {
                assert(out@ =~= old(out)@ + Seq::<u8>::empty());
            },
            FileAttributeId::MaxLink => {
                assert(out@ =~= old(out)@ + Seq::<u8>::empty());
            },
            FileAttributeId::MaxName => {
                assert(out@ =~= old(out)@ + Seq::<u8>::empty());
            },
            FileAttributeId::MaxRead => {
                assert(out@ =~= old(out)@ + Seq::<u8>::empty());
            },
            FileAttributeId::MaxWrite => {
                assert(out@ =~= old(out)@ + Seq::<u8>::empty());
            },
            FileAttributeId::MimeType => {
                assert(out@ =~= old(out)@ + Seq::<u8>::empty());
            },
            FileAttributeId::Mode => {
                assert(out@ =~= old(out)@ + Seq::<u8>::empty());
            },
            FileAttributeId::NoTrunc => {
                assert(out@ =~= old(out)@ + Seq::<u8>::empty());
            },
            FileAttributeId::NumLinks => {
                assert(out@ =~= old(out)@ + Seq::<u8>::empty());
            },
            FileAttributeId::Owner => {
                assert(out@ =~= old(out)@ + Seq::<u8>::empty());
            },
            FileAttributeId::OwnerGroup => {
                assert(out@ =~= old(out)@ + Seq::<u8>::empty());
            },
            FileAttributeId::QuotaAvailHard => {
                assert(out@ =~= old(out)@ + Seq::<u8>::empty());
            },
            FileAttributeId::QuotaAvailSoft => {
                assert(out@ =~= old(out)@ + Seq::<u8>::empty());
            },
            FileAttributeId::QuotaUsed => {
                assert(out@ =~= old(out)@ + Seq::<u8>::empty());
            },
            FileAttributeId::RawDev => {
                assert(out@ =~= old(out)@ + Seq::<u8>::empty());
            },
            FileAttributeId::SpaceAvail => {
                assert(out@ =~= old(out)@ + Seq::<u8>::empty());
            },
            FileAttributeId::SpaceFree => {
                assert(out@ =~= old(out)@ + Seq::<u8>::empty());
            },
            FileAttributeId::SpaceTotal => {
                assert(out@ =~= old(out)@ + Seq::<u8>::empty());
            },
            FileAttributeId::SpaceUsed => {
                assert(out@ =~= old(out)@ + Seq::<u8>::empty());
            },
            FileAttributeId::System => {
                assert(out@ =~= old(out)@ + Seq::<u8>::empty());
            },
            FileAttributeId::TimeAccess => {
                assert(out@ =~= old(out)@ + Seq::<u8>::empty());
            },
            FileAttributeId::TimeAccessSet => {
                assert(out@ =~= old(out)@ + Seq::<u8>::empty());
            },
            FileAttributeId::TimeBackup => {
                assert(out@ =~= old(out)@ + Seq::<u8>::empty());
            },
            FileAttributeId::TimeCreate => {
                assert(out@ =~= old(out)@ + Seq::<u8>::empty());
            },
            FileAttributeId::TimeDelta => {
                assert(out@ =~= old(out)@ + Seq::<u8>::empty());
            },
            FileAttributeId::TimeMetadata => {
                assert(out@ =~= old(out)@ + Seq::<u8>::empty());
            },
            FileAttributeId::TimeModify => {
                assert(out@ =~= old(out)@ + Seq::<u8>::empty());
            },
            FileAttributeId::TimeModifySet => {
                assert(out@ =~= old(out)@ + Seq::<u8>::empty());
            },
            FileAttributeId::MountedOnFileid => {
                assert(out@ =~= old(out)@ + Seq::<u8>::empty());
            },
            FileAttributeId::DirNotifDelay => {
                assert(out@ =~= old(out)@ + Seq::<u8>::empty());
            },
            FileAttributeId::DirentNotifDelay => {
                assert(out@ =~= old(out)@ + Seq::<u8>::empty());
            },
            FileAttributeId::Dacl => {
                assert(out@ =~= old(out)@ + Seq::<u8>::empty());
            },
            FileAttributeId::Sacl => {
                assert(out@ =~= old(out)@ + Seq::<u8>::empty());
            },
            FileAttributeId::ChangePolicy => {
                assert(out@ =~= old(out)@ + Seq::<u8>::empty());
            },
            FileAttributeId::FsStatus => {
                assert(out@ =~= old(out)@ + Seq::<u8>::empty());
            },
            FileAttributeId::FsLayoutType => {
                assert(out@ =~= old(out)@ + Seq::<u8>::empty());
            },
            FileAttributeId::LayoutHint => {
                assert(out@ =~= old(out)@ + Seq::<u8>::empty());
            },
            FileAttributeId::LayoutType => {
                assert(out@ =~= old(out)@ + Seq::<u8>::empty());
            },
            FileAttributeId::LayoutBlksize => {
                assert(out@ =~= old(out)@ + Seq::<u8>::empty());
            },
            FileAttributeId::LayoutAlignment => {
                assert(out@ =~= old(out)@ + Seq::<u8>::empty());
            },
            FileAttributeId::FsLocationsInfo => {
                assert(out@ =~= old(out)@ + Seq::<u8>::empty());
            },
            FileAttributeId::MdsThreshold => {
                assert(out@ =~= old(out)@ + Seq::<u8>::empty());
            },
            FileAttributeId::RetentionGet => {
                assert(out@ =~= old(out)@ + Seq::<u8>::empty());
            },
            FileAttributeId::RetentionSet => {
                assert(out@ =~= old(out)@ + Seq::<u8>::empty());
            },
            FileAttributeId::RetentevtGet => {
                assert(out@ =~= old(out)@ + Seq::<u8>::empty());
            },
            FileAttributeId::RetentevtSet => {
                assert(out@ =~= old(out)@ + Seq::<u8>::empty());
            },
            FileAttributeId::RetentionHold => {
                assert(out@ =~= old(out)@ + Seq::<u8>::empty());
            },
            FileAttributeId::ModeSetMasked => {
                assert(out@ =~= old(out)@ + Seq::<u8>::empty());
            },
            FileAttributeId::SupportedAttrsExclusiveCreate => {
                assert(out@ =~= old(out)@ + Seq::<u8>::empty());
            },
            FileAttributeId::FsCharsetCap => {
                assert(out@ =~= old(out)@ + Seq::<u8>::empty());
            },
        }
        Ok(())
    }

    /// Decodes the payload of the value with the discriminant `tag`.
    pub fn decode_payload<'a>(
        tag: u32,
        input: &'a [u8],
    ) -> (r: Result<(FileAttributeId, &'a [u8]), XdrError>)
        ensures
            match r {
                Ok((v, rest)) => {
                    Self::parse_payload(tag, input@)
                        == Ok::<(FileAttributeId, Seq<u8>), XdrError>((v.model(), rest@))
                },
                Err(e) => {
                    Self::parse_payload(tag, input@)
                        == Err::<(FileAttributeId, Seq<u8>), XdrError>(e)
                },
            },
    {
        proof {
            reveal(FileAttributeId::parse_payload);
        }
        if tag == 0 {
            Ok((FileAttributeId::SupportedAttrs, input))
        } else if tag == 1 {
            Ok((FileAttributeId::Type, input))
        } else if tag == 2 {
            Ok((FileAttributeId::FhExpireType, input))
        } else if tag == 3 {
            Ok((FileAttributeId::Change, input))
        } else if tag == 4 {
            Ok((FileAttributeId::Size, input))
        } else if tag == 5 {
            Ok((FileAttributeId::LinkSupport, input))
        } else if tag == 6 {
            Ok((FileAttributeId::SymlinkSupport, input))
        } else if tag == 7 {
            Ok((FileAttributeId::NamedAttr, input))
        } else if tag == 8 {
            Ok((FileAttributeId::FsId, input))
        } else if tag == 9 {
            Ok((FileAttributeId::UniqueHandles, input))
        } else if tag == 10 {
            Ok((FileAttributeId::LeaseTime, input))
        } else if tag == 11 {
            Ok((FileAttributeId::ReadDirAttrError, input))
        } else if tag == 12 {
            Ok((FileAttributeId::Acl, input))
        } else if tag == 13 {
            Ok((FileAttributeId::AclSupport, input))
        } else if tag == 14 {
            Ok((FileAttributeId::Archive, input))
        } else if tag == 15 {
            Ok((FileAttributeId::CanSetTime, input))
        } else if tag == 16 {
            Ok((FileAttributeId::CaseInsensitive, input))
        } else if tag == 17 {
            Ok((FileAttributeId::CasePreserving, input))
        } else if tag == 18 {
            Ok((FileAttributeId::ChownRestricted, input))
        } else if tag == 19 {
            Ok((FileAttributeId::FileHandle, input))
        } else if tag == 20 {
            Ok((FileAttributeId::FileId, input))
        } else if tag == 21 {
            Ok((FileAttributeId::FilesAvail, input))
        } else if tag == 22 {
            Ok((FileAttributeId::FilesFree, input))
        } else if tag == 23 {
            Ok((FileAttributeId::FilesTotal, input))
        } else if tag == 24 {
            Ok((FileAttributeId::FsLocations, input))
        } else if tag == 26 {
            Ok((FileAttributeId::Homogeneous, input))
        } else if tag == 27 {
            Ok((FileAttributeId::MaxFileSize, input))
        } else if tag == 28 {
            Ok((FileAttributeId::MaxLink, input))
        } else if tag == 29 {
            Ok((FileAttributeId::MaxName, input))
        } else if tag == 30 {
            Ok((FileAttributeId::MaxRead, input))
        } else if tag == 31 {
            Ok((FileAttributeId::MaxWrite, input))
        } else if tag == 32 {
            Ok((FileAttributeId::MimeType, input))
        } else if tag == 33 {
            Ok((FileAttributeId::Mode, input))
        } else if tag == 34 {
            Ok((FileAttributeId::NoTrunc, input))
        } else if tag == 35 {
            Ok((FileAttributeId::NumLinks, input))
        } else if tag == 36 {
            Ok((FileAttributeId::Owner, input))
        } else if tag == 37 {
            Ok((FileAttributeId::OwnerGroup, input))
        } else if tag == 38 {
            Ok((FileAttributeId::QuotaAvailHard, input))
        } else if tag == 39 {
            Ok((FileAttributeId::QuotaAvailSoft, input))
        } else if tag == 40 {
            Ok((FileAttributeId::QuotaUsed, input))
        } else if tag == 41 {
            Ok((FileAttributeId::RawDev, input))
        } else if tag == 42 {
            Ok((FileAttributeId::SpaceAvail, input))
        } else if tag == 43 {
            Ok((FileAttributeId::SpaceFree, input))
        } else if tag == 44 {
            Ok((FileAttributeId::SpaceTotal, input))
        } else if tag == 45 {
            Ok((FileAttributeId::SpaceUsed, input))
        } else if tag == 46 {
            Ok((FileAttributeId::System, input))
        } else if tag == 47 {
            Ok((FileAttributeId::TimeAccess, input))
        } else if tag == 48 {
            Ok((FileAttributeId::TimeAccessSet, input))
        } else if tag == 49 {
            Ok((FileAttributeId::TimeBackup, input))
        } else if tag == 50 {
            Ok((FileAttributeId::TimeCreate, input))
        } else if tag == 51 {
            Ok((FileAttributeId::TimeDelta, input))
        } else if tag == 52 {
            Ok((FileAttributeId::TimeMetadata, input))
        } else if tag == 53 {
            Ok((FileAttributeId::TimeModify, input))
        } else if tag == 54 {
            Ok((FileAttributeId::TimeModifySet, input))
        } else if tag == 55 {
            Ok((FileAttributeId::MountedOnFileid, input))
        } else if tag == 56 {
            Ok((FileAttributeId::DirNotifDelay, input))
        } else if tag == 57 {
            Ok((FileAttributeId::DirentNotifDelay, input))
        } else if tag == 58 {
            Ok((FileAttributeId::Dacl, input))
        } else if tag == 59 {
            Ok((FileAttributeId::Sacl, input))
        } else if tag == 60 {
            Ok((FileAttributeId::ChangePolicy, input))
        } else if tag == 61 {
            Ok((FileAttributeId::FsStatus, input))
        } else if tag == 62 {
            Ok((FileAttributeId::FsLayoutType, input))
        } else if tag == 63 {
            Ok((FileAttributeId::LayoutHint, input))
        } else if tag == 64 {
            Ok((FileAttributeId::LayoutType, input))
        } else if tag == 65 {
            Ok((FileAttributeId::LayoutBlksize, input))
        } else if tag == 66 {
            Ok((FileAttributeId::LayoutAlignment, input))
        } else if tag == 67 {
            Ok((FileAttributeId::FsLocationsInfo, input))
        } else if tag == 68 {
            Ok((FileAttributeId::MdsThreshold, input))
        } else if tag == 69 {
            Ok((FileAttributeId::RetentionGet, input))
        } else if tag == 70 {
            Ok((FileAttributeId::RetentionSet, input))
        } else if tag == 71 {
            Ok((FileAttributeId::RetentevtGet, input))
        } else if tag == 72 {
            Ok((FileAttributeId::RetentevtSet, input))
        } else if tag == 73 {
            Ok((FileAttributeId::RetentionHold, input))
        } else if tag == 74 {
            Ok((FileAttributeId::ModeSetMasked, input))
        } else if tag == 75 {
            Ok((FileAttributeId::SupportedAttrsExclusiveCreate, input))
        } else if tag == 76 {
            Ok((FileAttributeId::FsCharsetCap, input))
        } else {
            Err(XdrError::BadDiscriminant("FileAttributeId", tag))
        }
    }
}

impl Xdr for FileAttributeId {
    type Model = FileAttributeId;

    open spec fn model(&self) -> FileAttributeId {
        *self
    }

    open spec fn wf(m: FileAttributeId) -> bool {
        true
    }

    #[verifier::opaque]
    open spec fn wire(m: FileAttributeId) -> Seq<u8> {
        wire_u32(Self::tag(m)) + Self::wire_payload(m)
    }

    #[verifier::opaque]
    open spec fn parse(s: Seq<u8>) -> Result<(FileAttributeId, Seq<u8>), XdrError> {
        match parse_u32(s) {
            Ok((tag, r)) => Self::parse_payload(tag, r),
            Err(e) => Err(e),
        }
    }

    proof fn lemma_round_trip(m: FileAttributeId, rest: Seq<u8>) {
        reveal(<FileAttributeId as Xdr>::wire);
        reveal(<FileAttributeId as Xdr>::parse);
        lemma_concat_assoc(wire_u32(Self::tag(m)), Self::wire_payload(m), rest);
        lemma_u32_round_trip(Self::tag(m), Self::wire_payload(m) + rest);
        Self::lemma_payload_round_trip(m, rest);
    }

    fn encode(&self, out: &mut Vec<u8>) -> (r: Result<(), EncodeError>) {
        proof {
            reveal(<FileAttributeId as Xdr>::wire);
        }
        let tag = self.tag_of();
        let _ = tag.encode(out);
        self.encode_payload(out)?;
        proof {
            lemma_concat_assoc(old(out)@, wire_u32(tag), Self::wire_payload(self.model()));
        }
        Ok(())
    }

    fn decode<'a>(input: &'a [u8]) -> (r: Result<(FileAttributeId, &'a [u8]), XdrError>) {
        proof {
            reveal(<FileAttributeId as Xdr>::parse);
        }
        let (tag, cur) = u32::decode(input)?;
        Self::decode_payload(tag, cur)
    }
}

impl EnumId for FileAttributeId {
    open spec fn id(self) -> u32 {
        Self::tag(self)
    }

    open spec fn from_id(id: u32) -> Option<Self> {
        if id == 0 {
            Some(FileAttributeId::SupportedAttrs)
        } else if id == 1 {
            Some(FileAttributeId::Type)
        } else if id == 2 {
            Some(FileAttributeId::FhExpireType)
        } else if id == 3 {
            Some(FileAttributeId::Change)
        } else if id == 4 {
            Some(FileAttributeId::Size)
        } else if id == 5 {
            Some(FileAttributeId::LinkSupport)
        } else if id == 6 {
            Some(FileAttributeId::SymlinkSupport)
        } else if id == 7 {
            Some(FileAttributeId::NamedAttr)
        } else if id == 8 {
            Some(FileAttributeId::FsId)
        } else if id == 9 {
            Some(FileAttributeId::UniqueHandles)
        } else if id == 10 {
            Some(FileAttributeId::LeaseTime)
        } else if id == 11 {
            Some(FileAttributeId::ReadDirAttrError)
        } else if id == 12 {
            Some(FileAttributeId::Acl)
        } else if id == 13 {
            Some(FileAttributeId::AclSupport)
        } else if id == 14 {
            Some(FileAttributeId::Archive)
        } else if id == 15 {
            Some(FileAttributeId::CanSetTime)
        } else if id == 16 {
            Some(FileAttributeId::CaseInsensitive)
        } else if id == 17 {
            Some(FileAttributeId::CasePreserving)
        } else if id == 18 {
            Some(FileAttributeId::ChownRestricted)
        } else if id == 19 {
            Some(FileAttributeId::FileHandle)
        } else if id == 20 {
            Some(FileAttributeId::FileId)
        } else if id == 21 {
            Some(FileAttributeId::FilesAvail)
        } else if id == 22 {
            Some(FileAttributeId::FilesFree)
        } else if id == 23 {
            Some(FileAttributeId::FilesTotal)
        } else if id == 24 {
            Some(FileAttributeId::FsLocations)
        } else if id == 26 {
            Some(FileAttributeId::Homogeneous)
        } else if id == 27 {
            Some(FileAttributeId::MaxFileSize)
        } else if id == 28 {
            Some(FileAttributeId::MaxLink)
        } else if id == 29 {
            Some(FileAttributeId::MaxName)
        } else if id == 30 {
            Some(FileAttributeId::MaxRead)
        } else if id == 31 {
            Some(FileAttributeId::MaxWrite)
        } else if id == 32 {
            Some(FileAttributeId::MimeType)
        } else if id == 33 {
            Some(FileAttributeId::Mode)
        } else if id == 34 {
            Some(FileAttributeId::NoTrunc)
        } else if id == 35 {
            Some(FileAttributeId::NumLinks)
        } else if id == 36 {
            Some(FileAttributeId::Owner)
        } else if id == 37 {
            Some(FileAttributeId::OwnerGroup)
        } else if id == 38 {
            Some(FileAttributeId::QuotaAvailHard)
        } else if id == 39 {
            Some(FileAttributeId::QuotaAvailSoft)
        } else if id == 40 {
            Some(FileAttributeId::QuotaUsed)
        } else if id == 41 {
            Some(FileAttributeId::RawDev)
        } else if id == 42 {
            Some(FileAttributeId::SpaceAvail)
        } else if id == 43 {
            Some(FileAttributeId::SpaceFree)
        } else if id == 44 {
            Some(FileAttributeId::SpaceTotal)
        } else if id == 45 {
            Some(FileAttributeId::SpaceUsed)
        } else if id == 46 {
            Some(FileAttributeId::System)
        } else if id == 47 {
            Some(FileAttributeId::TimeAccess)
        } else if id == 48 {
            Some(FileAttributeId::TimeAccessSet)
        } else if id == 49 {
            Some(FileAttributeId::TimeBackup)
        } else if id == 50 {
            Some(FileAttributeId::TimeCreate)
        } else if id == 51 {
            Some(FileAttributeId::TimeDelta)
        } else if id == 52 {
            Some(FileAttributeId::TimeMetadata)
        } else if id == 53 {
            Some(FileAttributeId::TimeModify)
        } else if id == 54 {
            Some(FileAttributeId::TimeModifySet)
        } else if id == 55 {
            Some(FileAttributeId::MountedOnFileid)
        } else if id == 56 {
            Some(FileAttributeId::DirNotifDelay)
        } else if id == 57 {
            Some(FileAttributeId::DirentNotifDelay)
        } else if id == 58 {
            Some(FileAttributeId::Dacl)
        } else if id == 59 {
            Some(FileAttributeId::Sacl)
        } else if id == 60 {
            Some(FileAttributeId::ChangePolicy)
        } else if id == 61 {
            Some(FileAttributeId::FsStatus)
        } else if id == 62 {
            Some(FileAttributeId::FsLayoutType)
        } else if id == 63 {
            Some(FileAttributeId::LayoutHint)
        } else if id == 64 {
            Some(FileAttributeId::LayoutType)
        } else if id == 65 {
            Some(FileAttributeId::LayoutBlksize)
        } else if id == 66 {
            Some(FileAttributeId::LayoutAlignment)
        } else if id == 67 {
            Some(FileAttributeId::FsLocationsInfo)
        } else if id == 68 {
            Some(FileAttributeId::MdsThreshold)
        } else if id == 69 {
            Some(FileAttributeId::RetentionGet)
        } else if id == 70 {
            Some(FileAttributeId::RetentionSet)
        } else if id == 71 {
            Some(FileAttributeId::RetentevtGet)
        } else if id == 72 {
            Some(FileAttributeId::RetentevtSet)
        } else if id == 73 {
            Some(FileAttributeId::RetentionHold)
        } else if id == 74 {
            Some(FileAttributeId::ModeSetMasked)
        } else if id == 75 {
            Some(FileAttributeId::SupportedAttrsExclusiveCreate)
        } else if id == 76 {
            Some(FileAttributeId::FsCharsetCap)
        } else {
            None
        }
    }

    proof fn lemma_from_id(id: u32) {
    }

    proof fn lemma_id(k: Self) {
    }

    fn to_u32(self) -> (r: u32) {
        self.tag_of()
    }

    fn try_from_u32(id: u32) -> (r: Option<Self>) {
        if id == 0 {
            Some(FileAttributeId::SupportedAttrs)
        } else if id == 1 {
            Some(FileAttributeId::Type)
        } else if id == 2 {
            Some(FileAttributeId::FhExpireType)
        } else if id == 3 {
            Some(FileAttributeId::Change)
        } else if id == 4 {
            Some(FileAttributeId::Size)
        } else if id == 5 {
            Some(FileAttributeId::LinkSupport)
        } else if id == 6 {
            Some(FileAttributeId::SymlinkSupport)
        } else if id == 7 {
            Some(FileAttributeId::NamedAttr)
        } else if id == 8 {
            Some(FileAttributeId::FsId)
        } else if id == 9 {
            Some(FileAttributeId::UniqueHandles)
        } else if id == 10 {
            Some(FileAttributeId::LeaseTime)
        } else if id == 11 {
            Some(FileAttributeId::ReadDirAttrError)
        } else if id == 12 {
            Some(FileAttributeId::Acl)
        } else if id == 13 {
            Some(FileAttributeId::AclSupport)
        } else if id == 14 {
            Some(FileAttributeId::Archive)
        } else if id == 15 {
            Some(FileAttributeId::CanSetTime)
        } else if id == 16 {
            Some(FileAttributeId::CaseInsensitive)
        } else if id == 17 {
            Some(FileAttributeId::CasePreserving)
        } else if id == 18 {
            Some(FileAttributeId::ChownRestricted)
        } else if id == 19 {
            Some(FileAttributeId::FileHandle)
        } else if id == 20 {
            Some(FileAttributeId::FileId)
        } else if id == 21 {
            Some(FileAttributeId::FilesAvail)
        } else if id == 22 {
            Some(FileAttributeId::FilesFree)
        } else if id == 23 {
            Some(FileAttributeId::FilesTotal)
        } else if id == 24 {
            Some(FileAttributeId::FsLocations)
        } else if id == 26 {
            Some(FileAttributeId::Homogeneous)
        } else if id == 27 {
            Some(FileAttributeId::MaxFileSize)
        } else if id == 28 {
            Some(FileAttributeId::MaxLink)
        } else if id == 29 {
            Some(FileAttributeId::MaxName)
        } else if id == 30 {
            Some(FileAttributeId::MaxRead)
        } else if id == 31 {
            Some(FileAttributeId::MaxWrite)
        } else if id == 32 {
            Some(FileAttributeId::MimeType)
        } else if id == 33 {
            Some(FileAttributeId::Mode)
        } else if id == 34 {
            Some(FileAttributeId::NoTrunc)
        } else if id == 35 {
            Some(FileAttributeId::NumLinks)
        } else if id == 36 {
            Some(FileAttributeId::Owner)
        } else if id == 37 {
            Some(FileAttributeId::OwnerGroup)
        } else if id == 38 {
            Some(FileAttributeId::QuotaAvailHard)
        } else if id == 39 {
            Some(FileAttributeId::QuotaAvailSoft)
        } else if id == 40 {
            Some(FileAttributeId::QuotaUsed)
        } else if id == 41 {
            Some(FileAttributeId::RawDev)
        } else if id == 42 {
            Some(FileAttributeId::SpaceAvail)
        } else if id == 43 {
            Some(FileAttributeId::SpaceFree)
        } else if id == 44 {
            Some(FileAttributeId::SpaceTotal)
        } else if id == 45 {
            Some(FileAttributeId::SpaceUsed)
        } else if id == 46 {
            Some(FileAttributeId::System)
        } else if id == 47 {
            Some(FileAttributeId::TimeAccess)
        } else if id == 48 {
            Some(FileAttributeId::TimeAccessSet)
        } else if id == 49 {
            Some(FileAttributeId::TimeBackup)
        } else if id == 50 {
            Some(FileAttributeId::TimeCreate)
        } else if id == 51 {
            Some(FileAttributeId::TimeDelta)
        } else if id == 52 {
            Some(FileAttributeId::TimeMetadata)
        } else if id == 53 {
            Some(FileAttributeId::TimeModify)
        } else if id == 54 {
            Some(FileAttributeId::TimeModifySet)
        } else if id == 55 {
            Some(FileAttributeId::MountedOnFileid)
        } else if id == 56 {
            Some(FileAttributeId::DirNotifDelay)
        } else if id == 57 {
            Some(FileAttributeId::DirentNotifDelay)
        } else if id == 58 {
            Some(FileAttributeId::Dacl)
        } else if id == 59 {
            Some(FileAttributeId::Sacl)
        } else if id == 60 {
            Some(FileAttributeId::ChangePolicy)
        } else if id == 61 {
            Some(FileAttributeId::FsStatus)
        } else if id == 62 {
            Some(FileAttributeId::FsLayoutType)
        } else if id == 63 {
            Some(FileAttributeId::LayoutHint)
        } else if id == 64 {
            Some(FileAttributeId::LayoutType)
        } else if id == 65 {
            Some(FileAttributeId::LayoutBlksize)
        } else if id == 66 {
            Some(FileAttributeId::LayoutAlignment)
        } else if id == 67 {
            Some(FileAttributeId::FsLocationsInfo)
        } else if id == 68 {
            Some(FileAttributeId::MdsThreshold)
        } else if id == 69 {
            Some(FileAttributeId::RetentionGet)
        } else if id == 70 {
            Some(FileAttributeId::RetentionSet)
        } else if id == 71 {
            Some(FileAttributeId::RetentevtGet)
        } else if id == 72 {
            Some(FileAttributeId::RetentevtSet)
        } else if id == 73 {
            Some(FileAttributeId::RetentionHold)
        } else if id == 74 {
            Some(FileAttributeId::ModeSetMasked)
        } else if id == 75 {
            Some(FileAttributeId::SupportedAttrsExclusiveCreate)
        } else if id == 76 {
            Some(FileAttributeId::FsCharsetCap)
        } else {
            None
        }
    }
}

/// The kinds of file.
#[derive(Clone, Debug, PartialEq, Eq)]
pub enum FileType {
    Regular,
    Directory,
    Block,
    Character,
    Link,
    Socket,
    Fifo,
    AttrDir,
}

impl FileType {
    /// The discriminant that leads the encoding of a value.
    pub open spec fn tag(m: FileType) -> u32 {
        match m {
            FileType::Regular => 1,
            FileType::Directory => 2,
            FileType::Block => 3,
            FileType::Character => 4,
            FileType::Link => 5,
            FileType::Socket => 6,
            FileType::Fifo => 7,
            FileType::AttrDir => 8,
        }
    }

    /// What follows the discriminant in the encoding of a value.
    #[verifier::opaque]
    pub open spec fn wire_payload(m: FileType) -> Seq<u8> {
        match m {
            FileType::Regular => Seq::<u8>::empty(),
            FileType::Directory => Seq::<u8>::empty(),
            FileType::Block => Seq::<u8>::empty(),
            FileType::Character => Seq::<u8>::empty(),
            FileType::Link => Seq::<u8>::empty(),
            FileType::Socket => Seq::<u8>::empty(),
            FileType::Fifo => Seq::<u8>::empty(),
            FileType::AttrDir => Seq::<u8>::empty(),
        }
    }

    /// The value with the discriminant `tag` whose payload is at the front of `s`.
    #[verifier::opaque]
    pub open spec fn parse_payload(tag: u32, s: Seq<u8>) -> Result<(FileType, Seq<u8>), XdrError> {
        if tag == 1 {
            Ok((FileType::Regular, s))
        } else if tag == 2 {
            Ok((FileType::Directory, s))
        } else if tag == 3 {
            Ok((FileType::Block, s))
        } else if tag == 4 {
            Ok((FileType::Character, s))
        } else if tag == 5 {
            Ok((FileType::Link, s))
        } else if tag == 6 {
            Ok((FileType::Socket, s))
        } else if tag == 7 {
            Ok((FileType::Fifo, s))
        } else if tag == 8 {
            Ok((FileType::AttrDir, s))
        } else {
            Err(XdrError::BadDiscriminant("FileType", tag))
        }
    }

    pub proof fn lemma_payload_round_trip(m: FileType, rest: Seq<u8>)
        requires
            <FileType as Xdr>::wf(m),
        ensures
            Self::parse_payload(Self::tag(m), Self::wire_payload(m) + rest)
                == Ok::<(FileType, Seq<u8>), XdrError>((m, rest)),
    {
        reveal(FileType::wire_payload);
        reveal(FileType::parse_payload);
        match m {
            FileType::Regular => {
                assert(Seq::<u8>::empty() + rest =~= rest);
            },
            FileType::Directory => {
                assert(Seq::<u8>::empty() + rest =~= rest);
            },
            FileType::Block => {
                assert(Seq::<u8>::empty() + rest =~= rest);
            },
            FileType::Character => {
                assert(Seq::<u8>::empty() + rest =~= rest);
            },
            FileType::Link => {
                assert(Seq::<u8>::empty() + rest =~= rest);
            },
            FileType::Socket => {
                assert(Seq::<u8>::empty() + rest =~= rest);
            },
            FileType::Fifo => {
                assert(Seq::<u8>::empty() + rest =~= rest);
            },
            FileType::AttrDir => {
                assert(Seq::<u8>::empty() + rest =~= rest);
            },
        }
    }

    /// The encoding of a value begins with its discriminant, big-endian.
    pub proof fn lemma_wire_leads_with_tag(m: FileType)
        ensures
            <FileType as Xdr>::wire(m).len() >= 4,
            <FileType as Xdr>::wire(m).take(4) == wire_u32(Self::tag(m)),
    {
        reveal(<FileType as Xdr>::wire);
        reveal(wire_u32);
        assert((wire_u32(Self::tag(m)) + Self::wire_payload(m)).take(4) =~= wire_u32(Self::tag(m)));
    }

    /// The discriminant of a value.
    pub fn tag_of(&self) -> (t: u32)
        ensures
            t == Self::tag(self.model()),
    {
        match self {
            FileType::Regular => 1,
            FileType::Directory => 2,
            FileType::Block => 3,
            FileType::Character => 4,
            FileType::Link => 5,
            FileType::Socket => 6,
            FileType::Fifo => 7,
            FileType::AttrDir => 8,
        }
    }

    /// Appends what follows the discriminant in the encoding of `self`.
    pub fn encode_payload(&self, out: &mut Vec<u8>) -> (r: Result<(), EncodeError>)
        ensures
            r is Ok <==> <FileType as Xdr>::wf(self.model()),
            r is Ok ==> final(out)@ == old(out)@ + Self::wire_payload(self.model()),
    {
        proof {
            reveal(FileType::wire_payload);
        }
        match self {
            FileType::Regular => {
                assert(out@ =~= old(out)@ + Seq::<u8>::empty());
            },
            FileType::Directory => {
                assert(out@ =~= old(out)@ + Seq::<u8>::empty());
            },
            FileType::Block => {
                assert(out@ =~= old(out)@ + Seq::<u8>::empty());
            },
            FileType::Character => {
                assert(out@ =~= old(out)@ + Seq::<u8>::empty());
            },
            FileType::Link => {
                assert(out@ =~= old(out)@ + Seq::<u8>::empty());
            },
            FileType::Socket => {
                assert(out@ =~= old(out)@ + Seq::<u8>::empty());
            },
            FileType::Fifo => {
                assert(out@ =~= old(out)@ + Seq::<u8>::empty());
            },
            FileType::AttrDir => {
                assert(out@ =~= old(out)@ + Seq::<u8>::empty());
            },
        }
        Ok(())
    }

    /// Decodes the payload of the value with the discriminant `tag`.
    pub fn decode_payload<'a>(
        tag: u32,
        input: &'a [u8],
    ) -> (r: Result<(FileType, &'a [u8]), XdrError>)
        ensures
            match r {
                Ok((v, rest)) => {
                    Self::parse_payload(tag, input@)
                        == Ok::<(FileType, Seq<u8>), XdrError>((v.model(), rest@))
                },
                Err(e) => {
                    Self::parse_payload(tag, input@) == Err::<(FileType, Seq<u8>), XdrError>(e)
                },
            },
    {
        proof {
            reveal(FileType::parse_payload);
        }
        if tag == 1 {
            Ok((FileType::Regular, input))
        } else if tag == 2 {
            Ok((FileType::Directory, input))
        } else if tag == 3 {
            Ok((FileType::Block, input))
        } else if tag == 4 {
            Ok((FileType::Character, input))
        } else if tag == 5 {
            Ok((FileType::Link, input))
        } else if tag == 6 {
            Ok((FileType::Socket, input))
        } else if tag == 7 {
            Ok((FileType::Fifo, input))
        } else if tag == 8 {
            Ok((FileType::AttrDir, input))
        } else {
            Err(XdrError::BadDiscriminant("FileType", tag))
        }
    }
}

impl Xdr for FileType {
    type Model = FileType;

    open spec fn model(&self) -> FileType {
        *self
    }

    open spec fn wf(m: FileType) -> bool {
        true
    }

    #[verifier::opaque]
    open spec fn wire(m: FileType) -> Seq<u8> {
        wire_u32(Self::tag(m)) + Self::wire_payload(m)
    }

    #[verifier::opaque]
    open spec fn parse(s: Seq<u8>) -> Result<(FileType, Seq<u8>), XdrError> {
        match parse_u32(s) {
            Ok((tag, r)) => Self::parse_payload(tag, r),
            Err(e) => Err(e),
        }
    }

    proof fn lemma_round_trip(m: FileType, rest: Seq<u8>) {
        reveal(<FileType as Xdr>::wire);
        reveal(<FileType as Xdr>::parse);
        lemma_concat_assoc(wire_u32(Self::tag(m)), Self::wire_payload(m), rest);
        lemma_u32_round_trip(Self::tag(m), Self::wire_payload(m) + rest);
        Self::lemma_payload_round_trip(m, rest);
    }

    fn encode(&self, out: &mut Vec<u8>) -> (r: Result<(), EncodeError>) {
        proof {
            reveal(<FileType as Xdr>::wire);
        }
        let tag = self.tag_of();
        let _ = tag.encode(out);
        self.encode_payload(out)?;
        proof {
            lemma_concat_assoc(old(out)@, wire_u32(tag), Self::wire_payload(self.model()));
        }
        Ok(())
    }

    fn decode<'a>(input: &'a [u8]) -> (r: Result<(FileType, &'a [u8]), XdrError>) {
        proof {
            reveal(<FileType as Xdr>::parse);
        }
        let (tag, cur) = u32::decode(input)?;
        Self::decode_payload(tag, cur)
    }
}

/// How a time is to be set: to a time of the client, or to the time of the
/// server.
#[derive(Clone, Debug, PartialEq, Eq)]
pub enum SetTime {
    SetToClientTime(Time),
    SetToServerTime,
}

impl SetTime {
    /// The discriminant that leads the encoding of a value.
    pub open spec fn tag(m: SetTime) -> u32 {
        match m {
            SetTime::SetToClientTime(..) => 0,
            SetTime::SetToServerTime => 1,
        }
    }

    /// What follows the discriminant in the encoding of a value.
    #[verifier::opaque]
    pub open spec fn wire_payload(m: SetTime) -> Seq<u8> {
        match m {
            SetTime::SetToClientTime(f0) => Time::wire(f0),
            SetTime::SetToServerTime => Seq::<u8>::empty(),
        }
    }

    /// The value with the discriminant `tag` whose payload is at the front of `s`.
    #[verifier::opaque]
    pub open spec fn parse_payload(tag: u32, s: Seq<u8>) -> Result<(SetTime, Seq<u8>), XdrError> {
        if tag == 0 {
            match Time::parse(s) {
                Err(e) => Err(e),
                Ok((f0, s1)) => Ok((SetTime::SetToClientTime(f0), s1)),
            }
        } else if tag == 1 {
            Ok((SetTime::SetToServerTime, s))
        } else {
            Err(XdrError::BadDiscriminant("SetTime", tag))
        }
    }

    pub proof fn lemma_payload_round_trip(m: SetTime, rest: Seq<u8>)
        requires
            <SetTime as Xdr>::wf(m),
        ensures
            Self::parse_payload(Self::tag(m), Self::wire_payload(m) + rest)
                == Ok::<(SetTime, Seq<u8>), XdrError>((m, rest)),
    {
        reveal(<SetTime as Xdr>::wf);
        reveal(SetTime::wire_payload);
        reveal(SetTime::parse_payload);
        match m {
            SetTime::SetToClientTime(f0) => {
                Time::lemma_round_trip(f0, rest);
            },
            SetTime::SetToServerTime => {
                assert(Seq::<u8>::empty() + rest =~= rest);
            },
        }
    }

    /// The encoding of a value begins with its discriminant, big-endian.
    pub proof fn lemma_wire_leads_with_tag(m: SetTime)
        ensures
            <SetTime as Xdr>::wire(m).len() >= 4,
            <SetTime as Xdr>::wire(m).take(4) == wire_u32(Self::tag(m)),
    {
        reveal(<SetTime as Xdr>::wire);
        reveal(wire_u32);
        assert((wire_u32(Self::tag(m)) + Self::wire_payload(m)).take(4) =~= wire_u32(Self::tag(m)));
    }

    /// The discriminant of a value.
    pub fn tag_of(&self) -> (t: u32)
        ensures
            t == Self::tag(self.model()),
    {
        match self {
            SetTime::SetToClientTime(..) => 0,
            SetTime::SetToServerTime => 1,
        }
    }

    /// Appends what follows the discriminant in the encoding of `self`.
    pub fn encode_payload(&self, out: &mut Vec<u8>) -> (r: Result<(), EncodeError>)
        ensures
            r is Ok <==> <SetTime as Xdr>::wf(self.model()),
            r is Ok ==> final(out)@ == old(out)@ + Self::wire_payload(self.model()),
    {
        proof {
            reveal(<SetTime as Xdr>::wf);
            reveal(SetTime::wire_payload);
        }
        match self {
            SetTime::SetToClientTime(f0) => {
                f0.encode(out)?;
            },
            SetTime::SetToServerTime => {
                assert(out@ =~= old(out)@ + Seq::<u8>::empty());
            },
        }
        Ok(())
    }

    /// Decodes the payload of the value with the discriminant `tag`.
    pub fn decode_payload<'a>(
        tag: u32,
        input: &'a [u8],
    ) -> (r: Result<(SetTime, &'a [u8]), XdrError>)
        ensures
            match r {
                Ok((v, rest)) => {
                    Self::parse_payload(tag, input@)
                        == Ok::<(SetTime, Seq<u8>), XdrError>((v.model(), rest@))
                },
                Err(e) => {
                    Self::parse_payload(tag, input@) == Err::<(SetTime, Seq<u8>), XdrError>(e)
                },
            },
    {
        proof {
            reveal(SetTime::parse_payload);
        }
        if tag == 0 {
            let (f0, cur) = Time::decode(input)?;
            Ok((SetTime::SetToClientTime(f0), cur))
        } else if tag == 1 {
            Ok((SetTime::SetToServerTime, input))
        } else {
            Err(XdrError::BadDiscriminant("SetTime", tag))
        }
    }
}

impl Xdr for SetTime {
    type Model = SetTime;

    open spec fn model(&self) -> SetTime {
        *self
    }

    #[verifier::opaque]
    open spec fn wf(m: SetTime) -> bool {
        match m {
            SetTime::SetToClientTime(f0) => Time::wf(f0),
            SetTime::SetToServerTime => true,
        }
    }

    #[verifier::opaque]
    open spec fn wire(m: SetTime) -> Seq<u8> {
        wire_u32(Self::tag(m)) + Self::wire_payload(m)
    }

    #[verifier::opaque]
    open spec fn parse(s: Seq<u8>) -> Result<(SetTime, Seq<u8>), XdrError> {
        match parse_u32(s) {
            Ok((tag, r)) => Self::parse_payload(tag, r),
            Err(e) => Err(e),
        }
    }

    proof fn lemma_round_trip(m: SetTime, rest: Seq<u8>) {
        reveal(<SetTime as Xdr>::wire);
        reveal(<SetTime as Xdr>::parse);
        lemma_concat_assoc(wire_u32(Self::tag(m)), Self::wire_payload(m), rest);
        lemma_u32_round_trip(Self::tag(m), Self::wire_payload(m) + rest);
        Self::lemma_payload_round_trip(m, rest);
    }

    fn encode(&self, out: &mut Vec<u8>) -> (r: Result<(), EncodeError>) {
        proof {
            reveal(<SetTime as Xdr>::wire);
        }
        let tag = self.tag_of();
        let _ = tag.encode(out);
        self.encode_payload(out)?;
        proof {
            lemma_concat_assoc(old(out)@, wire_u32(tag), Self::wire_payload(self.model()));
        }
        Ok(())
    }

    fn decode<'a>(input: &'a [u8]) -> (r: Result<(SetTime, &'a [u8]), XdrError>) {
        proof {
            reveal(<SetTime as Xdr>::parse);
        }
        let (tag, cur) = u32::decode(input)?;
        Self::decode_payload(tag, cur)
    }
}

#[derive(Clone, Copy, Debug, PartialEq, Eq)]
pub enum AceType {
    AccessAllowed,
    AccessDenied,
    SystemAudit,
    SystemAlarm,
}

impl AceType {
    /// The discriminant that leads the encoding of a value.
    pub open spec fn tag(m: AceType) -> u32 {
        match m {
            AceType::AccessAllowed => 0,
            AceType::AccessDenied => 1,
            AceType::SystemAudit => 2,
            AceType::SystemAlarm => 3,
        }
    }

    /// What follows the discriminant in the encoding of a value.
    #[verifier::opaque]
    pub open spec fn wire_payload(m: AceType) -> Seq<u8> {
        match m {
            AceType::AccessAllowed => Seq::<u8>::empty(),
            AceType::AccessDenied => Seq::<u8>::empty(),
            AceType::SystemAudit => Seq::<u8>::empty(),
            AceType::SystemAlarm => Seq::<u8>::empty(),
        }
    }

    /// The value with the discriminant `tag` whose payload is at the front of `s`.
    #[verifier::opaque]
    pub open spec fn parse_payload(tag: u32, s: Seq<u8>) -> Result<(AceType, Seq<u8>), XdrError> {
        if tag == 0 {
            Ok((AceType::AccessAllowed, s))
        } else if tag == 1 {
            Ok((AceType::AccessDenied, s))
        } else if tag == 2 {
            Ok((AceType::SystemAudit, s))
        } else if tag == 3 {
            Ok((AceType::SystemAlarm, s))
        } else {
            Err(XdrError::BadDiscriminant("AceType", tag))
        }
    }

    pub proof fn lemma_payload_round_trip(m: AceType, rest: Seq<u8>)
        requires
            <AceType as Xdr>::wf(m),
        ensures
            Self::parse_payload(Self::tag(m), Self::wire_payload(m) + rest)
                == Ok::<(AceType, Seq<u8>), XdrError>((m, rest)),
    {
        reveal(AceType::wire_payload);
        reveal(AceType::parse_payload);
        match m {
            AceType::AccessAllowed => {
                assert(Seq::<u8>::empty() + rest =~= rest);
            },
            AceType::AccessDenied => {
                assert(Seq::<u8>::empty() + rest =~= rest);
            },
            AceType::SystemAudit => {
                assert(Seq::<u8>::empty() + rest =~= rest);
            },
            AceType::SystemAlarm => {
                assert(Seq::<u8>::empty() + rest =~= rest);
            },
        }
    }

    /// The encoding of a value begins with its discriminant, big-endian.
    pub proof fn lemma_wire_leads_with_tag(m: AceType)
        ensures
            <AceType as Xdr>::wire(m).len() >= 4,
            <AceType as Xdr>::wire(m).take(4) == wire_u32(Self::tag(m)),
    {
        reveal(<AceType as Xdr>::wire);
        reveal(wire_u32);
        assert((wire_u32(Self::tag(m)) + Self::wire_payload(m)).take(4) =~= wire_u32(Self::tag(m)));
    }

    /// The discriminant of a value.
    pub fn tag_of(&self) -> (t: u32)
        ensures
            t == Self::tag(self.model()),
    {
        match self {
            AceType::AccessAllowed => 0,
            AceType::AccessDenied => 1,
            AceType::SystemAudit => 2,
            AceType::SystemAlarm => 3,
        }
    }

    /// Appends what follows the discriminant in the encoding of `self`.
    pub fn encode_payload(&self, out: &mut Vec<u8>) -> (r: Result<(), EncodeError>)
        ensures
            r is Ok <==> <AceType as Xdr>::wf(self.model()),
            r is Ok ==> final(out)@ == old(out)@ + Self::wire_payload(self.model()),
    {
        proof {
            reveal(AceType::wire_payload);
        }
        match self {
            AceType::AccessAllowed => {
                assert(out@ =~= old(out)@ + Seq::<u8>::empty());
            },
            AceType::AccessDenied => {
                assert(out@ =~= old(out)@ + Seq::<u8>::empty());
            },
            AceType::SystemAudit => {
                assert(out@ =~= old(out)@ + Seq::<u8>::empty());
            },
            AceType::SystemAlarm => {
                assert(out@ =~= old(out)@ + Seq::<u8>::empty());
            },
        }
        Ok(())
    }

    /// Decodes the payload of the value with the discriminant `tag`.
    pub fn decode_payload<'a>(
        tag: u32,
        input: &'a [u8],
    ) -> (r: Result<(AceType, &'a [u8]), XdrError>)
        ensures
            match r {
                Ok((v, rest)) => {
                    Self::parse_payload(tag, input@)
                        == Ok::<(AceType, Seq<u8>), XdrError>((v.model(), rest@))
                },
                Err(e) => {
                    Self::parse_payload(tag, input@) == Err::<(AceType, Seq<u8>), XdrError>(e)
                },
            },
    {
        proof {
            reveal(AceType::parse_payload);
        }
        if tag == 0 {
            Ok((AceType::AccessAllowed, input))
        } else if tag == 1 {
            Ok((AceType::AccessDenied, input))
        } else if tag == 2 {
            Ok((AceType::SystemAudit, input))
        } else if tag == 3 {
            Ok((AceType::SystemAlarm, input))
        } else {
            Err(XdrError::BadDiscriminant("AceType", tag))
        }
    }
}

impl Xdr for AceType {
    type Model = AceType;

    open spec fn model(&self) -> AceType {
        *self
    }

    open spec fn wf(m: AceType) -> bool {
        true
    }

    #[verifier::opaque]
    open spec fn wire(m: AceType) -> Seq<u8> {
        wire_u32(Self::tag(m)) + Self::wire_payload(m)
    }

    #[verifier::opaque]
    open spec fn parse(s: Seq<u8>) -> Result<(AceType, Seq<u8>), XdrError> {
        match parse_u32(s) {
            Ok((tag, r)) => Self::parse_payload(tag, r),
            Err(e) => Err(e),
        }
    }

    proof fn lemma_round_trip(m: AceType, rest: Seq<u8>) {
        reveal(<AceType as Xdr>::wire);
        reveal(<AceType as Xdr>::parse);
        lemma_concat_assoc(wire_u32(Self::tag(m)), Self::wire_payload(m), rest);
        lemma_u32_round_trip(Self::tag(m), Self::wire_payload(m) + rest);
        Self::lemma_payload_round_trip(m, rest);
    }

    fn encode(&self, out: &mut Vec<u8>) -> (r: Result<(), EncodeError>) {
        proof {
            reveal(<AceType as Xdr>::wire);
        }
        let tag = self.tag_of();
        let _ = tag.encode(out);
        self.encode_payload(out)?;
        proof {
            lemma_concat_assoc(old(out)@, wire_u32(tag), Self::wire_payload(self.model()));
        }
        Ok(())
    }

    fn decode<'a>(input: &'a [u8]) -> (r: Result<(AceType, &'a [u8]), XdrError>) {
        proof {
            reveal(<AceType as Xdr>::parse);
        }
        let (tag, cur) = u32::decode(input)?;
        Self::decode_payload(tag, cur)
    }
}

/// An entry of an access control list.
#[derive(Clone, Debug, PartialEq, Eq)]
pub struct Ace {
    pub type_: AceType,
    pub flags: AceFlags,
    pub access_mask: AceMask,
    pub who: Identity,
}

/// What a [`Ace`] stands for.
pub struct AceModel {
    pub type_: AceType,
    pub flags: AceFlags,
    pub access_mask: AceMask,
    pub who: IdentityModel,
}

impl Xdr for Ace {
    type Model = AceModel;

    #[verifier::opaque]
    open spec fn model(&self) -> AceModel {
        AceModel {
            type_: self.type_.model(),
            flags: self.flags.model(),
            access_mask: self.access_mask.model(),
            who: self.who.model(),
        }
    }

    #[verifier::opaque]
    open spec fn wf(m: AceModel) -> bool {
        &&& AceType::wf(m.type_)
        &&& AceFlags::wf(m.flags)
        &&& AceMask::wf(m.access_mask)
        &&& Identity::wf(m.who)
    }

    #[verifier::opaque]
    open spec fn wire(m: AceModel) -> Seq<u8> {
        AceType::wire(m.type_)
            + AceFlags::wire(m.flags)
            + AceMask::wire(m.access_mask)
            + Identity::wire(m.who)
    }

    #[verifier::opaque]
    open spec fn parse(s: Seq<u8>) -> Result<(AceModel, Seq<u8>), XdrError> {
        match AceType::parse(s) {
            Err(e) => Err(e),
            Ok((type_, s1)) => match AceFlags::parse(s1) {
                Err(e) => Err(e),
                Ok((flags, s2)) => match AceMask::parse(s2) {
                    Err(e) => Err(e),
                    Ok((access_mask, s3)) => match Identity::parse(s3) {
                        Err(e) => Err(e),
                        Ok((who, s4)) => Ok((AceModel { type_, flags, access_mask, who }, s4)),
                    },
                },
            },
        }
    }

    proof fn lemma_round_trip(m: AceModel, rest: Seq<u8>) {
        reveal(<Ace as Xdr>::wf);
        reveal(<Ace as Xdr>::wire);
        reveal(<Ace as Xdr>::parse);
        let w1 = AceType::wire(m.type_);
        let w2 = AceFlags::wire(m.flags);
        let w3 = AceMask::wire(m.access_mask);
        let w4 = Identity::wire(m.who);
        let r4 = rest;
        let r3 = w4 + r4;
        let r2 = w3 + r3;
        let r1 = w2 + r2;
        lemma_concat_assoc(w1 + w2 + w3, w4, r4);
        lemma_concat_assoc(w1 + w2, w3, r3);
        lemma_concat_assoc(w1, w2, r2);
        AceType::lemma_round_trip(m.type_, r1);
        AceFlags::lemma_round_trip(m.flags, r2);
        AceMask::lemma_round_trip(m.access_mask, r3);
        Identity::lemma_round_trip(m.who, r4);
    }

    fn encode(&self, out: &mut Vec<u8>) -> (r: Result<(), EncodeError>) {
        proof {
            reveal(<Ace as Xdr>::model);
            reveal(<Ace as Xdr>::wf);
            reveal(<Ace as Xdr>::wire);
        }
        let ghost m = self.model();
        let ghost w1 = AceType::wire(m.type_);
        let ghost w2 = AceFlags::wire(m.flags);
        let ghost w3 = AceMask::wire(m.access_mask);
        let ghost w4 = Identity::wire(m.who);
        self.type_.encode(out)?;
        self.flags.encode(out)?;
        proof {
            lemma_concat_assoc(old(out)@, w1, w2);
        }
        self.access_mask.encode(out)?;
        proof {
            lemma_concat_assoc(old(out)@, w1 + w2, w3);
        }
        self.who.encode(out)?;
        proof {
            lemma_concat_assoc(old(out)@, w1 + w2 + w3, w4);
        }
        Ok(())
    }

    fn decode<'a>(input: &'a [u8]) -> (r: Result<(Ace, &'a [u8]), XdrError>) {
        proof {
            reveal(<Ace as Xdr>::model);
            reveal(<Ace as Xdr>::parse);
        }
        let (type_, cur) = AceType::decode(input)?;
        let (flags, cur) = AceFlags::decode(cur)?;
        let (access_mask, cur) = AceMask::decode(cur)?;
        let (who, cur) = Identity::decode(cur)?;
        Ok((Ace { type_, flags, access_mask, who }, cur))
    }
}

/// An access control list.
#[derive(Clone, Debug, PartialEq, Eq)]
pub struct Acl {
    pub aces: Vec<Ace>,
}

/// What a [`Acl`] stands for.
pub struct AclModel {
    pub aces: Seq<AceModel>,
}

impl Xdr for Acl {
    type Model = AclModel;

    #[verifier::opaque]
    open spec fn model(&self) -> AclModel {
        AclModel { aces: self.aces.model() }
    }

    #[verifier::opaque]
    open spec fn wf(m: AclModel) -> bool {
        &&& Vec::<Ace>::wf(m.aces)
    }

    #[verifier::opaque]
    open spec fn wire(m: AclModel) -> Seq<u8> {
        Vec::<Ace>::wire(m.aces)
    }

    #[verifier::opaque]
    open spec fn parse(s: Seq<u8>) -> Result<(AclModel, Seq<u8>), XdrError> {
        match Vec::<Ace>::parse(s) {
            Err(e) => Err(e),
            Ok((aces, s1)) => Ok((AclModel { aces }, s1)),
        }
    }

    proof fn lemma_round_trip(m: AclModel, rest: Seq<u8>) {
        reveal(<Acl as Xdr>::wf);
        reveal(<Acl as Xdr>::wire);
        reveal(<Acl as Xdr>::parse);
        Vec::<Ace>::lemma_round_trip(m.aces, rest);
    }

    fn encode(&self, out: &mut Vec<u8>) -> (r: Result<(), EncodeError>) {
        proof {
            reveal(<Acl as Xdr>::model);
            reveal(<Acl as Xdr>::wf);
            reveal(<Acl as Xdr>::wire);
        }
        self.aces.encode(out)?;
        Ok(())
    }

    fn decode<'a>(input: &'a [u8]) -> (r: Result<(Acl, &'a [u8]), XdrError>) {
        proof {
            reveal(<Acl as Xdr>::model);
            reveal(<Acl as Xdr>::parse);
        }
        let (aces, cur) = Vec::<Ace>::decode(input)?;
        Ok((Acl { aces }, cur))
    }
}

#[derive(Clone, Debug, PartialEq, Eq)]
pub struct AclWithFlags {
    pub flags: AclFlags,
}

impl Xdr for AclWithFlags {
    type Model = AclWithFlags;

    open spec fn model(&self) -> AclWithFlags {
        *self
    }

    #[verifier::opaque]
    open spec fn wf(m: AclWithFlags) -> bool {
        &&& AclFlags::wf(m.flags)
    }

    #[verifier::opaque]
    open spec fn wire(m: AclWithFlags) -> Seq<u8> {
        AclFlags::wire(m.flags)
    }

    #[verifier::opaque]
    open spec fn parse(s: Seq<u8>) -> Result<(AclWithFlags, Seq<u8>), XdrError> {
        match AclFlags::parse(s) {
            Err(e) => Err(e),
            Ok((flags, s1)) => Ok((AclWithFlags { flags }, s1)),
        }
    }

    proof fn lemma_round_trip(m: AclWithFlags, rest: Seq<u8>) {
        reveal(<AclWithFlags as Xdr>::wf);
        reveal(<AclWithFlags as Xdr>::wire);
        reveal(<AclWithFlags as Xdr>::parse);
        AclFlags::lemma_round_trip(m.flags, rest);
    }

    fn encode(&self, out: &mut Vec<u8>) -> (r: Result<(), EncodeError>) {
        proof {
            reveal(<AclWithFlags as Xdr>::wf);
            reveal(<AclWithFlags as Xdr>::wire);
        }
        self.flags.encode(out)?;
        Ok(())
    }

    fn decode<'a>(input: &'a [u8]) -> (r: Result<(AclWithFlags, &'a [u8]), XdrError>) {
        proof {
            reveal(<AclWithFlags as Xdr>::parse);
        }
        let (flags, cur) = AclFlags::decode(input)?;
        Ok((AclWithFlags { flags }, cur))
    }
}

#[derive(Clone, Debug, PartialEq, Eq)]
pub struct ChangePolicy(pub u32);

impl Xdr for ChangePolicy {
    type Model = ChangePolicy;

    open spec fn model(&self) -> ChangePolicy {
        *self
    }

    open spec fn wf(m: ChangePolicy) -> bool {
        true
    }

    #[verifier::opaque]
    open spec fn wire(m: ChangePolicy) -> Seq<u8> {
        u32::wire(m.0)
    }

    #[verifier::opaque]
    open spec fn parse(s: Seq<u8>) -> Result<(ChangePolicy, Seq<u8>), XdrError> {
        match u32::parse(s) {
            Err(e) => Err(e),
            Ok((f0, s1)) => Ok((ChangePolicy(f0), s1)),
        }
    }

    proof fn lemma_round_trip(m: ChangePolicy, rest: Seq<u8>) {
        reveal(<ChangePolicy as Xdr>::wire);
        reveal(<ChangePolicy as Xdr>::parse);
        u32::lemma_round_trip(m.0, rest);
    }

    fn encode(&self, out: &mut Vec<u8>) -> (r: Result<(), EncodeError>) {
        proof {
            reveal(<ChangePolicy as Xdr>::wire);
        }
        let _ = self.0.encode(out);
        Ok(())
    }

    fn decode<'a>(input: &'a [u8]) -> (r: Result<(ChangePolicy, &'a [u8]), XdrError>) {
        proof {
            reveal(<ChangePolicy as Xdr>::parse);
        }
        let (f0, cur) = u32::decode(input)?;
        Ok((ChangePolicy(f0), cur))
    }
}

#[derive(Clone, Debug, PartialEq, Eq)]
pub struct FsLocation {
    pub server: Vec<String>,
    pub root_path: PathName,
}

/// What a [`FsLocation`] stands for.
pub struct FsLocationModel {
    pub server: Seq<Seq<char>>,
    pub root_path: PathNameModel,
}

impl Xdr for FsLocation {
    type Model = FsLocationModel;

    #[verifier::opaque]
    open spec fn model(&self) -> FsLocationModel {
        FsLocationModel { server: self.server.model(), root_path: self.root_path.model() }
    }

    #[verifier::opaque]
    open spec fn wf(m: FsLocationModel) -> bool {
        &&& Vec::<String>::wf(m.server)
        &&& PathName::wf(m.root_path)
    }

    #[verifier::opaque]
    open spec fn wire(m: FsLocationModel) -> Seq<u8> {
        Vec::<String>::wire(m.server) + PathName::wire(m.root_path)
    }

    #[verifier::opaque]
    open spec fn parse(s: Seq<u8>) -> Result<(FsLocationModel, Seq<u8>), XdrError> {
        match Vec::<String>::parse(s) {
            Err(e) => Err(e),
            Ok((server, s1)) => match PathName::parse(s1) {
                Err(e) => Err(e),
                Ok((root_path, s2)) => Ok((FsLocationModel { server, root_path }, s2)),
            },
        }
    }

    proof fn lemma_round_trip(m: FsLocationModel, rest: Seq<u8>) {
        reveal(<FsLocation as Xdr>::wf);
        reveal(<FsLocation as Xdr>::wire);
        reveal(<FsLocation as Xdr>::parse);
        let w1 = Vec::<String>::wire(m.server);
        let w2 = PathName::wire(m.root_path);
        let r2 = rest;
        let r1 = w2 + r2;
        lemma_concat_assoc(w1, w2, r2);
        Vec::<String>::lemma_round_trip(m.server, r1);
        PathName::lemma_round_trip(m.root_path, r2);
    }

    fn encode(&self, out: &mut Vec<u8>) -> (r: Result<(), EncodeError>) {
        proof {
            reveal(<FsLocation as Xdr>::model);
            reveal(<FsLocation as Xdr>::wf);
            reveal(<FsLocation as Xdr>::wire);
        }
        let ghost m = self.model();
        let ghost w1 = Vec::<String>::wire(m.server);
        let ghost w2 = PathName::wire(m.root_path);
        self.server.encode(out)?;
        self.root_path.encode(out)?;
        proof {
            lemma_concat_assoc(old(out)@, w1, w2);
        }
        Ok(())
    }

    fn decode<'a>(input: &'a [u8]) -> (r: Result<(FsLocation, &'a [u8]), XdrError>) {
        proof {
            reveal(<FsLocation as Xdr>::model);
            reveal(<FsLocation as Xdr>::parse);
        }
        let (server, cur) = Vec::<String>::decode(input)?;
        let (root_path, cur) = PathName::decode(cur)?;
        Ok((FsLocation { server, root_path }, cur))
    }
}

#[derive(Clone, Debug, PartialEq, Eq)]
pub struct FsLocations {
    pub fs_root: PathName,
    pub locations: Vec<FsLocation>,
}

/// What a [`FsLocations`] stands for.
pub struct FsLocationsModel {
    pub fs_root: PathNameModel,
    pub locations: Seq<FsLocationModel>,
}

impl Xdr for FsLocations {
    type Model = FsLocationsModel;

    #[verifier::opaque]
    open spec fn model(&self) -> FsLocationsModel {
        FsLocationsModel { fs_root: self.fs_root.model(), locations: self.locations.model() }
    }

    #[verifier::opaque]
    open spec fn wf(m: FsLocationsModel) -> bool {
        &&& PathName::wf(m.fs_root)
        &&& Vec::<FsLocation>::wf(m.locations)
    }

    #[verifier::opaque]
    open spec fn wire(m: FsLocationsModel) -> Seq<u8> {
        PathName::wire(m.fs_root) + Vec::<FsLocation>::wire(m.locations)
    }

    #[verifier::opaque]
    open spec fn parse(s: Seq<u8>) -> Result<(FsLocationsModel, Seq<u8>), XdrError> {
        match PathName::parse(s) {
            Err(e) => Err(e),
            Ok((fs_root, s1)) => match Vec::<FsLocation>::parse(s1) {
                Err(e) => Err(e),
                Ok((locations, s2)) => Ok((FsLocationsModel { fs_root, locations }, s2)),
            },
        }
    }

    proof fn lemma_round_trip(m: FsLocationsModel, rest: Seq<u8>) {
        reveal(<FsLocations as Xdr>::wf);
        reveal(<FsLocations as Xdr>::wire);
        reveal(<FsLocations as Xdr>::parse);
        let w1 = PathName::wire(m.fs_root);
        let w2 = Vec::<FsLocation>::wire(m.locations);
        let r2 = rest;
        let r1 = w2 + r2;
        lemma_concat_assoc(w1, w2, r2);
        PathName::lemma_round_trip(m.fs_root, r1);
        Vec::<FsLocation>::lemma_round_trip(m.locations, r2);
    }

    fn encode(&self, out: &mut Vec<u8>) -> (r: Result<(), EncodeError>) {
        proof {
            reveal(<FsLocations as Xdr>::model);
            reveal(<FsLocations as Xdr>::wf);
            reveal(<FsLocations as Xdr>::wire);
        }
        let ghost m = self.model();
        let ghost w1 = PathName::wire(m.fs_root);
        let ghost w2 = Vec::<FsLocation>::wire(m.locations);
        self.fs_root.encode(out)?;
        self.locations.encode(out)?;
        proof {
            lemma_concat_assoc(old(out)@, w1, w2);
        }
        Ok(())
    }

    fn decode<'a>(input: &'a [u8]) -> (r: Result<(FsLocations, &'a [u8]), XdrError>) {
        proof {
            reveal(<FsLocations as Xdr>::model);
            reveal(<FsLocations as Xdr>::parse);
        }
        let (fs_root, cur) = PathName::decode(input)?;
        let (locations, cur) = Vec::<FsLocation>::decode(cur)?;
        Ok((FsLocations { fs_root, locations }, cur))
    }
}

#[derive(Clone, Debug, PartialEq, Eq)]
pub struct FsLocationsServer {
    pub currency: i32,
    pub info: Vec<u8>,
    pub server: String,
}

/// What a [`FsLocationsServer`] stands for.
pub struct FsLocationsServerModel {
    pub currency: i32,
    pub info: Seq<u8>,
    pub server: Seq<char>,
}

impl Xdr for FsLocationsServer {
    type Model = FsLocationsServerModel;

    #[verifier::opaque]
    open spec fn model(&self) -> FsLocationsServerModel {
        FsLocationsServerModel {
            currency: self.currency.model(),
            info: self.info@,
            server: self.server.model(),
        }
    }

    #[verifier::opaque]
    open spec fn wf(m: FsLocationsServerModel) -> bool {
        &&& wf_opaque(m.info)
        &&& String::wf(m.server)
    }

    #[verifier::opaque]
    open spec fn wire(m: FsLocationsServerModel) -> Seq<u8> {
        i32::wire(m.currency) + wire_opaque(m.info) + String::wire(m.server)
    }

    #[verifier::opaque]
    open spec fn parse(s: Seq<u8>) -> Result<(FsLocationsServerModel, Seq<u8>), XdrError> {
        match i32::parse(s) {
            Err(e) => Err(e),
            Ok((currency, s1)) => match parse_opaque(s1) {
                Err(e) => Err(e),
                Ok((info, s2)) => match String::parse(s2) {
                    Err(e) => Err(e),
                    Ok((server, s3)) => Ok((FsLocationsServerModel { currency, info, server }, s3)),
                },
            },
        }
    }

    proof fn lemma_round_trip(m: FsLocationsServerModel, rest: Seq<u8>) {
        reveal(<FsLocationsServer as Xdr>::wf);
        reveal(<FsLocationsServer as Xdr>::wire);
        reveal(<FsLocationsServer as Xdr>::parse);
        let w1 = i32::wire(m.currency);
        let w2 = wire_opaque(m.info);
        let w3 = String::wire(m.server);
        let r3 = rest;
        let r2 = w3 + r3;
        let r1 = w2 + r2;
        lemma_concat_assoc(w1 + w2, w3, r3);
        lemma_concat_assoc(w1, w2, r2);
        i32::lemma_round_trip(m.currency, r1);
        lemma_opaque_round_trip(m.info, r2);
        String::lemma_round_trip(m.server, r3);
    }

    fn encode(&self, out: &mut Vec<u8>) -> (r: Result<(), EncodeError>) {
        proof {
            reveal(<FsLocationsServer as Xdr>::model);
            reveal(<FsLocationsServer as Xdr>::wf);
            reveal(<FsLocationsServer as Xdr>::wire);
        }
        let ghost m = self.model();
        let ghost w1 = i32::wire(m.currency);
        let ghost w2 = wire_opaque(m.info);
        let ghost w3 = String::wire(m.server);
        let _ = self.currency.encode(out);
        encode_opaque(self.info.as_slice(), out)?;
        proof {
            lemma_concat_assoc(old(out)@, w1, w2);
        }
        self.server.encode(out)?;
        proof {
            lemma_concat_assoc(old(out)@, w1 + w2, w3);
        }
        Ok(())
    }

    fn decode<'a>(input: &'a [u8]) -> (r: Result<(FsLocationsServer, &'a [u8]), XdrError>) {
        proof {
            reveal(<FsLocationsServer as Xdr>::model);
            reveal(<FsLocationsServer as Xdr>::parse);
        }
        let (currency, cur) = i32::decode(input)?;
        let (info, cur) = decode_opaque(cur)?;
        let info = copy_bytes(info);
        let (server, cur) = String::decode(cur)?;
        Ok((FsLocationsServer { currency, info, server }, cur))
    }
}

#[derive(Clone, Debug, PartialEq, Eq)]
pub struct FsLocationsItem {
    pub entries: Vec<FsLocationsServer>,
    pub root_path: PathName,
}

/// What a [`FsLocationsItem`] stands for.
pub struct FsLocationsItemModel {
    pub entries: Seq<FsLocationsServerModel>,
    pub root_path: PathNameModel,
}

impl Xdr for FsLocationsItem {
    type Model = FsLocationsItemModel;

    #[verifier::opaque]
    open spec fn model(&self) -> FsLocationsItemModel {
        FsLocationsItemModel { entries: self.entries.model(), root_path: self.root_path.model() }
    }

    #[verifier::opaque]
    open spec fn wf(m: FsLocationsItemModel) -> bool {
        &&& Vec::<FsLocationsServer>::wf(m.entries)
        &&& PathName::wf(m.root_path)
    }

    #[verifier::opaque]
    open spec fn wire(m: FsLocationsItemModel) -> Seq<u8> {
        Vec::<FsLocationsServer>::wire(m.entries) + PathName::wire(m.root_path)
    }

    #[verifier::opaque]
    open spec fn parse(s: Seq<u8>) -> Result<(FsLocationsItemModel, Seq<u8>), XdrError> {
        match Vec::<FsLocationsServer>::parse(s) {
            Err(e) => Err(e),
            Ok((entries, s1)) => match PathName::parse(s1) {
                Err(e) => Err(e),
                Ok((root_path, s2)) => Ok((FsLocationsItemModel { entries, root_path }, s2)),
            },
        }
    }

    proof fn lemma_round_trip(m: FsLocationsItemModel, rest: Seq<u8>) {
        reveal(<FsLocationsItem as Xdr>::wf);
        reveal(<FsLocationsItem as Xdr>::wire);
        reveal(<FsLocationsItem as Xdr>::parse);
        let w1 = Vec::<FsLocationsServer>::wire(m.entries);
        let w2 = PathName::wire(m.root_path);
        let r2 = rest;
        let r1 = w2 + r2;
        lemma_concat_assoc(w1, w2, r2);
        Vec::<FsLocationsServer>::lemma_round_trip(m.entries, r1);
        PathName::lemma_round_trip(m.root_path, r2);
    }

    fn encode(&self, out: &mut Vec<u8>) -> (r: Result<(), EncodeError>) {
        proof {
            reveal(<FsLocationsItem as Xdr>::model);
            reveal(<FsLocationsItem as Xdr>::wf);
            reveal(<FsLocationsItem as Xdr>::wire);
        }
        let ghost m = self.model();
        let ghost w1 = Vec::<FsLocationsServer>::wire(m.entries);
        let ghost w2 = PathName::wire(m.root_path);
        self.entries.encode(out)?;
        self.root_path.encode(out)?;
        proof {
            lemma_concat_assoc(old(out)@, w1, w2);
        }
        Ok(())
    }

    fn decode<'a>(input: &'a [u8]) -> (r: Result<(FsLocationsItem, &'a [u8]), XdrError>) {
        proof {
            reveal(<FsLocationsItem as Xdr>::model);
            reveal(<FsLocationsItem as Xdr>::parse);
        }
        let (entries, cur) = Vec::<FsLocationsServer>::decode(input)?;
        let (root_path, cur) = PathName::decode(cur)?;
        Ok((FsLocationsItem { entries, root_path }, cur))
    }
}

#[derive(Clone, Debug, PartialEq, Eq)]
pub struct FsLocationsInfo {
    pub flags: FsLocationsInfoFlags,
    pub valid_for: i32,
    pub fs_root: PathName,
    pub items: Vec<FsLocationsItem>,
}

/// What a [`FsLocationsInfo`] stands for.
pub struct FsLocationsInfoModel {
    pub flags: FsLocationsInfoFlags,
    pub valid_for: i32,
    pub fs_root: PathNameModel,
    pub items: Seq<FsLocationsItemModel>,
}

impl Xdr for FsLocationsInfo {
    type Model = FsLocationsInfoModel;

    #[verifier::opaque]
    open spec fn model(&self) -> FsLocationsInfoModel {
        FsLocationsInfoModel {
            flags: self.flags.model(),
            valid_for: self.valid_for.model(),
            fs_root: self.fs_root.model(),
            items: self.items.model(),
        }
    }

    #[verifier::opaque]
    open spec fn wf(m: FsLocationsInfoModel) -> bool {
        &&& FsLocationsInfoFlags::wf(m.flags)
        &&& PathName::wf(m.fs_root)
        &&& Vec::<FsLocationsItem>::wf(m.items)
    }

    #[verifier::opaque]
    open spec fn wire(m: FsLocationsInfoModel) -> Seq<u8> {
        FsLocationsInfoFlags::wire(m.flags)
            + i32::wire(m.valid_for)
            + PathName::wire(m.fs_root)
            + Vec::<FsLocationsItem>::wire(m.items)
    }

    #[verifier::opaque]
    open spec fn parse(s: Seq<u8>) -> Result<(FsLocationsInfoModel, Seq<u8>), XdrError> {
        match FsLocationsInfoFlags::parse(s) {
            Err(e) => Err(e),
            Ok((flags, s1)) => match i32::parse(s1) {
                Err(e) => Err(e),
                Ok((valid_for, s2)) => match PathName::parse(s2) {
                    Err(e) => Err(e),
                    Ok((fs_root, s3)) => match Vec::<FsLocationsItem>::parse(s3) {
                        Err(e) => Err(e),
                        Ok((items, s4)) => {
                            Ok((FsLocationsInfoModel { flags, valid_for, fs_root, items }, s4))
                        },
                    },
                },
            },
        }
    }

    proof fn lemma_round_trip(m: FsLocationsInfoModel, rest: Seq<u8>) {
        reveal(<FsLocationsInfo as Xdr>::wf);
        reveal(<FsLocationsInfo as Xdr>::wire);
        reveal(<FsLocationsInfo as Xdr>::parse);
        let w1 = FsLocationsInfoFlags::wire(m.flags);
        let w2 = i32::wire(m.valid_for);
        let w3 = PathName::wire(m.fs_root);
        let w4 = Vec::<FsLocationsItem>::wire(m.items);
        let r4 = rest;
        let r3 = w4 + r4;
        let r2 = w3 + r3;
        let r1 = w2 + r2;
        lemma_concat_assoc(w1 + w2 + w3, w4, r4);
        lemma_concat_assoc(w1 + w2, w3, r3);
        lemma_concat_assoc(w1, w2, r2);
        FsLocationsInfoFlags::lemma_round_trip(m.flags, r1);
        i32::lemma_round_trip(m.valid_for, r2);
        PathName::lemma_round_trip(m.fs_root, r3);
        Vec::<FsLocationsItem>::lemma_round_trip(m.items, r4);
    }

    fn encode(&self, out: &mut Vec<u8>) -> (r: Result<(), EncodeError>) {
        proof {
            reveal(<FsLocationsInfo as Xdr>::model);
            reveal(<FsLocationsInfo as Xdr>::wf);
            reveal(<FsLocationsInfo as Xdr>::wire);
        }
        let ghost m = self.model();
        let ghost w1 = FsLocationsInfoFlags::wire(m.flags);
        let ghost w2 = i32::wire(m.valid_for);
        let ghost w3 = PathName::wire(m.fs_root);
        let ghost w4 = Vec::<FsLocationsItem>::wire(m.items);
        self.flags.encode(out)?;
        let _ = self.valid_for.encode(out);
        proof {
            lemma_concat_assoc(old(out)@, w1, w2);
        }
        self.fs_root.encode(out)?;
        proof {
            lemma_concat_assoc(old(out)@, w1 + w2, w3);
        }
        self.items.encode(out)?;
        proof {
            lemma_concat_assoc(old(out)@, w1 + w2 + w3, w4);
        }
        Ok(())
    }

    fn decode<'a>(input: &'a [u8]) -> (r: Result<(FsLocationsInfo, &'a [u8]), XdrError>) {
        proof {
            reveal(<FsLocationsInfo as Xdr>::model);
            reveal(<FsLocationsInfo as Xdr>::parse);
        }
        let (flags, cur) = FsLocationsInfoFlags::decode(input)?;
        let (valid_for, cur) = i32::decode(cur)?;
        let (fs_root, cur) = PathName::decode(cur)?;
        let (items, cur) = Vec::<FsLocationsItem>::decode(cur)?;
        Ok((FsLocationsInfo { flags, valid_for, fs_root, items }, cur))
    }
}

#[derive(Clone, Debug, PartialEq, Eq)]
pub enum FsStatusType {
    Fixed,
    Updated,
    Versioned,
    Writable,
    Referral,
}

impl FsStatusType {
    /// The discriminant that leads the encoding of a value.
    pub open spec fn tag(m: FsStatusType) -> u32 {
        match m {
            FsStatusType::Fixed => 1,
            FsStatusType::Updated => 2,
            FsStatusType::Versioned => 3,
            FsStatusType::Writable => 4,
            FsStatusType::Referral => 5,
        }
    }

    /// What follows the discriminant in the encoding of a value.
    #[verifier::opaque]
    pub open spec fn wire_payload(m: FsStatusType) -> Seq<u8> {
        match m {
            FsStatusType::Fixed => Seq::<u8>::empty(),
            FsStatusType::Updated => Seq::<u8>::empty(),
            FsStatusType::Versioned => Seq::<u8>::empty(),
            FsStatusType::Writable => Seq::<u8>::empty(),
            FsStatusType::Referral => Seq::<u8>::empty(),
        }
    }

    /// The value with the discriminant `tag` whose payload is at the front of `s`.
    #[verifier::opaque]
    pub open spec fn parse_payload(
        tag: u32,
        s: Seq<u8>,
    ) -> Result<(FsStatusType, Seq<u8>), XdrError> {
        if tag == 1 {
            Ok((FsStatusType::Fixed, s))
        } else if tag == 2 {
            Ok((FsStatusType::Updated, s))
        } else if tag == 3 {
            Ok((FsStatusType::Versioned, s))
        } else if tag == 4 {
            Ok((FsStatusType::Writable, s))
        } else if tag == 5 {
            Ok((FsStatusType::Referral, s))
        } else {
            Err(XdrError::BadDiscriminant("FsStatusType", tag))
        }
    }

    pub proof fn lemma_payload_round_trip(m: FsStatusType, rest: Seq<u8>)
        requires
            <FsStatusType as Xdr>::wf(m),
        ensures
            Self::parse_payload(Self::tag(m), Self::wire_payload(m) + rest)
                == Ok::<(FsStatusType, Seq<u8>), XdrError>((m, rest)),
    {
        reveal(FsStatusType::wire_payload);
        reveal(FsStatusType::parse_payload);
        match m {
            FsStatusType::Fixed => {
                assert(Seq::<u8>::empty() + rest =~= rest);
            },
            FsStatusType::Updated => {
                assert(Seq::<u8>::empty() + rest =~= rest);
            },
            FsStatusType::Versioned => {
                assert(Seq::<u8>::empty() + rest =~= rest);
            },
            FsStatusType::Writable => {
                assert(Seq::<u8>::empty() + rest =~= rest);
            },
            FsStatusType::Referral => {
                assert(Seq::<u8>::empty() + rest =~= rest);
            },
        }
    }

    /// The encoding of a value begins with its discriminant, big-endian.
    pub proof fn lemma_wire_leads_with_tag(m: FsStatusType)
        ensures
            <FsStatusType as Xdr>::wire(m).len() >= 4,
            <FsStatusType as Xdr>::wire(m).take(4) == wire_u32(Self::tag(m)),
    {
        reveal(<FsStatusType as Xdr>::wire);
        reveal(wire_u32);
        assert((wire_u32(Self::tag(m)) + Self::wire_payload(m)).take(4) =~= wire_u32(Self::tag(m)));
    }

    /// The discriminant of a value.
    pub fn tag_of(&self) -> (t: u32)
        ensures
            t == Self::tag(self.model()),
    {
        match self {
            FsStatusType::Fixed => 1,
            FsStatusType::Updated => 2,
            FsStatusType::Versioned => 3,
            FsStatusType::Writable => 4,
            FsStatusType::Referral => 5,
        }
    }

    /// Appends what follows the discriminant in the encoding of `self`.
    pub fn encode_payload(&self, out: &mut Vec<u8>) -> (r: Result<(), EncodeError>)
        ensures
            r is Ok <==> <FsStatusType as Xdr>::wf(self.model()),
            r is Ok ==> final(out)@ == old(out)@ + Self::wire_payload(self.model()),
    {
        proof {
            reveal(FsStatusType::wire_payload);
        }
        match self {
            FsStatusType::Fixed => {
                assert(out@ =~= old(out)@ + Seq::<u8>::empty());
            },
            FsStatusType::Updated => {
                assert(out@ =~= old(out)@ + Seq::<u8>::empty());
            },
            FsStatusType::Versioned => {
                assert(out@ =~= old(out)@ + Seq::<u8>::empty());
            },
            FsStatusType::Writable => {
                assert(out@ =~= old(out)@ + Seq::<u8>::empty());
            },
            FsStatusType::Referral => {
                assert(out@ =~= old(out)@ + Seq::<u8>::empty());
            },
        }
        Ok(())
    }

    /// Decodes the payload of the value with the discriminant `tag`.
    pub fn decode_payload<'a>(
        tag: u32,
        input: &'a [u8],
    ) -> (r: Result<(FsStatusType, &'a [u8]), XdrError>)
        ensures
            match r {
                Ok((v, rest)) => {
                    Self::parse_payload(tag, input@)
                        == Ok::<(FsStatusType, Seq<u8>), XdrError>((v.model(), rest@))
                },
                Err(e) => {
                    Self::parse_payload(tag, input@) == Err::<(FsStatusType, Seq<u8>), XdrError>(e)
                },
            },
    {
        proof {
            reveal(FsStatusType::parse_payload);
        }
        if tag == 1 {
            Ok((FsStatusType::Fixed, input))
        } else if tag == 2 {
            Ok((FsStatusType::Updated, input))
        } else if tag == 3 {
            Ok((FsStatusType::Versioned, input))
        } else if tag == 4 {
            Ok((FsStatusType::Writable, input))
        } else if tag == 5 {
            Ok((FsStatusType::Referral, input))
        } else {
            Err(XdrError::BadDiscriminant("FsStatusType", tag))
        }
    }
}

impl Xdr for FsStatusType {
    type Model = FsStatusType;

    open spec fn model(&self) -> FsStatusType {
        *self
    }

    open spec fn wf(m: FsStatusType) -> bool {
        true
    }

    #[verifier::opaque]
    open spec fn wire(m: FsStatusType) -> Seq<u8> {
        wire_u32(Self::tag(m)) + Self::wire_payload(m)
    }

    #[verifier::opaque]
    open spec fn parse(s: Seq<u8>) -> Result<(FsStatusType, Seq<u8>), XdrError> {
        match parse_u32(s) {
            Ok((tag, r)) => Self::parse_payload(tag, r),
            Err(e) => Err(e),
        }
    }

    proof fn lemma_round_trip(m: FsStatusType, rest: Seq<u8>) {
        reveal(<FsStatusType as Xdr>::wire);
        reveal(<FsStatusType as Xdr>::parse);
        lemma_concat_assoc(wire_u32(Self::tag(m)), Self::wire_payload(m), rest);
        lemma_u32_round_trip(Self::tag(m), Self::wire_payload(m) + rest);
        Self::lemma_payload_round_trip(m, rest);
    }

    fn encode(&self, out: &mut Vec<u8>) -> (r: Result<(), EncodeError>) {
        proof {
            reveal(<FsStatusType as Xdr>::wire);
        }
        let tag = self.tag_of();
        let _ = tag.encode(out);
        self.encode_payload(out)?;
        proof {
            lemma_concat_assoc(old(out)@, wire_u32(tag), Self::wire_payload(self.model()));
        }
        Ok(())
    }

    fn decode<'a>(input: &'a [u8]) -> (r: Result<(FsStatusType, &'a [u8]), XdrError>) {
        proof {
            reveal(<FsStatusType as Xdr>::parse);
        }
        let (tag, cur) = u32::decode(input)?;
        Self::decode_payload(tag, cur)
    }
}

#[derive(Clone, Debug, PartialEq, Eq)]
pub struct FsStatus {
    pub absent: bool,
    pub type_: FsStatusType,
    pub source: String,
    pub current: String,
    pub age: i32,
    pub version: Time,
}

/// What a [`FsStatus`] stands for.
pub struct FsStatusModel {
    pub absent: bool,
    pub type_: FsStatusType,
    pub source: Seq<char>,
    pub current: Seq<char>,
    pub age: i32,
    pub version: Time,
}

impl Xdr for FsStatus {
    type Model = FsStatusModel;

    #[verifier::opaque]
    open spec fn model(&self) -> FsStatusModel {
        FsStatusModel {
            absent: self.absent.model(),
            type_: self.type_.model(),
            source: self.source.model(),
            current: self.current.model(),
            age: self.age.model(),
            version: self.version.model(),
        }
    }

    #[verifier::opaque]
    open spec fn wf(m: FsStatusModel) -> bool {
        &&& FsStatusType::wf(m.type_)
        &&& String::wf(m.source)
        &&& String::wf(m.current)
        &&& Time::wf(m.version)
    }

    #[verifier::opaque]
    open spec fn wire(m: FsStatusModel) -> Seq<u8> {
        bool::wire(m.absent)
            + FsStatusType::wire(m.type_)
            + String::wire(m.source)
            + String::wire(m.current)
            + i32::wire(m.age)
            + Time::wire(m.version)
    }

    #[verifier::opaque]
    open spec fn parse(s: Seq<u8>) -> Result<(FsStatusModel, Seq<u8>), XdrError> {
        match bool::parse(s) {
            Err(e) => Err(e),
            Ok((absent, s1)) => match FsStatusType::parse(s1) {
                Err(e) => Err(e),
                Ok((type_, s2)) => match String::parse(s2) {
                    Err(e) => Err(e),
                    Ok((source, s3)) => match String::parse(s3) {
                        Err(e) => Err(e),
                        Ok((current, s4)) => match i32::parse(s4) {
                            Err(e) => Err(e),
                            Ok((age, s5)) => match Time::parse(s5) {
                                Err(e) => Err(e),
                                Ok((version, s6)) => {
                                    Ok(
                                        (
                                            FsStatusModel {
                                                absent,
                                                type_,
                                                source,
                                                current,
                                                age,
                                                version,
                                            },
                                            s6,
                                        ),
                                    )
                                },
                            },
                        },
                    },
                },
            },
        }
    }

    proof fn lemma_round_trip(m: FsStatusModel, rest: Seq<u8>) {
        reveal(<FsStatus as Xdr>::wf);
        reveal(<FsStatus as Xdr>::wire);
        reveal(<FsStatus as Xdr>::parse);
        let w1 = bool::wire(m.absent);
        let w2 = FsStatusType::wire(m.type_);
        let w3 = String::wire(m.source);
        let w4 = String::wire(m.current);
        let w5 = i32::wire(m.age);
        let w6 = Time::wire(m.version);
        let r6 = rest;
        let r5 = w6 + r6;
        let r4 = w5 + r5;
        let r3 = w4 + r4;
        let r2 = w3 + r3;
        let r1 = w2 + r2;
        lemma_concat_assoc(w1 + w2 + w3 + w4 + w5, w6, r6);
        lemma_concat_assoc(w1 + w2 + w3 + w4, w5, r5);
        lemma_concat_assoc(w1 + w2 + w3, w4, r4);
        lemma_concat_assoc(w1 + w2, w3, r3);
        lemma_concat_assoc(w1, w2, r2);
        bool::lemma_round_trip(m.absent, r1);
        FsStatusType::lemma_round_trip(m.type_, r2);
        String::lemma_round_trip(m.source, r3);
        String::lemma_round_trip(m.current, r4);
        i32::lemma_round_trip(m.age, r5);
        Time::lemma_round_trip(m.version, r6);
    }

    fn encode(&self, out: &mut Vec<u8>) -> (r: Result<(), EncodeError>) {
        proof {
            reveal(<FsStatus as Xdr>::model);
            reveal(<FsStatus as Xdr>::wf);
            reveal(<FsStatus as Xdr>::wire);
        }
        let ghost m = self.model();
        let ghost w1 = bool::wire(m.absent);
        let ghost w2 = FsStatusType::wire(m.type_);
        let ghost w3 = String::wire(m.source);
        let ghost w4 = String::wire(m.current);
        let ghost w5 = i32::wire(m.age);
        let ghost w6 = Time::wire(m.version);
        let _ = self.absent.encode(out);
        self.type_.encode(out)?;
        proof {
            lemma_concat_assoc(old(out)@, w1, w2);
        }
        self.source.encode(out)?;
        proof {
            lemma_concat_assoc(old(out)@, w1 + w2, w3);
        }
        self.current.encode(out)?;
        proof {
            lemma_concat_assoc(old(out)@, w1 + w2 + w3, w4);
        }
        let _ = self.age.encode(out);
        proof {
            lemma_concat_assoc(old(out)@, w1 + w2 + w3 + w4, w5);
        }
        self.version.encode(out)?;
        proof {
            lemma_concat_assoc(old(out)@, w1 + w2 + w3 + w4 + w5, w6);
        }
        Ok(())
    }

    fn decode<'a>(input: &'a [u8]) -> (r: Result<(FsStatus, &'a [u8]), XdrError>) {
        proof {
            reveal(<FsStatus as Xdr>::model);
            reveal(<FsStatus as Xdr>::parse);
        }
        let (absent, cur) = bool::decode(input)?;
        let (type_, cur) = FsStatusType::decode(cur)?;
        let (source, cur) = String::decode(cur)?;
        let (current, cur) = String::decode(cur)?;
        let (age, cur) = i32::decode(cur)?;
        let (version, cur) = Time::decode(cur)?;
        Ok((FsStatus { absent, type_, source, current, age, version }, cur))
    }
}

#[derive(Clone, Debug, PartialEq, Eq)]
pub struct LayoutHint {
    pub type_: LayoutType,
    pub body: Vec<u8>,
}

/// What a [`LayoutHint`] stands for.
pub struct LayoutHintModel {
    pub type_: LayoutType,
    pub body: Seq<u8>,
}

impl Xdr for LayoutHint {
    type Model = LayoutHintModel;

    #[verifier::opaque]
    open spec fn model(&self) -> LayoutHintModel {
        LayoutHintModel { type_: self.type_.model(), body: self.body@ }
    }

    #[verifier::opaque]
    open spec fn wf(m: LayoutHintModel) -> bool {
        &&& LayoutType::wf(m.type_)
        &&& wf_opaque(m.body)
    }

    #[verifier::opaque]
    open spec fn wire(m: LayoutHintModel) -> Seq<u8> {
        LayoutType::wire(m.type_) + wire_opaque(m.body)
    }

    #[verifier::opaque]
    open spec fn parse(s: Seq<u8>) -> Result<(LayoutHintModel, Seq<u8>), XdrError> {
        match LayoutType::parse(s) {
            Err(e) => Err(e),
            Ok((type_, s1)) => match parse_opaque(s1) {
                Err(e) => Err(e),
                Ok((body, s2)) => Ok((LayoutHintModel { type_, body }, s2)),
            },
        }
    }

    proof fn lemma_round_trip(m: LayoutHintModel, rest: Seq<u8>) {
        reveal(<LayoutHint as Xdr>::wf);
        reveal(<LayoutHint as Xdr>::wire);
        reveal(<LayoutHint as Xdr>::parse);
        let w1 = LayoutType::wire(m.type_);
        let w2 = wire_opaque(m.body);
        let r2 = rest;
        let r1 = w2 + r2;
        lemma_concat_assoc(w1, w2, r2);
        LayoutType::lemma_round_trip(m.type_, r1);
        lemma_opaque_round_trip(m.body, r2);
    }

    fn encode(&self, out: &mut Vec<u8>) -> (r: Result<(), EncodeError>) {
        proof {
            reveal(<LayoutHint as Xdr>::model);
            reveal(<LayoutHint as Xdr>::wf);
            reveal(<LayoutHint as Xdr>::wire);
        }
        let ghost m = self.model();
        let ghost w1 = LayoutType::wire(m.type_);
        let ghost w2 = wire_opaque(m.body);
        self.type_.encode(out)?;
        encode_opaque(self.body.as_slice(), out)?;
        proof {
            lemma_concat_assoc(old(out)@, w1, w2);
        }
        Ok(())
    }

    fn decode<'a>(input: &'a [u8]) -> (r: Result<(LayoutHint, &'a [u8]), XdrError>) {
        proof {
            reveal(<LayoutHint as Xdr>::model);
            reveal(<LayoutHint as Xdr>::parse);
        }
        let (type_, cur) = LayoutType::decode(input)?;
        let (body, cur) = decode_opaque(cur)?;
        let body = copy_bytes(body);
        Ok((LayoutHint { type_, body }, cur))
    }
}

/// The identifiers of the hints of a metadata server.
#[derive(Clone, Copy, Debug, PartialEq, Eq, PartialOrd, Ord)]
pub enum ThresholdAttributeId {
    ReadSize,
    WriteSize,
    ReadIoSize,
    WriteIoSize,
}

impl ThresholdAttributeId {
    /// The discriminant that leads the encoding of a value.
    pub open spec fn tag(m: ThresholdAttributeId) -> u32 {
        match m {
            ThresholdAttributeId::ReadSize => 0,
            ThresholdAttributeId::WriteSize => 1,
            ThresholdAttributeId::ReadIoSize => 2,
            ThresholdAttributeId::WriteIoSize => 3,
        }
    }

    /// What follows the discriminant in the encoding of a value.
    #[verifier::opaque]
    pub open spec fn wire_payload(m: ThresholdAttributeId) -> Seq<u8> {
        match m {
            ThresholdAttributeId::ReadSize => Seq::<u8>::empty(),
            ThresholdAttributeId::WriteSize => Seq::<u8>::empty(),
            ThresholdAttributeId::ReadIoSize => Seq::<u8>::empty(),
            ThresholdAttributeId::WriteIoSize => Seq::<u8>::empty(),
        }
    }

    /// The value with the discriminant `tag` whose payload is at the front of `s`.
    #[verifier::opaque]
    pub open spec fn parse_payload(
        tag: u32,
        s: Seq<u8>,
    ) -> Result<(ThresholdAttributeId, Seq<u8>), XdrError> {
        if tag == 0 {
            Ok((ThresholdAttributeId::ReadSize, s))
        } else if tag == 1 {
            Ok((ThresholdAttributeId::WriteSize, s))
        } else if tag == 2 {
            Ok((ThresholdAttributeId::ReadIoSize, s))
        } else if tag == 3 {
            Ok((ThresholdAttributeId::WriteIoSize, s))
        } else {
            Err(XdrError::BadDiscriminant("ThresholdAttributeId", tag))
        }
    }

    pub proof fn lemma_payload_round_trip(m: ThresholdAttributeId, rest: Seq<u8>)
        requires
            <ThresholdAttributeId as Xdr>::wf(m),
        ensures
            Self::parse_payload(Self::tag(m), Self::wire_payload(m) + rest)
                == Ok::<(ThresholdAttributeId, Seq<u8>), XdrError>((m, rest)),
    {
        reveal(ThresholdAttributeId::wire_payload);
        reveal(ThresholdAttributeId::parse_payload);
        match m {
            ThresholdAttributeId::ReadSize => {
                assert(Seq::<u8>::empty() + rest =~= rest);
            },
            ThresholdAttributeId::WriteSize => {
                assert(Seq::<u8>::empty() + rest =~= rest);
            },
            ThresholdAttributeId::ReadIoSize => {
                assert(Seq::<u8>::empty() + rest =~= rest);
            },
            ThresholdAttributeId::WriteIoSize => {
                assert(Seq::<u8>::empty() + rest =~= rest);
            },
        }
    }

    /// The encoding of a value begins with its discriminant, big-endian.
    pub proof fn lemma_wire_leads_with_tag(m: ThresholdAttributeId)
        ensures
            <ThresholdAttributeId as Xdr>::wire(m).len() >= 4,
            <ThresholdAttributeId as Xdr>::wire(m).take(4) == wire_u32(Self::tag(m)),
    {
        reveal(<ThresholdAttributeId as Xdr>::wire);
        reveal(wire_u32);
        assert((wire_u32(Self::tag(m)) + Self::wire_payload(m)).take(4) =~= wire_u32(Self::tag(m)));
    }

    /// The discriminant of a value.
    pub fn tag_of(&self) -> (t: u32)
        ensures
            t == Self::tag(self.model()),
    {
        match self {
            ThresholdAttributeId::ReadSize => 0,
            ThresholdAttributeId::WriteSize => 1,
            ThresholdAttributeId::ReadIoSize => 2,
            ThresholdAttributeId::WriteIoSize => 3,
        }
    }

    /// Appends what follows the discriminant in the encoding of `self`.
    pub fn encode_payload(&self, out: &mut Vec<u8>) -> (r: Result<(), EncodeError>)
        ensures
            r is Ok <==> <ThresholdAttributeId as Xdr>::wf(self.model()),
            r is Ok ==> final(out)@ == old(out)@ + Self::wire_payload(self.model()),
    {
        proof {
            reveal(ThresholdAttributeId::wire_payload);
        }
        match self {
            ThresholdAttributeId::ReadSize => {
                assert(out@ =~= old(out)@ + Seq::<u8>::empty());
            },
            ThresholdAttributeId::WriteSize => {
                assert(out@ =~= old(out)@ + Seq::<u8>::empty());
            },
            ThresholdAttributeId::ReadIoSize => {
                assert(out@ =~= old(out)@ + Seq::<u8>::empty());
            },
            ThresholdAttributeId::WriteIoSize => {
                assert(out@ =~= old(out)@ + Seq::<u8>::empty());
            },
        }
        Ok(())
    }

    /// Decodes the payload of the value with the discriminant `tag`.
    pub fn decode_payload<'a>(
        tag: u32,
        input: &'a [u8],
    ) -> (r: Result<(ThresholdAttributeId, &'a [u8]), XdrError>)
        ensures
            match r {
                Ok((v, rest)) => {
                    Self::parse_payload(tag, input@)
                        == Ok::<(ThresholdAttributeId, Seq<u8>), XdrError>((v.model(), rest@))
                },
                Err(e) => {
                    Self::parse_payload(tag, input@)
                        == Err::<(ThresholdAttributeId, Seq<u8>), XdrError>(e)
                },
            },
    {
        proof {
            reveal(ThresholdAttributeId::parse_payload);
        }
        if tag == 0 {
            Ok((ThresholdAttributeId::ReadSize, input))
        } else if tag == 1 {
            Ok((ThresholdAttributeId::WriteSize, input))
        } else if tag == 2 {
            Ok((ThresholdAttributeId::ReadIoSize, input))
        } else if tag == 3 {
            Ok((ThresholdAttributeId::WriteIoSize, input))
        } else {
            Err(XdrError::BadDiscriminant("ThresholdAttributeId", tag))
        }
    }
}

impl Xdr for ThresholdAttributeId {
    type Model = ThresholdAttributeId;

    open spec fn model(&self) -> ThresholdAttributeId {
        *self
    }

    open spec fn wf(m: ThresholdAttributeId) -> bool {
        true
    }

    #[verifier::opaque]
    open spec fn wire(m: ThresholdAttributeId) -> Seq<u8> {
        wire_u32(Self::tag(m)) + Self::wire_payload(m)
    }

    #[verifier::opaque]
    open spec fn parse(s: Seq<u8>) -> Result<(ThresholdAttributeId, Seq<u8>), XdrError> {
        match parse_u32(s) {
            Ok((tag, r)) => Self::parse_payload(tag, r),
            Err(e) => Err(e),
        }
    }

    proof fn lemma_round_trip(m: ThresholdAttributeId, rest: Seq<u8>) {
        reveal(<ThresholdAttributeId as Xdr>::wire);
        reveal(<ThresholdAttributeId as Xdr>::parse);
        lemma_concat_assoc(wire_u32(Self::tag(m)), Self::wire_payload(m), rest);
        lemma_u32_round_trip(Self::tag(m), Self::wire_payload(m) + rest);
        Self::lemma_payload_round_trip(m, rest);
    }

    fn encode(&self, out: &mut Vec<u8>) -> (r: Result<(), EncodeError>) {
        proof {
            reveal(<ThresholdAttributeId as Xdr>::wire);
        }
        let tag = self.tag_of();
        let _ = tag.encode(out);
        self.encode_payload(out)?;
        proof {
            lemma_concat_assoc(old(out)@, wire_u32(tag), Self::wire_payload(self.model()));
        }
        Ok(())
    }

    fn decode<'a>(input: &'a [u8]) -> (r: Result<(ThresholdAttributeId, &'a [u8]), XdrError>) {
        proof {
            reveal(<ThresholdAttributeId as Xdr>::parse);
        }
        let (tag, cur) = u32::decode(input)?;
        Self::decode_payload(tag, cur)
    }
}

impl EnumId for ThresholdAttributeId {
    open spec fn id(self) -> u32 {
        Self::tag(self)
    }

    open spec fn from_id(id: u32) -> Option<Self> {
        if id == 0 {
            Some(ThresholdAttributeId::ReadSize)
        } else if id == 1 {
            Some(ThresholdAttributeId::WriteSize)
        } else if id == 2 {
            Some(ThresholdAttributeId::ReadIoSize)
        } else if id == 3 {
            Some(ThresholdAttributeId::WriteIoSize)
        } else {
            None
        }
    }

    proof fn lemma_from_id(id: u32) {
    }

    proof fn lemma_id(k: Self) {
    }

    fn to_u32(self) -> (r: u32) {
        self.tag_of()
    }

    fn try_from_u32(id: u32) -> (r: Option<Self>) {
        if id == 0 {
            Some(ThresholdAttributeId::ReadSize)
        } else if id == 1 {
            Some(ThresholdAttributeId::WriteSize)
        } else if id == 2 {
            Some(ThresholdAttributeId::ReadIoSize)
        } else if id == 3 {
            Some(ThresholdAttributeId::WriteIoSize)
        } else {
            None
        }
    }
}

/// A hint of a metadata server together with its value.
#[derive(Clone, Debug, PartialEq, Eq)]
pub enum ThresholdAttribute {
    ReadSize(u32),
    WriteSize(u32),
    ReadIoSize(u32),
    WriteIoSize(u32),
}

impl ThresholdAttribute {
    /// The discriminant that leads the encoding of a value.
    pub open spec fn tag(m: ThresholdAttribute) -> u32 {
        match m {
            ThresholdAttribute::ReadSize(..) => 0,
            ThresholdAttribute::WriteSize(..) => 1,
            ThresholdAttribute::ReadIoSize(..) => 2,
            ThresholdAttribute::WriteIoSize(..) => 3,
        }
    }

    /// What follows the discriminant in the encoding of a value.
    #[verifier::opaque]
    pub open spec fn wire_payload(m: ThresholdAttribute) -> Seq<u8> {
        match m {
            ThresholdAttribute::ReadSize(f0) => u32::wire(f0),
            ThresholdAttribute::WriteSize(f0) => u32::wire(f0),
            ThresholdAttribute::ReadIoSize(f0) => u32::wire(f0),
            ThresholdAttribute::WriteIoSize(f0) => u32::wire(f0),
        }
    }

    /// The value with the discriminant `tag` whose payload is at the front of `s`.
    #[verifier::opaque]
    pub open spec fn parse_payload(
        tag: u32,
        s: Seq<u8>,
    ) -> Result<(ThresholdAttribute, Seq<u8>), XdrError> {
        if tag == 0 {
            match u32::parse(s) {
                Err(e) => Err(e),
                Ok((f0, s1)) => Ok((ThresholdAttribute::ReadSize(f0), s1)),
            }
        } else if tag == 1 {
            match u32::parse(s) {
                Err(e) => Err(e),
                Ok((f0, s1)) => Ok((ThresholdAttribute::WriteSize(f0), s1)),
            }
        } else if tag == 2 {
            match u32::parse(s) {
                Err(e) => Err(e),
                Ok((f0, s1)) => Ok((ThresholdAttribute::ReadIoSize(f0), s1)),
            }
        } else if tag == 3 {
            match u32::parse(s) {
                Err(e) => Err(e),
                Ok((f0, s1)) => Ok((ThresholdAttribute::WriteIoSize(f0), s1)),
            }
        } else {
            Err(XdrError::BadDiscriminant("ThresholdAttribute", tag))
        }
    }

    pub proof fn lemma_payload_round_trip(m: ThresholdAttribute, rest: Seq<u8>)
        requires
            <ThresholdAttribute as Xdr>::wf(m),
        ensures
            Self::parse_payload(Self::tag(m), Self::wire_payload(m) + rest)
                == Ok::<(ThresholdAttribute, Seq<u8>), XdrError>((m, rest)),
    {
        reveal(ThresholdAttribute::wire_payload);
        reveal(ThresholdAttribute::parse_payload);
        match m {
            ThresholdAttribute::ReadSize(f0) => {
                u32::lemma_round_trip(f0, rest);
            },
            ThresholdAttribute::WriteSize(f0) => {
                u32::lemma_round_trip(f0, rest);
            },
            ThresholdAttribute::ReadIoSize(f0) => {
                u32::lemma_round_trip(f0, rest);
            },
            ThresholdAttribute::WriteIoSize(f0) => {
                u32::lemma_round_trip(f0, rest);
            },
        }
    }

    /// The encoding of a value begins with its discriminant, big-endian.
    pub proof fn lemma_wire_leads_with_tag(m: ThresholdAttribute)
        ensures
            <ThresholdAttribute as Xdr>::wire(m).len() >= 4,
            <ThresholdAttribute as Xdr>::wire(m).take(4) == wire_u32(Self::tag(m)),
    {
        reveal(<ThresholdAttribute as Xdr>::wire);
        reveal(wire_u32);
        assert((wire_u32(Self::tag(m)) + Self::wire_payload(m)).take(4) =~= wire_u32(Self::tag(m)));
    }

    /// The discriminant of a value.
    pub fn tag_of(&self) -> (t: u32)
        ensures
            t == Self::tag(self.model()),
    {
        match self {
            ThresholdAttribute::ReadSize(..) => 0,
            ThresholdAttribute::WriteSize(..) => 1,
            ThresholdAttribute::ReadIoSize(..) => 2,
            ThresholdAttribute::WriteIoSize(..) => 3,
        }
    }

    /// Appends what follows the discriminant in the encoding of `self`.
    pub fn encode_payload(&self, out: &mut Vec<u8>) -> (r: Result<(), EncodeError>)
        ensures
            r is Ok <==> <ThresholdAttribute as Xdr>::wf(self.model()),
            r is Ok ==> final(out)@ == old(out)@ + Self::wire_payload(self.model()),
    {
        proof {
            reveal(ThresholdAttribute::wire_payload);
        }
        match self {
            ThresholdAttribute::ReadSize(f0) => {
                let _ = f0.encode(out);
            },
            ThresholdAttribute::WriteSize(f0) => {
                let _ = f0.encode(out);
            },
            ThresholdAttribute::ReadIoSize(f0) => {
                let _ = f0.encode(out);
            },
            ThresholdAttribute::WriteIoSize(f0) => {
                let _ = f0.encode(out);
            },
        }
        Ok(())
    }

    /// Decodes the payload of the value with the discriminant `tag`.
    pub fn decode_payload<'a>(
        tag: u32,
        input: &'a [u8],
    ) -> (r: Result<(ThresholdAttribute, &'a [u8]), XdrError>)
        ensures
            match r {
                Ok((v, rest)) => {
                    Self::parse_payload(tag, input@)
                        == Ok::<(ThresholdAttribute, Seq<u8>), XdrError>((v.model(), rest@))
                },
                Err(e) => {
                    Self::parse_payload(tag, input@)
                        == Err::<(ThresholdAttribute, Seq<u8>), XdrError>(e)
                },
            },
    {
        proof {
            reveal(ThresholdAttribute::parse_payload);
        }
        if tag == 0 {
            let (f0, cur) = u32::decode(input)?;
            Ok((ThresholdAttribute::ReadSize(f0), cur))
        } else if tag == 1 {
            let (f0, cur) = u32::decode(input)?;
            Ok((ThresholdAttribute::WriteSize(f0), cur))
        } else if tag == 2 {
            let (f0, cur) = u32::decode(input)?;
            Ok((ThresholdAttribute::ReadIoSize(f0), cur))
        } else if tag == 3 {
            let (f0, cur) = u32::decode(input)?;
            Ok((ThresholdAttribute::WriteIoSize(f0), cur))
        } else {
            Err(XdrError::BadDiscriminant("ThresholdAttribute", tag))
        }
    }
}

impl Xdr for ThresholdAttribute {
    type Model = ThresholdAttribute;

    open spec fn model(&self) -> ThresholdAttribute {
        *self
    }

    open spec fn wf(m: ThresholdAttribute) -> bool {
        true
    }

    #[verifier::opaque]
    open spec fn wire(m: ThresholdAttribute) -> Seq<u8> {
        wire_u32(Self::tag(m)) + Self::wire_payload(m)
    }

    #[verifier::opaque]
    open spec fn parse(s: Seq<u8>) -> Result<(ThresholdAttribute, Seq<u8>), XdrError> {
        match parse_u32(s) {
            Ok((tag, r)) => Self::parse_payload(tag, r),
            Err(e) => Err(e),
        }
    }

    proof fn lemma_round_trip(m: ThresholdAttribute, rest: Seq<u8>) {
        reveal(<ThresholdAttribute as Xdr>::wire);
        reveal(<ThresholdAttribute as Xdr>::parse);
        lemma_concat_assoc(wire_u32(Self::tag(m)), Self::wire_payload(m), rest);
        lemma_u32_round_trip(Self::tag(m), Self::wire_payload(m) + rest);
        Self::lemma_payload_round_trip(m, rest);
    }

    fn encode(&self, out: &mut Vec<u8>) -> (r: Result<(), EncodeError>) {
        proof {
            reveal(<ThresholdAttribute as Xdr>::wire);
        }
        let tag = self.tag_of();
        let _ = tag.encode(out);
        self.encode_payload(out)?;
        proof {
            lemma_concat_assoc(old(out)@, wire_u32(tag), Self::wire_payload(self.model()));
        }
        Ok(())
    }

    fn decode<'a>(input: &'a [u8]) -> (r: Result<(ThresholdAttribute, &'a [u8]), XdrError>) {
        proof {
            reveal(<ThresholdAttribute as Xdr>::parse);
        }
        let (tag, cur) = u32::decode(input)?;
        Self::decode_payload(tag, cur)
    }
}

impl ToId<ThresholdAttributeId> for ThresholdAttribute {
    open spec fn id_of(&self) -> ThresholdAttributeId {
        match self {
            ThresholdAttribute::ReadSize(..) => ThresholdAttributeId::ReadSize,
            ThresholdAttribute::WriteSize(..) => ThresholdAttributeId::WriteSize,
            ThresholdAttribute::ReadIoSize(..) => ThresholdAttributeId::ReadIoSize,
            ThresholdAttribute::WriteIoSize(..) => ThresholdAttributeId::WriteIoSize,
        }
    }

    /// The identifier that an attribute value belongs to: the one whose
    /// number is the discriminant of the value.
    fn to_id(&self) -> (id: ThresholdAttributeId)
        ensures
            id.id() == ThresholdAttribute::tag(self.model()),
    {
        match self {
            ThresholdAttribute::ReadSize(..) => ThresholdAttributeId::ReadSize,
            ThresholdAttribute::WriteSize(..) => ThresholdAttributeId::WriteSize,
            ThresholdAttribute::ReadIoSize(..) => ThresholdAttributeId::ReadIoSize,
            ThresholdAttribute::WriteIoSize(..) => ThresholdAttributeId::WriteIoSize,
        }
    }
}

impl Attribute<ThresholdAttributeId> for ThresholdAttribute {
    open spec fn tag(m: ThresholdAttribute) -> u32 {
        ThresholdAttribute::tag(m)
    }

    open spec fn wire_payload(m: ThresholdAttribute) -> Seq<u8> {
        ThresholdAttribute::wire_payload(m)
    }

    open spec fn parse_payload(
        tag: u32,
        s: Seq<u8>,
    ) -> Result<(ThresholdAttribute, Seq<u8>), XdrError> {
        ThresholdAttribute::parse_payload(tag, s)
    }

    proof fn lemma_key(&self) {
    }

    proof fn lemma_tag_is_key(m: ThresholdAttribute) {
    }

    proof fn lemma_parse_payload_tag(tag: u32, s: Seq<u8>) {
        reveal(ThresholdAttribute::parse_payload);
    }

    proof fn lemma_payload_round_trip(m: ThresholdAttribute, rest: Seq<u8>) {
        ThresholdAttribute::lemma_payload_round_trip(m, rest);
    }

    fn encode_payload(&self, out: &mut Vec<u8>) -> (r: Result<(), EncodeError>) {
        ThresholdAttribute::encode_payload(self, out)
    }

    fn decode_payload<'a>(
        key: ThresholdAttributeId,
        input: &'a [u8],
    ) -> (r: Result<(ThresholdAttribute, &'a [u8]), XdrError>) {
        ThresholdAttribute::decode_payload(key.to_u32(), input)
    }
}

impl Payload<ThresholdAttribute> for u32 {
    open spec fn payload_of(v: ThresholdAttribute) -> Option<Self> {
        match v {
            ThresholdAttribute::ReadSize(x) => Some(x),
            ThresholdAttribute::WriteSize(x) => Some(x),
            ThresholdAttribute::ReadIoSize(x) => Some(x),
            ThresholdAttribute::WriteIoSize(x) => Some(x),
        }
    }

    fn from_value(v: ThresholdAttribute) -> (r: Option<Self>) {
        match v {
            ThresholdAttribute::ReadSize(x) => Some(x),
            ThresholdAttribute::WriteSize(x) => Some(x),
            ThresholdAttribute::ReadIoSize(x) => Some(x),
            ThresholdAttribute::WriteIoSize(x) => Some(x),
        }
    }

    fn from_value_ref<'a>(v: &'a ThresholdAttribute) -> (r: Option<&'a Self>) {
        match v {
            ThresholdAttribute::ReadSize(x) => Some(x),
            ThresholdAttribute::WriteSize(x) => Some(x),
            ThresholdAttribute::ReadIoSize(x) => Some(x),
            ThresholdAttribute::WriteIoSize(x) => Some(x),
        }
    }
}

#[derive(Clone, Debug, PartialEq, Eq)]
pub struct ThresholdItem {
    pub layout_type: LayoutType,
    pub hintset: EnumMap<ThresholdAttributeId, ThresholdAttribute>,
}

/// What a [`ThresholdItem`] stands for.
pub struct ThresholdItemModel {
    pub layout_type: LayoutType,
    pub hintset: Seq<ThresholdAttribute>,
}

impl Xdr for ThresholdItem {
    type Model = ThresholdItemModel;

    #[verifier::opaque]
    open spec fn model(&self) -> ThresholdItemModel {
        ThresholdItemModel { layout_type: self.layout_type.model(), hintset: self.hintset.model() }
    }

    #[verifier::opaque]
    open spec fn wf(m: ThresholdItemModel) -> bool {
        &&& LayoutType::wf(m.layout_type)
        &&& EnumMap::<ThresholdAttributeId, ThresholdAttribute>::wf(m.hintset)
    }

    #[verifier::opaque]
    open spec fn wire(m: ThresholdItemModel) -> Seq<u8> {
        LayoutType::wire(m.layout_type)
            + EnumMap::<ThresholdAttributeId, ThresholdAttribute>::wire(m.hintset)
    }

    #[verifier::opaque]
    open spec fn parse(s: Seq<u8>) -> Result<(ThresholdItemModel, Seq<u8>), XdrError> {
        match LayoutType::parse(s) {
            Err(e) => Err(e),
            Ok(
                (layout_type, s1),
            ) => match EnumMap::<ThresholdAttributeId, ThresholdAttribute>::parse(s1) {
                Err(e) => Err(e),
                Ok((hintset, s2)) => Ok((ThresholdItemModel { layout_type, hintset }, s2)),
            },
        }
    }

    proof fn lemma_round_trip(m: ThresholdItemModel, rest: Seq<u8>) {
        reveal(<ThresholdItem as Xdr>::wf);
        reveal(<ThresholdItem as Xdr>::wire);
        reveal(<ThresholdItem as Xdr>::parse);
        let w1 = LayoutType::wire(m.layout_type);
        let w2 = EnumMap::<ThresholdAttributeId, ThresholdAttribute>::wire(m.hintset);
        let r2 = rest;
        let r1 = w2 + r2;
        lemma_concat_assoc(w1, w2, r2);
        LayoutType::lemma_round_trip(m.layout_type, r1);
        EnumMap::<ThresholdAttributeId, ThresholdAttribute>::lemma_round_trip(m.hintset, r2);
    }

    fn encode(&self, out: &mut Vec<u8>) -> (r: Result<(), EncodeError>) {
        proof {
            reveal(<ThresholdItem as Xdr>::model);
            reveal(<ThresholdItem as Xdr>::wf);
            reveal(<ThresholdItem as Xdr>::wire);
        }
        let ghost m = self.model();
        let ghost w1 = LayoutType::wire(m.layout_type);
        let ghost w2 = EnumMap::<ThresholdAttributeId, ThresholdAttribute>::wire(m.hintset);
        self.layout_type.encode(out)?;
        self.hintset.encode(out)?;
        proof {
            lemma_concat_assoc(old(out)@, w1, w2);
        }
        Ok(())
    }

    fn decode<'a>(input: &'a [u8]) -> (r: Result<(ThresholdItem, &'a [u8]), XdrError>) {
        proof {
            reveal(<ThresholdItem as Xdr>::model);
            reveal(<ThresholdItem as Xdr>::parse);
        }
        let (layout_type, cur) = LayoutType::decode(input)?;
        let (hintset, cur) = EnumMap::<ThresholdAttributeId, ThresholdAttribute>::decode(cur)?;
        Ok((ThresholdItem { layout_type, hintset }, cur))
    }
}

#[derive(Clone, Debug, PartialEq, Eq)]
pub struct MdsThreshold {
    pub hints: Vec<ThresholdItem>,
}

/// What a [`MdsThreshold`] stands for.
pub struct MdsThresholdModel {
    pub hints: Seq<ThresholdItemModel>,
}

impl Xdr for MdsThreshold {
    type Model = MdsThresholdModel;

    #[verifier::opaque]
    open spec fn model(&self) -> MdsThresholdModel {
        MdsThresholdModel { hints: self.hints.model() }
    }

    #[verifier::opaque]
    open spec fn wf(m: MdsThresholdModel) -> bool {
        &&& Vec::<ThresholdItem>::wf(m.hints)
    }

    #[verifier::opaque]
    open spec fn wire(m: MdsThresholdModel) -> Seq<u8> {
        Vec::<ThresholdItem>::wire(m.hints)
    }

    #[verifier::opaque]
    open spec fn parse(s: Seq<u8>) -> Result<(MdsThresholdModel, Seq<u8>), XdrError> {
        match Vec::<ThresholdItem>::parse(s) {
            Err(e) => Err(e),
            Ok((hints, s1)) => Ok((MdsThresholdModel { hints }, s1)),
        }
    }

    proof fn lemma_round_trip(m: MdsThresholdModel, rest: Seq<u8>) {
        reveal(<MdsThreshold as Xdr>::wf);
        reveal(<MdsThreshold as Xdr>::wire);
        reveal(<MdsThreshold as Xdr>::parse);
        Vec::<ThresholdItem>::lemma_round_trip(m.hints, rest);
    }

    fn encode(&self, out: &mut Vec<u8>) -> (r: Result<(), EncodeError>) {
        proof {
            reveal(<MdsThreshold as Xdr>::model);
            reveal(<MdsThreshold as Xdr>::wf);
            reveal(<MdsThreshold as Xdr>::wire);
        }
        self.hints.encode(out)?;
        Ok(())
    }

    fn decode<'a>(input: &'a [u8]) -> (r: Result<(MdsThreshold, &'a [u8]), XdrError>) {
        proof {
            reveal(<MdsThreshold as Xdr>::model);
            reveal(<MdsThreshold as Xdr>::parse);
        }
        let (hints, cur) = Vec::<ThresholdItem>::decode(input)?;
        Ok((MdsThreshold { hints }, cur))
    }
}

#[derive(Clone, Debug, PartialEq, Eq)]
pub struct RetentionGet {
    pub duration: u64,
    pub begin_time: Option<Time>,
}

/// What a [`RetentionGet`] stands for.
pub struct RetentionGetModel {
    pub duration: u64,
    pub begin_time: Option<Time>,
}

impl Xdr for RetentionGet {
    type Model = RetentionGetModel;

    #[verifier::opaque]
    open spec fn model(&self) -> RetentionGetModel {
        RetentionGetModel { duration: self.duration.model(), begin_time: self.begin_time.model() }
    }

    #[verifier::opaque]
    open spec fn wf(m: RetentionGetModel) -> bool {
        &&& Option::<Time>::wf(m.begin_time)
    }

    #[verifier::opaque]
    open spec fn wire(m: RetentionGetModel) -> Seq<u8> {
        u64::wire(m.duration) + Option::<Time>::wire(m.begin_time)
    }

    #[verifier::opaque]
    open spec fn parse(s: Seq<u8>) -> Result<(RetentionGetModel, Seq<u8>), XdrError> {
        match u64::parse(s) {
            Err(e) => Err(e),
            Ok((duration, s1)) => match Option::<Time>::parse(s1) {
                Err(e) => Err(e),
                Ok((begin_time, s2)) => Ok((RetentionGetModel { duration, begin_time }, s2)),
            },
        }
    }

    proof fn lemma_round_trip(m: RetentionGetModel, rest: Seq<u8>) {
        reveal(<RetentionGet as Xdr>::wf);
        reveal(<RetentionGet as Xdr>::wire);
        reveal(<RetentionGet as Xdr>::parse);
        let w1 = u64::wire(m.duration);
        let w2 = Option::<Time>::wire(m.begin_time);
        let r2 = rest;
        let r1 = w2 + r2;
        lemma_concat_assoc(w1, w2, r2);
        u64::lemma_round_trip(m.duration, r1);
        Option::<Time>::lemma_round_trip(m.begin_time, r2);
    }

    fn encode(&self, out: &mut Vec<u8>) -> (r: Result<(), EncodeError>) {
        proof {
            reveal(<RetentionGet as Xdr>::model);
            reveal(<RetentionGet as Xdr>::wf);
            reveal(<RetentionGet as Xdr>::wire);
        }
        let ghost m = self.model();
        let ghost w1 = u64::wire(m.duration);
        let ghost w2 = Option::<Time>::wire(m.begin_time);
        let _ = self.duration.encode(out);
        self.begin_time.encode(out)?;
        proof {
            lemma_concat_assoc(old(out)@, w1, w2);
        }
        Ok(())
    }

    fn decode<'a>(input: &'a [u8]) -> (r: Result<(RetentionGet, &'a [u8]), XdrError>) {
        proof {
            reveal(<RetentionGet as Xdr>::model);
            reveal(<RetentionGet as Xdr>::parse);
        }
        let (duration, cur) = u64::decode(input)?;
        let (begin_time, cur) = Option::<Time>::decode(cur)?;
        Ok((RetentionGet { duration, begin_time }, cur))
    }
}

#[derive(Clone, Debug, PartialEq, Eq)]
pub struct RetentionSet {
    pub enable: bool,
    pub duration: Option<u64>,
}

/// What a [`RetentionSet`] stands for.
pub struct RetentionSetModel {
    pub enable: bool,
    pub duration: Option<u64>,
}

impl Xdr for RetentionSet {
    type Model = RetentionSetModel;

    #[verifier::opaque]
    open spec fn model(&self) -> RetentionSetModel {
        RetentionSetModel { enable: self.enable.model(), duration: self.duration.model() }
    }

    #[verifier::opaque]
    open spec fn wf(m: RetentionSetModel) -> bool {
        &&& Option::<u64>::wf(m.duration)
    }

    #[verifier::opaque]
    open spec fn wire(m: RetentionSetModel) -> Seq<u8> {
        bool::wire(m.enable) + Option::<u64>::wire(m.duration)
    }

    #[verifier::opaque]
    open spec fn parse(s: Seq<u8>) -> Result<(RetentionSetModel, Seq<u8>), XdrError> {
        match bool::parse(s) {
            Err(e) => Err(e),
            Ok((enable, s1)) => match Option::<u64>::parse(s1) {
                Err(e) => Err(e),
                Ok((duration, s2)) => Ok((RetentionSetModel { enable, duration }, s2)),
            },
        }
    }

    proof fn lemma_round_trip(m: RetentionSetModel, rest: Seq<u8>) {
        reveal(<RetentionSet as Xdr>::wf);
        reveal(<RetentionSet as Xdr>::wire);
        reveal(<RetentionSet as Xdr>::parse);
        let w1 = bool::wire(m.enable);
        let w2 = Option::<u64>::wire(m.duration);
        let r2 = rest;
        let r1 = w2 + r2;
        lemma_concat_assoc(w1, w2, r2);
        bool::lemma_round_trip(m.enable, r1);
        Option::<u64>::lemma_round_trip(m.duration, r2);
    }

    fn encode(&self, out: &mut Vec<u8>) -> (r: Result<(), EncodeError>) {
        proof {
            reveal(<RetentionSet as Xdr>::model);
            reveal(<RetentionSet as Xdr>::wf);
            reveal(<RetentionSet as Xdr>::wire);
        }
        let ghost m = self.model();
        let ghost w1 = bool::wire(m.enable);
        let ghost w2 = Option::<u64>::wire(m.duration);
        let _ = self.enable.encode(out);
        self.duration.encode(out)?;
        proof {
            lemma_concat_assoc(old(out)@, w1, w2);
        }
        Ok(())
    }

    fn decode<'a>(input: &'a [u8]) -> (r: Result<(RetentionSet, &'a [u8]), XdrError>) {
        proof {
            reveal(<RetentionSet as Xdr>::model);
            reveal(<RetentionSet as Xdr>::parse);
        }
        let (enable, cur) = bool::decode(input)?;
        let (duration, cur) = Option::<u64>::decode(cur)?;
        Ok((RetentionSet { enable, duration }, cur))
    }
}

/// An attribute of a file together with its value; the identifier is the
/// discriminant.
#[derive(Clone, Debug, PartialEq, Eq)]
pub enum FileAttribute {
    SupportedAttrs(EnumSet<FileAttributeId>),
    Type(FileType),
    FhExpireType(u32),
    Change(Change),
    Size(u64),
    LinkSupport(bool),
    SymlinkSupport(bool),
    NamedAttr(bool),
    FsId(FsId),
    UniqueHandles(bool),
    LeaseTime(Lease),
    ReadDirAttrError(StatusResult<()>),
    Acl(Acl),
    AclSupport(u32),
    Archive(bool),
    CanSetTime(bool),
    CaseInsensitive(bool),
    CasePreserving(bool),
    ChownRestricted(bool),
    FileHandle(FileHandle),
    FileId(FileId),
    FilesAvail(u64),
    FilesFree(u64),
    FilesTotal(u64),
    FsLocations(FsLocations),
    Homogeneous(bool),
    MaxFileSize(u64),
    MaxLink(u32),
    MaxName(u32),
    MaxRead(u64),
    MaxWrite(u64),
    MimeType(String),
    Mode(Mode),
    NoTrunc(bool),
    NumLinks(u32),
    Owner(String),
    OwnerGroup(String),
    QuotaAvailHard(u64),
    QuotaAvailSoft(u64),
    QuotaUsed(u64),
    RawDev(DeviceData),
    SpaceAvail(u64),
    SpaceFree(u64),
    SpaceTotal(u64),
    SpaceUsed(u64),
    System(bool),
    TimeAccess(Time),
    TimeAccessSet(SetTime),
    TimeBackup(Time),
    TimeCreate(Time),
    TimeDelta(Time),
    TimeMetadata(Time),
    TimeModify(Time),
    TimeModifySet(SetTime),
    MountedOnFileid(FileId),
    DirNotifDelay(Time),
    DirentNotifDelay(Time),
    Dacl(AclWithFlags),
    Sacl(AclWithFlags),
    ChangePolicy(ChangePolicy),
    FsStatus(FsStatus),
    FsLayoutType(Vec<LayoutType>),
    LayoutHint(LayoutHint),
    LayoutType(Vec<LayoutType>),
    LayoutBlksize(u32),
    LayoutAlignment(u32),
    FsLocationsInfo(FsLocationsInfo),
    MdsThreshold(MdsThreshold),
    RetentionGet(RetentionGet),
    RetentionSet(RetentionSet),
    RetentevtGet(RetentionGet),
    RetentevtSet(RetentionSet),
    RetentionHold(u64),
    ModeSetMasked(ModeMasked),
    SupportedAttrsExclusiveCreate(EnumSet<FileAttributeId>),
    FsCharsetCap(u32),
}

/// What a [`FileAttribute`] stands for.
pub enum FileAttributeModel {
    SupportedAttrs(Seq<FileAttributeId>),
    Type(FileType),
    FhExpireType(u32),
    Change(Change),
    Size(u64),
    LinkSupport(bool),
    SymlinkSupport(bool),
    NamedAttr(bool),
    FsId(FsId),
    UniqueHandles(bool),
    LeaseTime(Lease),
    ReadDirAttrError(StatusResult<()>),
    Acl(AclModel),
    AclSupport(u32),
    Archive(bool),
    CanSetTime(bool),
    CaseInsensitive(bool),
    CasePreserving(bool),
    ChownRestricted(bool),
    FileHandle(FileHandleModel),
    FileId(FileId),
    FilesAvail(u64),
    FilesFree(u64),
    FilesTotal(u64),
    FsLocations(FsLocationsModel),
    Homogeneous(bool),
    MaxFileSize(u64),
    MaxLink(u32),
    MaxName(u32),
    MaxRead(u64),
    MaxWrite(u64),
    MimeType(Seq<char>),
    Mode(Mode),
    NoTrunc(bool),
    NumLinks(u32),
    Owner(Seq<char>),
    OwnerGroup(Seq<char>),
    QuotaAvailHard(u64),
    QuotaAvailSoft(u64),
    QuotaUsed(u64),
    RawDev(DeviceData),
    SpaceAvail(u64),
    SpaceFree(u64),
    SpaceTotal(u64),
    SpaceUsed(u64),
    System(bool),
    TimeAccess(Time),
    TimeAccessSet(SetTime),
    TimeBackup(Time),
    TimeCreate(Time),
    TimeDelta(Time),
    TimeMetadata(Time),
    TimeModify(Time),
    TimeModifySet(SetTime),
    MountedOnFileid(FileId),
    DirNotifDelay(Time),
    DirentNotifDelay(Time),
    Dacl(AclWithFlags),
    Sacl(AclWithFlags),
    ChangePolicy(ChangePolicy),
    FsStatus(FsStatusModel),
    FsLayoutType(Seq<LayoutType>),
    LayoutHint(LayoutHintModel),
    LayoutType(Seq<LayoutType>),
    LayoutBlksize(u32),
    LayoutAlignment(u32),
    FsLocationsInfo(FsLocationsInfoModel),
    MdsThreshold(MdsThresholdModel),
    RetentionGet(RetentionGetModel),
    RetentionSet(RetentionSetModel),
    RetentevtGet(RetentionGetModel),
    RetentevtSet(RetentionSetModel),
    RetentionHold(u64),
    ModeSetMasked(ModeMasked),
    SupportedAttrsExclusiveCreate(Seq<FileAttributeId>),
    FsCharsetCap(u32),
}

impl FileAttribute {
    /// The discriminant that leads the encoding of a value.
    pub open spec fn tag(m: FileAttributeModel) -> u32 {
        match m {
            FileAttributeModel::SupportedAttrs(..) => 0,
            FileAttributeModel::Type(..) => 1,
            FileAttributeModel::FhExpireType(..) => 2,
            FileAttributeModel::Change(..) => 3,
            FileAttributeModel::Size(..) => 4,
            FileAttributeModel::LinkSupport(..) => 5,
            FileAttributeModel::SymlinkSupport(..) => 6,
            FileAttributeModel::NamedAttr(..) => 7,
            FileAttributeModel::FsId(..) => 8,
            FileAttributeModel::UniqueHandles(..) => 9,
            FileAttributeModel::LeaseTime(..) => 10,
            FileAttributeModel::ReadDirAttrError(..) => 11,
            FileAttributeModel::Acl(..) => 12,
            FileAttributeModel::AclSupport(..) => 13,
            FileAttributeModel::Archive(..) => 14,
            FileAttributeModel::CanSetTime(..) => 15,
            FileAttributeModel::CaseInsensitive(..) => 16,
            FileAttributeModel::CasePreserving(..) => 17,
            FileAttributeModel::ChownRestricted(..) => 18,
            FileAttributeModel::FileHandle(..) => 19,
            FileAttributeModel::FileId(..) => 20,
            FileAttributeModel::FilesAvail(..) => 21,
            FileAttributeModel::FilesFree(..) => 22,
            FileAttributeModel::FilesTotal(..) => 23,
            FileAttributeModel::FsLocations(..) => 24,
            FileAttributeModel::Homogeneous(..) => 26,
            FileAttributeModel::MaxFileSize(..) => 27,
            FileAttributeModel::MaxLink(..) => 28,
            FileAttributeModel::MaxName(..) => 29,
            FileAttributeModel::MaxRead(..) => 30,
            FileAttributeModel::MaxWrite(..) => 31,
            FileAttributeModel::MimeType(..) => 32,
            FileAttributeModel::Mode(..) => 33,
            FileAttributeModel::NoTrunc(..) => 34,
            FileAttributeModel::NumLinks(..) => 35,
            FileAttributeModel::Owner(..) => 36,
            FileAttributeModel::OwnerGroup(..) => 37,
            FileAttributeModel::QuotaAvailHard(..) => 38,
            FileAttributeModel::QuotaAvailSoft(..) => 39,
            FileAttributeModel::QuotaUsed(..) => 40,
            FileAttributeModel::RawDev(..) => 41,
            FileAttributeModel::SpaceAvail(..) => 42,
            FileAttributeModel::SpaceFree(..) => 43,
            FileAttributeModel::SpaceTotal(..) => 44,
            FileAttributeModel::SpaceUsed(..) => 45,
            FileAttributeModel::System(..) => 46,
            FileAttributeModel::TimeAccess(..) => 47,
            FileAttributeModel::TimeAccessSet(..) => 48,
            FileAttributeModel::TimeBackup(..) => 49,
            FileAttributeModel::TimeCreate(..) => 50,
            FileAttributeModel::TimeDelta(..) => 51,
            FileAttributeModel::TimeMetadata(..) => 52,
            FileAttributeModel::TimeModify(..) => 53,
            FileAttributeModel::TimeModifySet(..) => 54,
            FileAttributeModel::MountedOnFileid(..) => 55,
            FileAttributeModel::DirNotifDelay(..) => 56,
            FileAttributeModel::DirentNotifDelay(..) => 57,
            FileAttributeModel::Dacl(..) => 58,
            FileAttributeModel::Sacl(..) => 59,
            FileAttributeModel::ChangePolicy(..) => 60,
            FileAttributeModel::FsStatus(..) => 61,
            FileAttributeModel::FsLayoutType(..) => 62,
            FileAttributeModel::LayoutHint(..) => 63,
            FileAttributeModel::LayoutType(..) => 64,
            FileAttributeModel::LayoutBlksize(..) => 65,
            FileAttributeModel::LayoutAlignment(..) => 66,
            FileAttributeModel::FsLocationsInfo(..) => 67,
            FileAttributeModel::MdsThreshold(..) => 68,
            FileAttributeModel::RetentionGet(..) => 69,
            FileAttributeModel::RetentionSet(..) => 70,
            FileAttributeModel::RetentevtGet(..) => 71,
            FileAttributeModel::RetentevtSet(..) => 72,
            FileAttributeModel::RetentionHold(..) => 73,
            FileAttributeModel::ModeSetMasked(..) => 74,
            FileAttributeModel::SupportedAttrsExclusiveCreate(..) => 75,
            FileAttributeModel::FsCharsetCap(..) => 76,
        }
    }

    /// What follows the discriminant in the encoding of a value.
    #[verifier::opaque]
    pub open spec fn wire_payload(m: FileAttributeModel) -> Seq<u8> {
        match m {
            FileAttributeModel::SupportedAttrs(f0) => EnumSet::<FileAttributeId>::wire(f0),
            FileAttributeModel::Type(f0) => FileType::wire(f0),
            FileAttributeModel::FhExpireType(f0) => u32::wire(f0),
            FileAttributeModel::Change(f0) => Change::wire(f0),
            FileAttributeModel::Size(f0) => u64::wire(f0),
            FileAttributeModel::LinkSupport(f0) => bool::wire(f0),
            FileAttributeModel::SymlinkSupport(f0) => bool::wire(f0),
            FileAttributeModel::NamedAttr(f0) => bool::wire(f0),
            FileAttributeModel::FsId(f0) => FsId::wire(f0),
            FileAttributeModel::UniqueHandles(f0) => bool::wire(f0),
            FileAttributeModel::LeaseTime(f0) => Lease::wire(f0),
            FileAttributeModel::ReadDirAttrError(f0) => StatusResult::<()>::wire(f0),
            FileAttributeModel::Acl(f0) => Acl::wire(f0),
            FileAttributeModel::AclSupport(f0) => u32::wire(f0),
            FileAttributeModel::Archive(f0) => bool::wire(f0),
            FileAttributeModel::CanSetTime(f0) => bool::wire(f0),
            FileAttributeModel::CaseInsensitive(f0) => bool::wire(f0),
            FileAttributeModel::CasePreserving(f0) => bool::wire(f0),
            FileAttributeModel::ChownRestricted(f0) => bool::wire(f0),
            FileAttributeModel::FileHandle(f0) => FileHandle::wire(f0),
            FileAttributeModel::FileId(f0) => FileId::wire(f0),
            FileAttributeModel::FilesAvail(f0) => u64::wire(f0),
            FileAttributeModel::FilesFree(f0) => u64::wire(f0),
            FileAttributeModel::FilesTotal(f0) => u64::wire(f0),
            FileAttributeModel::FsLocations(f0) => FsLocations::wire(f0),
            FileAttributeModel::Homogeneous(f0) => bool::wire(f0),
            FileAttributeModel::MaxFileSize(f0) => u64::wire(f0),
            FileAttributeModel::MaxLink(f0) => u32::wire(f0),
            FileAttributeModel::MaxName(f0) => u32::wire(f0),
            FileAttributeModel::MaxRead(f0) => u64::wire(f0),
            FileAttributeModel::MaxWrite(f0) => u64::wire(f0),
            FileAttributeModel::MimeType(f0) => String::wire(f0),
            FileAttributeModel::Mode(f0) => Mode::wire(f0),
            FileAttributeModel::NoTrunc(f0) => bool::wire(f0),
            FileAttributeModel::NumLinks(f0) => u32::wire(f0),
            FileAttributeModel::Owner(f0) => String::wire(f0),
            FileAttributeModel::OwnerGroup(f0) => String::wire(f0),
            FileAttributeModel::QuotaAvailHard(f0) => u64::wire(f0),
            FileAttributeModel::QuotaAvailSoft(f0) => u64::wire(f0),
            FileAttributeModel::QuotaUsed(f0) => u64::wire(f0),
            FileAttributeModel::RawDev(f0) => DeviceData::wire(f0),
            FileAttributeModel::SpaceAvail(f0) => u64::wire(f0),
            FileAttributeModel::SpaceFree(f0) => u64::wire(f0),
            FileAttributeModel::SpaceTotal(f0) => u64::wire(f0),
            FileAttributeModel::SpaceUsed(f0) => u64::wire(f0),
            FileAttributeModel::System(f0) => bool::wire(f0),
            FileAttributeModel::TimeAccess(f0) => Time::wire(f0),
            FileAttributeModel::TimeAccessSet(f0) => SetTime::wire(f0),
            FileAttributeModel::TimeBackup(f0) => Time::wire(f0),
            FileAttributeModel::TimeCreate(f0) => Time::wire(f0),
            FileAttributeModel::TimeDelta(f0) => Time::wire(f0),
            FileAttributeModel::TimeMetadata(f0) => Time::wire(f0),
            FileAttributeModel::TimeModify(f0) => Time::wire(f0),
            FileAttributeModel::TimeModifySet(f0) => SetTime::wire(f0),
            FileAttributeModel::MountedOnFileid(f0) => FileId::wire(f0),
            FileAttributeModel::DirNotifDelay(f0) => Time::wire(f0),
            FileAttributeModel::DirentNotifDelay(f0) => Time::wire(f0),
            FileAttributeModel::Dacl(f0) => AclWithFlags::wire(f0),
            FileAttributeModel::Sacl(f0) => AclWithFlags::wire(f0),
            FileAttributeModel::ChangePolicy(f0) => ChangePolicy::wire(f0),
            FileAttributeModel::FsStatus(f0) => FsStatus::wire(f0),
            FileAttributeModel::FsLayoutType(f0) => Vec::<LayoutType>::wire(f0),
            FileAttributeModel::LayoutHint(f0) => LayoutHint::wire(f0),
            FileAttributeModel::LayoutType(f0) => Vec::<LayoutType>::wire(f0),
            FileAttributeModel::LayoutBlksize(f0) => u32::wire(f0),
            FileAttributeModel::LayoutAlignment(f0) => u32::wire(f0),
            FileAttributeModel::FsLocationsInfo(f0) => FsLocationsInfo::wire(f0),
            FileAttributeModel::MdsThreshold(f0) => MdsThreshold::wire(f0),
            FileAttributeModel::RetentionGet(f0) => RetentionGet::wire(f0),
            FileAttributeModel::RetentionSet(f0) => RetentionSet::wire(f0),
            FileAttributeModel::RetentevtGet(f0) => RetentionGet::wire(f0),
            FileAttributeModel::RetentevtSet(f0) => RetentionSet::wire(f0),
            FileAttributeModel::RetentionHold(f0) => u64::wire(f0),
            FileAttributeModel::ModeSetMasked(f0) => ModeMasked::wire(f0),
            FileAttributeModel::SupportedAttrsExclusiveCreate(f0) => {
                EnumSet::<FileAttributeId>::wire(f0)
            },
            FileAttributeModel::FsCharsetCap(f0) => u32::wire(f0),
        }
    }

    /// The value with the discriminant `tag` whose payload is at the front of `s`.
    #[verifier::opaque]
    pub open spec fn parse_payload(
        tag: u32,
        s: Seq<u8>,
    ) -> Result<(FileAttributeModel, Seq<u8>), XdrError> {
        if tag == 0 {
            match EnumSet::<FileAttributeId>::parse(s) {
                Err(e) => Err(e),
                Ok((f0, s1)) => Ok((FileAttributeModel::SupportedAttrs(f0), s1)),
            }
        } else if tag == 1 {
            match FileType::parse(s) {
                Err(e) => Err(e),
                Ok((f0, s1)) => Ok((FileAttributeModel::Type(f0), s1)),
            }
        } else if tag == 2 {
            match u32::parse(s) {
                Err(e) => Err(e),
                Ok((f0, s1)) => Ok((FileAttributeModel::FhExpireType(f0), s1)),
            }
        } else if tag == 3 {
            match Change::parse(s) {
                Err(e) => Err(e),
                Ok((f0, s1)) => Ok((FileAttributeModel::Change(f0), s1)),
            }
        } else if tag == 4 {
            match u64::parse(s) {
                Err(e) => Err(e),
                Ok((f0, s1)) => Ok((FileAttributeModel::Size(f0), s1)),
            }
        } else if tag == 5 {
            match bool::parse(s) {
                Err(e) => Err(e),
                Ok((f0, s1)) => Ok((FileAttributeModel::LinkSupport(f0), s1)),
            }
        } else if tag == 6 {
            match bool::parse(s) {
                Err(e) => Err(e),
                Ok((f0, s1)) => Ok((FileAttributeModel::SymlinkSupport(f0), s1)),
            }
        } else if tag == 7 {
            match bool::parse(s) {
                Err(e) => Err(e),
                Ok((f0, s1)) => Ok((FileAttributeModel::NamedAttr(f0), s1)),
            }
        } else if tag == 8 {
            match FsId::parse(s) {
                Err(e) => Err(e),
                Ok((f0, s1)) => Ok((FileAttributeModel::FsId(f0), s1)),
            }
        } else if tag == 9 {
            match bool::parse(s) {
                Err(e) => Err(e),
                Ok((f0, s1)) => Ok((FileAttributeModel::UniqueHandles(f0), s1)),
            }
        } else if tag == 10 {
            match Lease::parse(s) {
                Err(e) => Err(e),
                Ok((f0, s1)) => Ok((FileAttributeModel::LeaseTime(f0), s1)),
            }
        } else if tag == 11 {
            match StatusResult::<()>::parse(s) {
                Err(e) => Err(e),
                Ok((f0, s1)) => Ok((FileAttributeModel::ReadDirAttrError(f0), s1)),
            }
        } else if tag == 12 {
            match Acl::parse(s) {
                Err(e) => Err(e),
                Ok((f0, s1)) => Ok((FileAttributeModel::Acl(f0), s1)),
            }
        } else if tag == 13 {
            match u32::parse(s) {
                Err(e) => Err(e),
                Ok((f0, s1)) => Ok((FileAttributeModel::AclSupport(f0), s1)),
            }
        } else if tag == 14 {
            match bool::parse(s) {
                Err(e) => Err(e),
                Ok((f0, s1)) => Ok((FileAttributeModel::Archive(f0), s1)),
            }
        } else if tag == 15 {
            match bool::parse(s) {
                Err(e) => Err(e),
                Ok((f0, s1)) => Ok((FileAttributeModel::CanSetTime(f0), s1)),
            }
        } else if tag == 16 {
            match bool::parse(s) {
                Err(e) => Err(e),
                Ok((f0, s1)) => Ok((FileAttributeModel::CaseInsensitive(f0), s1)),
            }
        } else if tag == 17 {
            match bool::parse(s) {
                Err(e) => Err(e),
                Ok((f0, s1)) => Ok((FileAttributeModel::CasePreserving(f0), s1)),
            }
        } else if tag == 18 {
            match bool::parse(s) {
                Err(e) => Err(e),
                Ok((f0, s1)) => Ok((FileAttributeModel::ChownRestricted(f0), s1)),
            }
        } else if tag == 19 {
            match FileHandle::parse(s) {
                Err(e) => Err(e),
                Ok((f0, s1)) => Ok((FileAttributeModel::FileHandle(f0), s1)),
            }
        } else if tag == 20 {
            match FileId::parse(s) {
                Err(e) => Err(e),
                Ok((f0, s1)) => Ok((FileAttributeModel::FileId(f0), s1)),
            }
        } else if tag == 21 {
            match u64::parse(s) {
                Err(e) => Err(e),
                Ok((f0, s1)) => Ok((FileAttributeModel::FilesAvail(f0), s1)),
            }
        } else if tag == 22 {
            match u64::parse(s) {
                Err(e) => Err(e),
                Ok((f0, s1)) => Ok((FileAttributeModel::FilesFree(f0), s1)),
            }
        } else if tag == 23 {
            match u64::parse(s) {
                Err(e) => Err(e),
                Ok((f0, s1)) => Ok((FileAttributeModel::FilesTotal(f0), s1)),
            }
        } else if tag == 24 {
            match FsLocations::parse(s) {
                Err(e) => Err(e),
                Ok((f0, s1)) => Ok((FileAttributeModel::FsLocations(f0), s1)),
            }
        } else if tag == 26 {
            match bool::parse(s) {
                Err(e) => Err(e),
                Ok((f0, s1)) => Ok((FileAttributeModel::Homogeneous(f0), s1)),
            }
        } else if tag == 27 {
            match u64::parse(s) {
                Err(e) => Err(e),
                Ok((f0, s1)) => Ok((FileAttributeModel::MaxFileSize(f0), s1)),
            }
        } else if tag == 28 {
            match u32::parse(s) {
                Err(e) => Err(e),
                Ok((f0, s1)) => Ok((FileAttributeModel::MaxLink(f0), s1)),
            }
        } else if tag == 29 {
            match u32::parse(s) {
                Err(e) => Err(e),
                Ok((f0, s1)) => Ok((FileAttributeModel::MaxName(f0), s1)),
            }
        } else if tag == 30 {
            match u64::parse(s) {
                Err(e) => Err(e),
                Ok((f0, s1)) => Ok((FileAttributeModel::MaxRead(f0), s1)),
            }
        } else if tag == 31 {
            match u64::parse(s) {
                Err(e) => Err(e),
                Ok((f0, s1)) => Ok((FileAttributeModel::MaxWrite(f0), s1)),
            }
        } else if tag == 32 {
            match String::parse(s) {
                Err(e) => Err(e),
                Ok((f0, s1)) => Ok((FileAttributeModel::MimeType(f0), s1)),
            }
        } else if tag == 33 {
            match Mode::parse(s) {
                Err(e) => Err(e),
                Ok((f0, s1)) => Ok((FileAttributeModel::Mode(f0), s1)),
            }
        } else if tag == 34 {
            match bool::parse(s) {
                Err(e) => Err(e),
                Ok((f0, s1)) => Ok((FileAttributeModel::NoTrunc(f0), s1)),
            }
        } else if tag == 35 {
            match u32::parse(s) {
                Err(e) => Err(e),
                Ok((f0, s1)) => Ok((FileAttributeModel::NumLinks(f0), s1)),
            }
        } else if tag == 36 {
            match String::parse(s) {
                Err(e) => Err(e),
                Ok((f0, s1)) => Ok((FileAttributeModel::Owner(f0), s1)),
            }
        } else if tag == 37 {
            match String::parse(s) {
                Err(e) => Err(e),
                Ok((f0, s1)) => Ok((FileAttributeModel::OwnerGroup(f0), s1)),
            }
        } else if tag == 38 {
            match u64::parse(s) {
                Err(e) => Err(e),
                Ok((f0, s1)) => Ok((FileAttributeModel::QuotaAvailHard(f0), s1)),
            }
        } else if tag == 39 {
            match u64::parse(s) {
                Err(e) => Err(e),
                Ok((f0, s1)) => Ok((FileAttributeModel::QuotaAvailSoft(f0), s1)),
            }
        } else if tag == 40 {
            match u64::parse(s) {
                Err(e) => Err(e),
                Ok((f0, s1)) => Ok((FileAttributeModel::QuotaUsed(f0), s1)),
            }
        } else if tag == 41 {
            match DeviceData::parse(s) {
                Err(e) => Err(e),
                Ok((f0, s1)) => Ok((FileAttributeModel::RawDev(f0), s1)),
            }
        } else if tag == 42 {
            match u64::parse(s) {
                Err(e) => Err(e),
                Ok((f0, s1)) => Ok((FileAttributeModel::SpaceAvail(f0), s1)),
            }
        } else if tag == 43 {
            match u64::parse(s) {
                Err(e) => Err(e),
                Ok((f0, s1)) => Ok((FileAttributeModel::SpaceFree(f0), s1)),
            }
        } else if tag == 44 {
            match u64::parse(s) {
                Err(e) => Err(e),
                Ok((f0, s1)) => Ok((FileAttributeModel::SpaceTotal(f0), s1)),
            }
        } else if tag == 45 {
            match u64::parse(s) {
                Err(e) => Err(e),
                Ok((f0, s1)) => Ok((FileAttributeModel::SpaceUsed(f0), s1)),
            }
        } else if tag == 46 {
            match bool::parse(s) {
                Err(e) => Err(e),
                Ok((f0, s1)) => Ok((FileAttributeModel::System(f0), s1)),
            }
        } else if tag == 47 {
            match Time::parse(s) {
                Err(e) => Err(e),
                Ok((f0, s1)) => Ok((FileAttributeModel::TimeAccess(f0), s1)),
            }
        } else if tag == 48 {
            match SetTime::parse(s) {
                Err(e) => Err(e),
                Ok((f0, s1)) => Ok((FileAttributeModel::TimeAccessSet(f0), s1)),
            }
        } else if tag == 49 {
            match Time::parse(s) {
                Err(e) => Err(e),
                Ok((f0, s1)) => Ok((FileAttributeModel::TimeBackup(f0), s1)),
            }
        } else if tag == 50 {
            match Time::parse(s) {
                Err(e) => Err(e),
                Ok((f0, s1)) => Ok((FileAttributeModel::TimeCreate(f0), s1)),
            }
        } else if tag == 51 {
            match Time::parse(s) {
                Err(e) => Err(e),
                Ok((f0, s1)) => Ok((FileAttributeModel::TimeDelta(f0), s1)),
            }
        } else if tag == 52 {
            match Time::parse(s) {
                Err(e) => Err(e),
                Ok((f0, s1)) => Ok((FileAttributeModel::TimeMetadata(f0), s1)),
            }
        } else if tag == 53 {
            match Time::parse(s) {
                Err(e) => Err(e),
                Ok((f0, s1)) => Ok((FileAttributeModel::TimeModify(f0), s1)),
            }
        } else if tag == 54 {
            match SetTime::parse(s) {
                Err(e) => Err(e),
                Ok((f0, s1)) => Ok((FileAttributeModel::TimeModifySet(f0), s1)),
            }
        } else if tag == 55 {
            match FileId::parse(s) {
                Err(e) => Err(e),
                Ok((f0, s1)) => Ok((FileAttributeModel::MountedOnFileid(f0), s1)),
            }
        } else if tag == 56 {
            match Time::parse(s) {
                Err(e) => Err(e),
                Ok((f0, s1)) => Ok((FileAttributeModel::DirNotifDelay(f0), s1)),
            }
        } else if tag == 57 {
            match Time::parse(s) {
                Err(e) => Err(e),
                Ok((f0, s1)) => Ok((FileAttributeModel::DirentNotifDelay(f0), s1)),
            }
        } else if tag == 58 {
            match AclWithFlags::parse(s) {
                Err(e) => Err(e),
                Ok((f0, s1)) => Ok((FileAttributeModel::Dacl(f0), s1)),
            }
        } else if tag == 59 {
            match AclWithFlags::parse(s) {
                Err(e) => Err(e),
                Ok((f0, s1)) => Ok((FileAttributeModel::Sacl(f0), s1)),
            }
        } else if tag == 60 {
            match ChangePolicy::parse(s) {
                Err(e) => Err(e),
                Ok((f0, s1)) => Ok((FileAttributeModel::ChangePolicy(f0), s1)),
            }
        } else if tag == 61 {
            match FsStatus::parse(s) {
                Err(e) => Err(e),
                Ok((f0, s1)) => Ok((FileAttributeModel::FsStatus(f0), s1)),
            }
        } else if tag == 62 {
            match Vec::<LayoutType>::parse(s) {
                Err(e) => Err(e),
                Ok((f0, s1)) => Ok((FileAttributeModel::FsLayoutType(f0), s1)),
            }
        } else if tag == 63 {
            match LayoutHint::parse(s) {
                Err(e) => Err(e),
                Ok((f0, s1)) => Ok((FileAttributeModel::LayoutHint(f0), s1)),
            }
        } else if tag == 64 {
            match Vec::<LayoutType>::parse(s) {
                Err(e) => Err(e),
                Ok((f0, s1)) => Ok((FileAttributeModel::LayoutType(f0), s1)),
            }
        } else if tag == 65 {
            match u32::parse(s) {
                Err(e) => Err(e),
                Ok((f0, s1)) => Ok((FileAttributeModel::LayoutBlksize(f0), s1)),
            }
        } else if tag == 66 {
            match u32::parse(s) {
                Err(e) => Err(e),
                Ok((f0, s1)) => Ok((FileAttributeModel::LayoutAlignment(f0), s1)),
            }
        } else if tag == 67 {
            match FsLocationsInfo::parse(s) {
                Err(e) => Err(e),
                Ok((f0, s1)) => Ok((FileAttributeModel::FsLocationsInfo(f0), s1)),
            }
        } else if tag == 68 {
            match MdsThreshold::parse(s) {
                Err(e) => Err(e),
                Ok((f0, s1)) => Ok((FileAttributeModel::MdsThreshold(f0), s1)),
            }
        } else if tag == 69 {
            match RetentionGet::parse(s) {
                Err(e) => Err(e),
                Ok((f0, s1)) => Ok((FileAttributeModel::RetentionGet(f0), s1)),
            }
        } else if tag == 70 {
            match RetentionSet::parse(s) {
                Err(e) => Err(e),
                Ok((f0, s1)) => Ok((FileAttributeModel::RetentionSet(f0), s1)),
            }
        } else if tag == 71 {
            match RetentionGet::parse(s) {
                Err(e) => Err(e),
                Ok((f0, s1)) => Ok((FileAttributeModel::RetentevtGet(f0), s1)),
            }
        } else if tag == 72 {
            match RetentionSet::parse(s) {
                Err(e) => Err(e),
                Ok((f0, s1)) => Ok((FileAttributeModel::RetentevtSet(f0), s1)),
            }
        } else if tag == 73 {
            match u64::parse(s) {
                Err(e) => Err(e),
                Ok((f0, s1)) => Ok((FileAttributeModel::RetentionHold(f0), s1)),
            }
        } else if tag == 74 {
            match ModeMasked::parse(s) {
                Err(e) => Err(e),
                Ok((f0, s1)) => Ok((FileAttributeModel::ModeSetMasked(f0), s1)),
            }
        } else if tag == 75 {
            match EnumSet::<FileAttributeId>::parse(s) {
                Err(e) => Err(e),
                Ok((f0, s1)) => Ok((FileAttributeModel::SupportedAttrsExclusiveCreate(f0), s1)),
            }
        } else if tag == 76 {
            match u32::parse(s) {
                Err(e) => Err(e),
                Ok((f0, s1)) => Ok((FileAttributeModel::FsCharsetCap(f0), s1)),
            }
        } else {
            Err(XdrError::BadDiscriminant("FileAttribute", tag))
        }
    }

    pub proof fn lemma_payload_round_trip(m: FileAttributeModel, rest: Seq<u8>)
        requires
            <FileAttribute as Xdr>::wf(m),
        ensures
            Self::parse_payload(Self::tag(m), Self::wire_payload(m) + rest)
                == Ok::<(FileAttributeModel, Seq<u8>), XdrError>((m, rest)),
    {
        reveal(<FileAttribute as Xdr>::wf);
        reveal(FileAttribute::wire_payload);
        reveal(FileAttribute::parse_payload);
        match m {
            FileAttributeModel::SupportedAttrs(f0) => {
                EnumSet::<FileAttributeId>::lemma_round_trip(f0, rest);
            },
            FileAttributeModel::Type(f0) => {
                FileType::lemma_round_trip(f0, rest);
            },
            FileAttributeModel::FhExpireType(f0) => {
                u32::lemma_round_trip(f0, rest);
            },
            FileAttributeModel::Change(f0) => {
                Change::lemma_round_trip(f0, rest);
            },
            FileAttributeModel::Size(f0) => {
                u64::lemma_round_trip(f0, rest);
            },
            FileAttributeModel::LinkSupport(f0) => {
                bool::lemma_round_trip(f0, rest);
            },
            FileAttributeModel::SymlinkSupport(f0) => {
                bool::lemma_round_trip(f0, rest);
            },
            FileAttributeModel::NamedAttr(f0) => {
                bool::lemma_round_trip(f0, rest);
            },
            FileAttributeModel::FsId(f0) => {
                FsId::lemma_round_trip(f0, rest);
            },
            FileAttributeModel::UniqueHandles(f0) => {
                bool::lemma_round_trip(f0, rest);
            },
            FileAttributeModel::LeaseTime(f0) => {
                Lease::lemma_round_trip(f0, rest);
            },
            FileAttributeModel::ReadDirAttrError(f0) => {
                StatusResult::<()>::lemma_round_trip(f0, rest);
            },
            FileAttributeModel::Acl(f0) => {
                Acl::lemma_round_trip(f0, rest);
            },
            FileAttributeModel::AclSupport(f0) => {
                u32::lemma_round_trip(f0, rest);
            },
            FileAttributeModel::Archive(f0) => {
                bool::lemma_round_trip(f0, rest);
            },
            FileAttributeModel::CanSetTime(f0) => {
                bool::lemma_round_trip(f0, rest);
            },
            FileAttributeModel::CaseInsensitive(f0) => {
                bool::lemma_round_trip(f0, rest);
            },
            FileAttributeModel::CasePreserving(f0) => {
                bool::lemma_round_trip(f0, rest);
            },
            FileAttributeModel::ChownRestricted(f0) => {
                bool::lemma_round_trip(f0, rest);
            },
            FileAttributeModel::FileHandle(f0) => {
                FileHandle::lemma_round_trip(f0, rest);
            },
            FileAttributeModel::FileId(f0) => {
                FileId::lemma_round_trip(f0, rest);
            },
            FileAttributeModel::FilesAvail(f0) => {
                u64::lemma_round_trip(f0, rest);
            },
            FileAttributeModel::FilesFree(f0) => {
                u64::lemma_round_trip(f0, rest);
            },
            FileAttributeModel::FilesTotal(f0) => {
                u64::lemma_round_trip(f0, rest);
            },
            FileAttributeModel::FsLocations(f0) => {
                FsLocations::lemma_round_trip(f0, rest);
            },
            FileAttributeModel::Homogeneous(f0) => {
                bool::lemma_round_trip(f0, rest);
            },
            FileAttributeModel::MaxFileSize(f0) => {
                u64::lemma_round_trip(f0, rest);
            },
            FileAttributeModel::MaxLink(f0) => {
                u32::lemma_round_trip(f0, rest);
            },
            FileAttributeModel::MaxName(f0) => {
                u32::lemma_round_trip(f0, rest);
            },
            FileAttributeModel::MaxRead(f0) => {
                u64::lemma_round_trip(f0, rest);
            },
            FileAttributeModel::MaxWrite(f0) => {
                u64::lemma_round_trip(f0, rest);
            },
            FileAttributeModel::MimeType(f0) => {
                String::lemma_round_trip(f0, rest);
            },
            FileAttributeModel::Mode(f0) => {
                Mode::lemma_round_trip(f0, rest);
            },
            FileAttributeModel::NoTrunc(f0) => {
                bool::lemma_round_trip(f0, rest);
            },
            FileAttributeModel::NumLinks(f0) => {
                u32::lemma_round_trip(f0, rest);
            },
            FileAttributeModel::Owner(f0) => {
                String::lemma_round_trip(f0, rest);
            },
            FileAttributeModel::OwnerGroup(f0) => {
                String::lemma_round_trip(f0, rest);
            },
            FileAttributeModel::QuotaAvailHard(f0) => {
                u64::lemma_round_trip(f0, rest);
            },
            FileAttributeModel::QuotaAvailSoft(f0) => {
                u64::lemma_round_trip(f0, rest);
            },
            FileAttributeModel::QuotaUsed(f0) => {
                u64::lemma_round_trip(f0, rest);
            },
            FileAttributeModel::RawDev(f0) => {
                DeviceData::lemma_round_trip(f0, rest);
            },
            FileAttributeModel::SpaceAvail(f0) => {
                u64::lemma_round_trip(f0, rest);
            },
            FileAttributeModel::SpaceFree(f0) => {
                u64::lemma_round_trip(f0, rest);
            },
            FileAttributeModel::SpaceTotal(f0) => {
                u64::lemma_round_trip(f0, rest);
            },
            FileAttributeModel::SpaceUsed(f0) => {
                u64::lemma_round_trip(f0, rest);
            },
            FileAttributeModel::System(f0) => {
                bool::lemma_round_trip(f0, rest);
            },
            FileAttributeModel::TimeAccess(f0) => {
                Time::lemma_round_trip(f0, rest);
            },
            FileAttributeModel::TimeAccessSet(f0) => {
                SetTime::lemma_round_trip(f0, rest);
            },
            FileAttributeModel::TimeBackup(f0) => {
                Time::lemma_round_trip(f0, rest);
            },
            FileAttributeModel::TimeCreate(f0) => {
                Time::lemma_round_trip(f0, rest);
            },
            FileAttributeModel::TimeDelta(f0) => {
                Time::lemma_round_trip(f0, rest);
            },
            FileAttributeModel::TimeMetadata(f0) => {
                Time::lemma_round_trip(f0, rest);
            },
            FileAttributeModel::TimeModify(f0) => {
                Time::lemma_round_trip(f0, rest);
            },
            FileAttributeModel::TimeModifySet(f0) => {
                SetTime::lemma_round_trip(f0, rest);
            },
            FileAttributeModel::MountedOnFileid(f0) => {
                FileId::lemma_round_trip(f0, rest);
            },
            FileAttributeModel::DirNotifDelay(f0) => {
                Time::lemma_round_trip(f0, rest);
            },
            FileAttributeModel::DirentNotifDelay(f0) => {
                Time::lemma_round_trip(f0, rest);
            },
            FileAttributeModel::Dacl(f0) => {
                AclWithFlags::lemma_round_trip(f0, rest);
            },
            FileAttributeModel::Sacl(f0) => {
                AclWithFlags::lemma_round_trip(f0, rest);
            },
            FileAttributeModel::ChangePolicy(f0) => {
                ChangePolicy::lemma_round_trip(f0, rest);
            },
            FileAttributeModel::FsStatus(f0) => {
                FsStatus::lemma_round_trip(f0, rest);
            },
            FileAttributeModel::FsLayoutType(f0) => {
                Vec::<LayoutType>::lemma_round_trip(f0, rest);
            },
            FileAttributeModel::LayoutHint(f0) => {
                LayoutHint::lemma_round_trip(f0, rest);
            },
            FileAttributeModel::LayoutType(f0) => {
                Vec::<LayoutType>::lemma_round_trip(f0, rest);
            },
            FileAttributeModel::LayoutBlksize(f0) => {
                u32::lemma_round_trip(f0, rest);
            },
            FileAttributeModel::LayoutAlignment(f0) => {
                u32::lemma_round_trip(f0, rest);
            },
            FileAttributeModel::FsLocationsInfo(f0) => {
                FsLocationsInfo::lemma_round_trip(f0, rest);
            },
            FileAttributeModel::MdsThreshold(f0) => {
                MdsThreshold::lemma_round_trip(f0, rest);
            },
            FileAttributeModel::RetentionGet(f0) => {
                RetentionGet::lemma_round_trip(f0, rest);
            },
            FileAttributeModel::RetentionSet(f0) => {
                RetentionSet::lemma_round_trip(f0, rest);
            },
            FileAttributeModel::RetentevtGet(f0) => {
                RetentionGet::lemma_round_trip(f0, rest);
            },
            FileAttributeModel::RetentevtSet(f0) => {
                RetentionSet::lemma_round_trip(f0, rest);
            },
            FileAttributeModel::RetentionHold(f0) => {
                u64::lemma_round_trip(f0, rest);
            },
            FileAttributeModel::ModeSetMasked(f0) => {
                ModeMasked::lemma_round_trip(f0, rest);
            },
            FileAttributeModel::SupportedAttrsExclusiveCreate(f0) => {
                EnumSet::<FileAttributeId>::lemma_round_trip(f0, rest);
            },
            FileAttributeModel::FsCharsetCap(f0) => {
                u32::lemma_round_trip(f0, rest);
            },
        }
    }

    /// The encoding of a value begins with its discriminant, big-endian.
    pub proof fn lemma_wire_leads_with_tag(m: FileAttributeModel)
        ensures
            <FileAttribute as Xdr>::wire(m).len() >= 4,
            <FileAttribute as Xdr>::wire(m).take(4) == wire_u32(Self::tag(m)),
    {
        reveal(<FileAttribute as Xdr>::wire);
        reveal(wire_u32);
        assert((wire_u32(Self::tag(m)) + Self::wire_payload(m)).take(4) =~= wire_u32(Self::tag(m)));
    }

    /// The discriminant of a value.
    pub fn tag_of(&self) -> (t: u32)
        ensures
            t == Self::tag(self.model()),
    {
        proof {
            reveal(<FileAttribute as Xdr>::model);
        }
        match self {
            FileAttribute::SupportedAttrs(..) => 0,
            FileAttribute::Type(..) => 1,
            FileAttribute::FhExpireType(..) => 2,
            FileAttribute::Change(..) => 3,
            FileAttribute::Size(..) => 4,
            FileAttribute::LinkSupport(..) => 5,
            FileAttribute::SymlinkSupport(..) => 6,
            FileAttribute::NamedAttr(..) => 7,
            FileAttribute::FsId(..) => 8,
            FileAttribute::UniqueHandles(..) => 9,
            FileAttribute::LeaseTime(..) => 10,
            FileAttribute::ReadDirAttrError(..) => 11,
            FileAttribute::Acl(..) => 12,
            FileAttribute::AclSupport(..) => 13,
            FileAttribute::Archive(..) => 14,
            FileAttribute::CanSetTime(..) => 15,
            FileAttribute::CaseInsensitive(..) => 16,
            FileAttribute::CasePreserving(..) => 17,
            FileAttribute::ChownRestricted(..) => 18,
            FileAttribute::FileHandle(..) => 19,
            FileAttribute::FileId(..) => 20,
            FileAttribute::FilesAvail(..) => 21,
            FileAttribute::FilesFree(..) => 22,
            FileAttribute::FilesTotal(..) => 23,
            FileAttribute::FsLocations(..) => 24,
            FileAttribute::Homogeneous(..) => 26,
            FileAttribute::MaxFileSize(..) => 27,
            FileAttribute::MaxLink(..) => 28,
            FileAttribute::MaxName(..) => 29,
            FileAttribute::MaxRead(..) => 30,
            FileAttribute::MaxWrite(..) => 31,
            FileAttribute::MimeType(..) => 32,
            FileAttribute::Mode(..) => 33,
            FileAttribute::NoTrunc(..) => 34,
            FileAttribute::NumLinks(..) => 35,
            FileAttribute::Owner(..) => 36,
            FileAttribute::OwnerGroup(..) => 37,
            FileAttribute::QuotaAvailHard(..) => 38,
            FileAttribute::QuotaAvailSoft(..) => 39,
            FileAttribute::QuotaUsed(..) => 40,
            FileAttribute::RawDev(..) => 41,
            FileAttribute::SpaceAvail(..) => 42,
            FileAttribute::SpaceFree(..) => 43,
            FileAttribute::SpaceTotal(..) => 44,
            FileAttribute::SpaceUsed(..) => 45,
            FileAttribute::System(..) => 46,
            FileAttribute::TimeAccess(..) => 47,
            FileAttribute::TimeAccessSet(..) => 48,
            FileAttribute::TimeBackup(..) => 49,
            FileAttribute::TimeCreate(..) => 50,
            FileAttribute::TimeDelta(..) => 51,
            FileAttribute::TimeMetadata(..) => 52,
            FileAttribute::TimeModify(..) => 53,
            FileAttribute::TimeModifySet(..) => 54,
            FileAttribute::MountedOnFileid(..) => 55,
            FileAttribute::DirNotifDelay(..) => 56,
            FileAttribute::DirentNotifDelay(..) => 57,
            FileAttribute::Dacl(..) => 58,
            FileAttribute::Sacl(..) => 59,
            FileAttribute::ChangePolicy(..) => 60,
            FileAttribute::FsStatus(..) => 61,
            FileAttribute::FsLayoutType(..) => 62,
            FileAttribute::LayoutHint(..) => 63,
            FileAttribute::LayoutType(..) => 64,
            FileAttribute::LayoutBlksize(..) => 65,
            FileAttribute::LayoutAlignment(..) => 66,
            FileAttribute::FsLocationsInfo(..) => 67,
            FileAttribute::MdsThreshold(..) => 68,
            FileAttribute::RetentionGet(..) => 69,
            FileAttribute::RetentionSet(..) => 70,
            FileAttribute::RetentevtGet(..) => 71,
            FileAttribute::RetentevtSet(..) => 72,
            FileAttribute::RetentionHold(..) => 73,
            FileAttribute::ModeSetMasked(..) => 74,
            FileAttribute::SupportedAttrsExclusiveCreate(..) => 75,
            FileAttribute::FsCharsetCap(..) => 76,
        }
    }

    /// Appends what follows the discriminant in the encoding of `self`.
    pub fn encode_payload(&self, out: &mut Vec<u8>) -> (r: Result<(), EncodeError>)
        ensures
            r is Ok <==> <FileAttribute as Xdr>::wf(self.model()),
            r is Ok ==> final(out)@ == old(out)@ + Self::wire_payload(self.model()),
    {
        proof {
            reveal(<FileAttribute as Xdr>::model);
            reveal(<FileAttribute as Xdr>::wf);
            reveal(FileAttribute::wire_payload);
        }
        match self {
            FileAttribute::SupportedAttrs(f0) => {
                f0.encode(out)?;
            },
            FileAttribute::Type(f0) => {
                f0.encode(out)?;
            },
            FileAttribute::FhExpireType(f0) => {
                let _ = f0.encode(out);
            },
            FileAttribute::Change(f0) => {
                f0.encode(out)?;
            },
            FileAttribute::Size(f0) => {
                let _ = f0.encode(out);
            },
            FileAttribute::LinkSupport(f0) => {
                let _ = f0.encode(out);
            },
            FileAttribute::SymlinkSupport(f0) => {
                let _ = f0.encode(out);
            },
            FileAttribute::NamedAttr(f0) => {
                let _ = f0.encode(out);
            },
            FileAttribute::FsId(f0) => {
                f0.encode(out)?;
            },
            FileAttribute::UniqueHandles(f0) => {
                let _ = f0.encode(out);
            },
            FileAttribute::LeaseTime(f0) => {
                f0.encode(out)?;
            },
            FileAttribute::ReadDirAttrError(f0) => {
                f0.encode(out)?;
            },
            FileAttribute::Acl(f0) => {
                f0.encode(out)?;
            },
            FileAttribute::AclSupport(f0) => {
                let _ = f0.encode(out);
            },
            FileAttribute::Archive(f0) => {
                let _ = f0.encode(out);
            },
            FileAttribute::CanSetTime(f0) => {
                let _ = f0.encode(out);
            },
            FileAttribute::CaseInsensitive(f0) => {
                let _ = f0.encode(out);
            },
            FileAttribute::CasePreserving(f0) => {
                let _ = f0.encode(out);
            },
            FileAttribute::ChownRestricted(f0) => {
                let _ = f0.encode(out);
            },
            FileAttribute::FileHandle(f0) => {
                f0.encode(out)?;
            },
            FileAttribute::FileId(f0) => {
                f0.encode(out)?;
            },
            FileAttribute::FilesAvail(f0) => {
                let _ = f0.encode(out);
            },
            FileAttribute::FilesFree(f0) => {
                let _ = f0.encode(out);
            },
            FileAttribute::FilesTotal(f0) => {
                let _ = f0.encode(out);
            },
            FileAttribute::FsLocations(f0) => {
                f0.encode(out)?;
            },
            FileAttribute::Homogeneous(f0) => {
                let _ = f0.encode(out);
            },
            FileAttribute::MaxFileSize(f0) => {
                let _ = f0.encode(out);
            },
            FileAttribute::MaxLink(f0) => {
                let _ = f0.encode(out);
            },
            FileAttribute::MaxName(f0) => {
                let _ = f0.encode(out);
            },
            FileAttribute::MaxRead(f0) => {
                let _ = f0.encode(out);
            },
            FileAttribute::MaxWrite(f0) => {
                let _ = f0.encode(out);
            },
            FileAttribute::MimeType(f0) => {
                f0.encode(out)?;
            },
            FileAttribute::Mode(f0) => {
                f0.encode(out)?;
            },
            FileAttribute::NoTrunc(f0) => {
                let _ = f0.encode(out);
            },
            FileAttribute::NumLinks(f0) => {
                let _ = f0.encode(out);
            },
            FileAttribute::Owner(f0) => {
                f0.encode(out)?;
            },
            FileAttribute::OwnerGroup(f0) => {
                f0.encode(out)?;
            },
            FileAttribute::QuotaAvailHard(f0) => {
                let _ = f0.encode(out);
            },
            FileAttribute::QuotaAvailSoft(f0) => {
                let _ = f0.encode(out);
            },
            FileAttribute::QuotaUsed(f0) => {
                let _ = f0.encode(out);
            },
            FileAttribute::RawDev(f0) => {
                f0.encode(out)?;
            },
            FileAttribute::SpaceAvail(f0) => {
                let _ = f0.encode(out);
            },
            FileAttribute::SpaceFree(f0) => {
                let _ = f0.encode(out);
            },
            FileAttribute::SpaceTotal(f0) => {
                let _ = f0.encode(out);
            },
            FileAttribute::SpaceUsed(f0) => {
                let _ = f0.encode(out);
            },
            FileAttribute::System(f0) => {
                let _ = f0.encode(out);
            },
            FileAttribute::TimeAccess(f0) => {
                f0.encode(out)?;
            },
            FileAttribute::TimeAccessSet(f0) => {
                f0.encode(out)?;
            },
            FileAttribute::TimeBackup(f0) => {
                f0.encode(out)?;
            },
            FileAttribute::TimeCreate(f0) => {
                f0.encode(out)?;
            },
            FileAttribute::TimeDelta(f0) => {
                f0.encode(out)?;
            },
            FileAttribute::TimeMetadata(f0) => {
                f0.encode(out)?;
            },
            FileAttribute::TimeModify(f0) => {
                f0.encode(out)?;
            },
            FileAttribute::TimeModifySet(f0) => {
                f0.encode(out)?;
            },
            FileAttribute::MountedOnFileid(f0) => {
                f0.encode(out)?;
            },
            FileAttribute::DirNotifDelay(f0) => {
                f0.encode(out)?;
            },
            FileAttribute::DirentNotifDelay(f0) => {
                f0.encode(out)?;
            },
            FileAttribute::Dacl(f0) => {
                f0.encode(out)?;
            },
            FileAttribute::Sacl(f0) => {
                f0.encode(out)?;
            },
            FileAttribute::ChangePolicy(f0) => {
                f0.encode(out)?;
            },
            FileAttribute::FsStatus(f0) => {
                f0.encode(out)?;
            },
            FileAttribute::FsLayoutType(f0) => {
                f0.encode(out)?;
            },
            FileAttribute::LayoutHint(f0) => {
                f0.encode(out)?;
            },
            FileAttribute::LayoutType(f0) => {
                f0.encode(out)?;
            },
            FileAttribute::LayoutBlksize(f0) => {
                let _ = f0.encode(out);
            },
            FileAttribute::LayoutAlignment(f0) => {
                let _ = f0.encode(out);
            },
            FileAttribute::FsLocationsInfo(f0) => {
                f0.encode(out)?;
            },
            FileAttribute::MdsThreshold(f0) => {
                f0.encode(out)?;
            },
            FileAttribute::RetentionGet(f0) => {
                f0.encode(out)?;
            },
            FileAttribute::RetentionSet(f0) => {
                f0.encode(out)?;
            },
            FileAttribute::RetentevtGet(f0) => {
                f0.encode(out)?;
            },
            FileAttribute::RetentevtSet(f0) => {
                f0.encode(out)?;
            },
            FileAttribute::RetentionHold(f0) => {
                let _ = f0.encode(out);
            },
            FileAttribute::ModeSetMasked(f0) => {
                f0.encode(out)?;
            },
            FileAttribute::SupportedAttrsExclusiveCreate(f0) => {
                f0.encode(out)?;
            },
            FileAttribute::FsCharsetCap(f0) => {
                let _ = f0.encode(out);
            },
        }
        Ok(())
    }

    /// Decodes the payload of the value with the discriminant `tag`.
    pub fn decode_payload<'a>(
        tag: u32,
        input: &'a [u8],
    ) -> (r: Result<(FileAttribute, &'a [u8]), XdrError>)
        ensures
            match r {
                Ok((v, rest)) => {
                    Self::parse_payload(tag, input@)
                        == Ok::<(FileAttributeModel, Seq<u8>), XdrError>((v.model(), rest@))
                },
                Err(e) => {
                    Self::parse_payload(tag, input@)
                        == Err::<(FileAttributeModel, Seq<u8>), XdrError>(e)
                },
            },
    {
        proof {
            reveal(<FileAttribute as Xdr>::model);
            reveal(FileAttribute::parse_payload);
        }
        if tag == 0 {
            let (f0, cur) = EnumSet::<FileAttributeId>::decode(input)?;
            Ok((FileAttribute::SupportedAttrs(f0), cur))
        } else if tag == 1 {
            let (f0, cur) = FileType::decode(input)?;
            Ok((FileAttribute::Type(f0), cur))
        } else if tag == 2 {
            let (f0, cur) = u32::decode(input)?;
            Ok((FileAttribute::FhExpireType(f0), cur))
        } else if tag == 3 {
            let (f0, cur) = Change::decode(input)?;
            Ok((FileAttribute::Change(f0), cur))
        } else if tag == 4 {
            let (f0, cur) = u64::decode(input)?;
            Ok((FileAttribute::Size(f0), cur))
        } else if tag == 5 {
            let (f0, cur) = bool::decode(input)?;
            Ok((FileAttribute::LinkSupport(f0), cur))
        } else if tag == 6 {
            let (f0, cur) = bool::decode(input)?;
            Ok((FileAttribute::SymlinkSupport(f0), cur))
        } else if tag == 7 {
            let (f0, cur) = bool::decode(input)?;
            Ok((FileAttribute::NamedAttr(f0), cur))
        } else if tag == 8 {
            let (f0, cur) = FsId::decode(input)?;
            Ok((FileAttribute::FsId(f0), cur))
        } else if tag == 9 {
            let (f0, cur) = bool::decode(input)?;
            Ok((FileAttribute::UniqueHandles(f0), cur))
        } else if tag == 10 {
            let (f0, cur) = Lease::decode(input)?;
            Ok((FileAttribute::LeaseTime(f0), cur))
        } else if tag == 11 {
            let (f0, cur) = StatusResult::<()>::decode(input)?;
            Ok((FileAttribute::ReadDirAttrError(f0), cur))
        } else if tag == 12 {
            let (f0, cur) = Acl::decode(input)?;
            Ok((FileAttribute::Acl(f0), cur))
        } else if tag == 13 {
            let (f0, cur) = u32::decode(input)?;
            Ok((FileAttribute::AclSupport(f0), cur))
        } else if tag == 14 {
            let (f0, cur) = bool::decode(input)?;
            Ok((FileAttribute::Archive(f0), cur))
        } else if tag == 15 {
            let (f0, cur) = bool::decode(input)?;
            Ok((FileAttribute::CanSetTime(f0), cur))
        } else if tag == 16 {
            let (f0, cur) = bool::decode(input)?;
            Ok((FileAttribute::CaseInsensitive(f0), cur))
        } else if tag == 17 {
            let (f0, cur) = bool::decode(input)?;
            Ok((FileAttribute::CasePreserving(f0), cur))
        } else if tag == 18 {
            let (f0, cur) = bool::decode(input)?;
            Ok((FileAttribute::ChownRestricted(f0), cur))
        } else if tag == 19 {
            let (f0, cur) = FileHandle::decode(input)?;
            Ok((FileAttribute::FileHandle(f0), cur))
        } else if tag == 20 {
            let (f0, cur) = FileId::decode(input)?;
            Ok((FileAttribute::FileId(f0), cur))
        } else if tag == 21 {
            let (f0, cur) = u64::decode(input)?;
            Ok((FileAttribute::FilesAvail(f0), cur))
        } else if tag == 22 {
            let (f0, cur) = u64::decode(input)?;
            Ok((FileAttribute::FilesFree(f0), cur))
        } else if tag == 23 {
            let (f0, cur) = u64::decode(input)?;
            Ok((FileAttribute::FilesTotal(f0), cur))
        } else if tag == 24 {
            let (f0, cur) = FsLocations::decode(input)?;
            Ok((FileAttribute::FsLocations(f0), cur))
        } else if tag == 26 {
            let (f0, cur) = bool::decode(input)?;
            Ok((FileAttribute::Homogeneous(f0), cur))
        } else if tag == 27 {
            let (f0, cur) = u64::decode(input)?;
            Ok((FileAttribute::MaxFileSize(f0), cur))
        } else if tag == 28 {
            let (f0, cur) = u32::decode(input)?;
            Ok((FileAttribute::MaxLink(f0), cur))
        } else if tag == 29 {
            let (f0, cur) = u32::decode(input)?;
            Ok((FileAttribute::MaxName(f0), cur))
        } else if tag == 30 {
            let (f0, cur) = u64::decode(input)?;
            Ok((FileAttribute::MaxRead(f0), cur))
        } else if tag == 31 {
            let (f0, cur) = u64::decode(input)?;
            Ok((FileAttribute::MaxWrite(f0), cur))
        } else if tag == 32 {
            let (f0, cur) = String::decode(input)?;
            Ok((FileAttribute::MimeType(f0), cur))
        } else if tag == 33 {
            let (f0, cur) = Mode::decode(input)?;
            Ok((FileAttribute::Mode(f0), cur))
        } else if tag == 34 {
            let (f0, cur) = bool::decode(input)?;
            Ok((FileAttribute::NoTrunc(f0), cur))
        } else if tag == 35 {
            let (f0, cur) = u32::decode(input)?;
            Ok((FileAttribute::NumLinks(f0), cur))
        } else if tag == 36 {
            let (f0, cur) = String::decode(input)?;
            Ok((FileAttribute::Owner(f0), cur))
        } else if tag == 37 {
            let (f0, cur) = String::decode(input)?;
            Ok((FileAttribute::OwnerGroup(f0), cur))
        } else if tag == 38 {
            let (f0, cur) = u64::decode(input)?;
            Ok((FileAttribute::QuotaAvailHard(f0), cur))
        } else if tag == 39 {
            let (f0, cur) = u64::decode(input)?;
            Ok((FileAttribute::QuotaAvailSoft(f0), cur))
        } else if tag == 40 {
            let (f0, cur) = u64::decode(input)?;
            Ok((FileAttribute::QuotaUsed(f0), cur))
        } else if tag == 41 {
            let (f0, cur) = DeviceData::decode(input)?;
            Ok((FileAttribute::RawDev(f0), cur))
        } else if tag == 42 {
            let (f0, cur) = u64::decode(input)?;
            Ok((FileAttribute::SpaceAvail(f0), cur))
        } else if tag == 43 {
            let (f0, cur) = u64::decode(input)?;
            Ok((FileAttribute::SpaceFree(f0), cur))
        } else if tag == 44 {
            let (f0, cur) = u64::decode(input)?;
            Ok((FileAttribute::SpaceTotal(f0), cur))
        } else if tag == 45 {
            let (f0, cur) = u64::decode(input)?;
            Ok((FileAttribute::SpaceUsed(f0), cur))
        } else if tag == 46 {
            let (f0, cur) = bool::decode(input)?;
            Ok((FileAttribute::System(f0), cur))
        } else if tag == 47 {
            let (f0, cur) = Time::decode(input)?;
            Ok((FileAttribute::TimeAccess(f0), cur))
        } else if tag == 48 {
            let (f0, cur) = SetTime::decode(input)?;
            Ok((FileAttribute::TimeAccessSet(f0), cur))
        } else if tag == 49 {
            let (f0, cur) = Time::decode(input)?;
            Ok((FileAttribute::TimeBackup(f0), cur))
        } else if tag == 50 {
            let (f0, cur) = Time::decode(input)?;
            Ok((FileAttribute::TimeCreate(f0), cur))
        } else if tag == 51 {
            let (f0, cur) = Time::decode(input)?;
            Ok((FileAttribute::TimeDelta(f0), cur))
        } else if tag == 52 {
            let (f0, cur) = Time::decode(input)?;
            Ok((FileAttribute::TimeMetadata(f0), cur))
        } else if tag == 53 {
            let (f0, cur) = Time::decode(input)?;
            Ok((FileAttribute::TimeModify(f0), cur))
        } else if tag == 54 {
            let (f0, cur) = SetTime::decode(input)?;
            Ok((FileAttribute::TimeModifySet(f0), cur))
        } else if tag == 55 {
            let (f0, cur) = FileId::decode(input)?;
            Ok((FileAttribute::MountedOnFileid(f0), cur))
        } else if tag == 56 {
            let (f0, cur) = Time::decode(input)?;
            Ok((FileAttribute::DirNotifDelay(f0), cur))
        } else if tag == 57 {
            let (f0, cur) = Time::decode(input)?;
            Ok((FileAttribute::DirentNotifDelay(f0), cur))
        } else if tag == 58 {
            let (f0, cur) = AclWithFlags::decode(input)?;
            Ok((FileAttribute::Dacl(f0), cur))
        } else if tag == 59 {
            let (f0, cur) = AclWithFlags::decode(input)?;
            Ok((FileAttribute::Sacl(f0), cur))
        } else if tag == 60 {
            let (f0, cur) = ChangePolicy::decode(input)?;
            Ok((FileAttribute::ChangePolicy(f0), cur))
        } else if tag == 61 {
            let (f0, cur) = FsStatus::decode(input)?;
            Ok((FileAttribute::FsStatus(f0), cur))
        } else if tag == 62 {
            let (f0, cur) = Vec::<LayoutType>::decode(input)?;
            Ok((FileAttribute::FsLayoutType(f0), cur))
        } else if tag == 63 {
            let (f0, cur) = LayoutHint::decode(input)?;
            Ok((FileAttribute::LayoutHint(f0), cur))
        } else if tag == 64 {
            let (f0, cur) = Vec::<LayoutType>::decode(input)?;
            Ok((FileAttribute::LayoutType(f0), cur))
        } else if tag == 65 {
            let (f0, cur) = u32::decode(input)?;
            Ok((FileAttribute::LayoutBlksize(f0), cur))
        } else if tag == 66 {
            let (f0, cur) = u32::decode(input)?;
            Ok((FileAttribute::LayoutAlignment(f0), cur))
        } else if tag == 67 {
            let (f0, cur) = FsLocationsInfo::decode(input)?;
            Ok((FileAttribute::FsLocationsInfo(f0), cur))
        } else if tag == 68 {
            let (f0, cur) = MdsThreshold::decode(input)?;
            Ok((FileAttribute::MdsThreshold(f0), cur))
        } else if tag == 69 {
            let (f0, cur) = RetentionGet::decode(input)?;
            Ok((FileAttribute::RetentionGet(f0), cur))
        } else if tag == 70 {
            let (f0, cur) = RetentionSet::decode(input)?;
            Ok((FileAttribute::RetentionSet(f0), cur))
        } else if tag == 71 {
            let (f0, cur) = RetentionGet::decode(input)?;
            Ok((FileAttribute::RetentevtGet(f0), cur))
        } else if tag == 72 {
            let (f0, cur) = RetentionSet::decode(input)?;
            Ok((FileAttribute::RetentevtSet(f0), cur))
        } else if tag == 73 {
            let (f0, cur) = u64::decode(input)?;
            Ok((FileAttribute::RetentionHold(f0), cur))
        } else if tag == 74 {
            let (f0, cur) = ModeMasked::decode(input)?;
            Ok((FileAttribute::ModeSetMasked(f0), cur))
        } else if tag == 75 {
            let (f0, cur) = EnumSet::<FileAttributeId>::decode(input)?;
            Ok((FileAttribute::SupportedAttrsExclusiveCreate(f0), cur))
        } else if tag == 76 {
            let (f0, cur) = u32::decode(input)?;
            Ok((FileAttribute::FsCharsetCap(f0), cur))
        } else {
            Err(XdrError::BadDiscriminant("FileAttribute", tag))
        }
    }
}

impl Xdr for FileAttribute {
    type Model = FileAttributeModel;

    #[verifier::opaque]
    open spec fn model(&self) -> FileAttributeModel {
        match self {
            FileAttribute::SupportedAttrs(f0) => FileAttributeModel::SupportedAttrs(f0.model()),
            FileAttribute::Type(f0) => FileAttributeModel::Type(f0.model()),
            FileAttribute::FhExpireType(f0) => FileAttributeModel::FhExpireType(f0.model()),
            FileAttribute::Change(f0) => FileAttributeModel::Change(f0.model()),
            FileAttribute::Size(f0) => FileAttributeModel::Size(f0.model()),
            FileAttribute::LinkSupport(f0) => FileAttributeModel::LinkSupport(f0.model()),
            FileAttribute::SymlinkSupport(f0) => FileAttributeModel::SymlinkSupport(f0.model()),
            FileAttribute::NamedAttr(f0) => FileAttributeModel::NamedAttr(f0.model()),
            FileAttribute::FsId(f0) => FileAttributeModel::FsId(f0.model()),
            FileAttribute::UniqueHandles(f0) => FileAttributeModel::UniqueHandles(f0.model()),
            FileAttribute::LeaseTime(f0) => FileAttributeModel::LeaseTime(f0.model()),
            FileAttribute::ReadDirAttrError(f0) => FileAttributeModel::ReadDirAttrError(f0.model()),
            FileAttribute::Acl(f0) => FileAttributeModel::Acl(f0.model()),
            FileAttribute::AclSupport(f0) => FileAttributeModel::AclSupport(f0.model()),
            FileAttribute::Archive(f0) => FileAttributeModel::Archive(f0.model()),
            FileAttribute::CanSetTime(f0) => FileAttributeModel::CanSetTime(f0.model()),
            FileAttribute::CaseInsensitive(f0) => FileAttributeModel::CaseInsensitive(f0.model()),
            FileAttribute::CasePreserving(f0) => FileAttributeModel::CasePreserving(f0.model()),
            FileAttribute::ChownRestricted(f0) => FileAttributeModel::ChownRestricted(f0.model()),
            FileAttribute::FileHandle(f0) => FileAttributeModel::FileHandle(f0.model()),
            FileAttribute::FileId(f0) => FileAttributeModel::FileId(f0.model()),
            FileAttribute::FilesAvail(f0) => FileAttributeModel::FilesAvail(f0.model()),
            FileAttribute::FilesFree(f0) => FileAttributeModel::FilesFree(f0.model()),
            FileAttribute::FilesTotal(f0) => FileAttributeModel::FilesTotal(f0.model()),
            FileAttribute::FsLocations(f0) => FileAttributeModel::FsLocations(f0.model()),
            FileAttribute::Homogeneous(f0) => FileAttributeModel::Homogeneous(f0.model()),
            FileAttribute::MaxFileSize(f0) => FileAttributeModel::MaxFileSize(f0.model()),
            FileAttribute::MaxLink(f0) => FileAttributeModel::MaxLink(f0.model()),
            FileAttribute::MaxName(f0) => FileAttributeModel::MaxName(f0.model()),
            FileAttribute::MaxRead(f0) => FileAttributeModel::MaxRead(f0.model()),
            FileAttribute::MaxWrite(f0) => FileAttributeModel::MaxWrite(f0.model()),
            FileAttribute::MimeType(f0) => FileAttributeModel::MimeType(f0.model()),
            FileAttribute::Mode(f0) => FileAttributeModel::Mode(f0.model()),
            FileAttribute::NoTrunc(f0) => FileAttributeModel::NoTrunc(f0.model()),
            FileAttribute::NumLinks(f0) => FileAttributeModel::NumLinks(f0.model()),
            FileAttribute::Owner(f0) => FileAttributeModel::Owner(f0.model()),
            FileAttribute::OwnerGroup(f0) => FileAttributeModel::OwnerGroup(f0.model()),
            FileAttribute::QuotaAvailHard(f0) => FileAttributeModel::QuotaAvailHard(f0.model()),
            FileAttribute::QuotaAvailSoft(f0) => FileAttributeModel::QuotaAvailSoft(f0.model()),
            FileAttribute::QuotaUsed(f0) => FileAttributeModel::QuotaUsed(f0.model()),
            FileAttribute::RawDev(f0) => FileAttributeModel::RawDev(f0.model()),
            FileAttribute::SpaceAvail(f0) => FileAttributeModel::SpaceAvail(f0.model()),
            FileAttribute::SpaceFree(f0) => FileAttributeModel::SpaceFree(f0.model()),
            FileAttribute::SpaceTotal(f0) => FileAttributeModel::SpaceTotal(f0.model()),
            FileAttribute::SpaceUsed(f0) => FileAttributeModel::SpaceUsed(f0.model()),
            FileAttribute::System(f0) => FileAttributeModel::System(f0.model()),
            FileAttribute::TimeAccess(f0) => FileAttributeModel::TimeAccess(f0.model()),
            FileAttribute::TimeAccessSet(f0) => FileAttributeModel::TimeAccessSet(f0.model()),
            FileAttribute::TimeBackup(f0) => FileAttributeModel::TimeBackup(f0.model()),
            FileAttribute::TimeCreate(f0) => FileAttributeModel::TimeCreate(f0.model()),
            FileAttribute::TimeDelta(f0) => FileAttributeModel::TimeDelta(f0.model()),
            FileAttribute::TimeMetadata(f0) => FileAttributeModel::TimeMetadata(f0.model()),
            FileAttribute::TimeModify(f0) => FileAttributeModel::TimeModify(f0.model()),
            FileAttribute::TimeModifySet(f0) => FileAttributeModel::TimeModifySet(f0.model()),
            FileAttribute::MountedOnFileid(f0) => FileAttributeModel::MountedOnFileid(f0.model()),
            FileAttribute::DirNotifDelay(f0) => FileAttributeModel::DirNotifDelay(f0.model()),
            FileAttribute::DirentNotifDelay(f0) => FileAttributeModel::DirentNotifDelay(f0.model()),
            FileAttribute::Dacl(f0) => FileAttributeModel::Dacl(f0.model()),
            FileAttribute::Sacl(f0) => FileAttributeModel::Sacl(f0.model()),
            FileAttribute::ChangePolicy(f0) => FileAttributeModel::ChangePolicy(f0.model()),
            FileAttribute::FsStatus(f0) => FileAttributeModel::FsStatus(f0.model()),
            FileAttribute::FsLayoutType(f0) => FileAttributeModel::FsLayoutType(f0.model()),
            FileAttribute::LayoutHint(f0) => FileAttributeModel::LayoutHint(f0.model()),
            FileAttribute::LayoutType(f0) => FileAttributeModel::LayoutType(f0.model()),
            FileAttribute::LayoutBlksize(f0) => FileAttributeModel::LayoutBlksize(f0.model()),
            FileAttribute::LayoutAlignment(f0) => FileAttributeModel::LayoutAlignment(f0.model()),
            FileAttribute::FsLocationsInfo(f0) => FileAttributeModel::FsLocationsInfo(f0.model()),
            FileAttribute::MdsThreshold(f0) => FileAttributeModel::MdsThreshold(f0.model()),
            FileAttribute::RetentionGet(f0) => FileAttributeModel::RetentionGet(f0.model()),
            FileAttribute::RetentionSet(f0) => FileAttributeModel::RetentionSet(f0.model()),
            FileAttribute::RetentevtGet(f0) => FileAttributeModel::RetentevtGet(f0.model()),
            FileAttribute::RetentevtSet(f0) => FileAttributeModel::RetentevtSet(f0.model()),
            FileAttribute::RetentionHold(f0) => FileAttributeModel::RetentionHold(f0.model()),
            FileAttribute::ModeSetMasked(f0) => FileAttributeModel::ModeSetMasked(f0.model()),
            FileAttribute::SupportedAttrsExclusiveCreate(f0) => {
                FileAttributeModel::SupportedAttrsExclusiveCreate(f0.model())
            },
            FileAttribute::FsCharsetCap(f0) => FileAttributeModel::FsCharsetCap(f0.model()),
        }
    }

    #[verifier::opaque]
    open spec fn wf(m: FileAttributeModel) -> bool {
        match m {
            FileAttributeModel::SupportedAttrs(f0) => EnumSet::<FileAttributeId>::wf(f0),
            FileAttributeModel::Type(f0) => FileType::wf(f0),
            FileAttributeModel::FhExpireType(..) => true,
            FileAttributeModel::Change(f0) => Change::wf(f0),
            FileAttributeModel::Size(..) => true,
            FileAttributeModel::LinkSupport(..) => true,
            FileAttributeModel::SymlinkSupport(..) => true,
            FileAttributeModel::NamedAttr(..) => true,
            FileAttributeModel::FsId(f0) => FsId::wf(f0),
            FileAttributeModel::UniqueHandles(..) => true,
            FileAttributeModel::LeaseTime(f0) => Lease::wf(f0),
            FileAttributeModel::ReadDirAttrError(f0) => StatusResult::<()>::wf(f0),
            FileAttributeModel::Acl(f0) => Acl::wf(f0),
            FileAttributeModel::AclSupport(..) => true,
            FileAttributeModel::Archive(..) => true,
            FileAttributeModel::CanSetTime(..) => true,
            FileAttributeModel::CaseInsensitive(..) => true,
            FileAttributeModel::CasePreserving(..) => true,
            FileAttributeModel::ChownRestricted(..) => true,
            FileAttributeModel::FileHandle(f0) => FileHandle::wf(f0),
            FileAttributeModel::FileId(f0) => FileId::wf(f0),
            FileAttributeModel::FilesAvail(..) => true,
            FileAttributeModel::FilesFree(..) => true,
            FileAttributeModel::FilesTotal(..) => true,
            FileAttributeModel::FsLocations(f0) => FsLocations::wf(f0),
            FileAttributeModel::Homogeneous(..) => true,
            FileAttributeModel::MaxFileSize(..) => true,
            FileAttributeModel::MaxLink(..) => true,
            FileAttributeModel::MaxName(..) => true,
            FileAttributeModel::MaxRead(..) => true,
            FileAttributeModel::MaxWrite(..) => true,
            FileAttributeModel::MimeType(f0) => String::wf(f0),
            FileAttributeModel::Mode(f0) => Mode::wf(f0),
            FileAttributeModel::NoTrunc(..) => true,
            FileAttributeModel::NumLinks(..) => true,
            FileAttributeModel::Owner(f0) => String::wf(f0),
            FileAttributeModel::OwnerGroup(f0) => String::wf(f0),
            FileAttributeModel::QuotaAvailHard(..) => true,
            FileAttributeModel::QuotaAvailSoft(..) => true,
            FileAttributeModel::QuotaUsed(..) => true,
            FileAttributeModel::RawDev(f0) => DeviceData::wf(f0),
            FileAttributeModel::SpaceAvail(..) => true,
            FileAttributeModel::SpaceFree(..) => true,
            FileAttributeModel::SpaceTotal(..) => true,
            FileAttributeModel::SpaceUsed(..) => true,
            FileAttributeModel::System(..) => true,
            FileAttributeModel::TimeAccess(f0) => Time::wf(f0),
            FileAttributeModel::TimeAccessSet(f0) => SetTime::wf(f0),
            FileAttributeModel::TimeBackup(f0) => Time::wf(f0),
            FileAttributeModel::TimeCreate(f0) => Time::wf(f0),
            FileAttributeModel::TimeDelta(f0) => Time::wf(f0),
            FileAttributeModel::TimeMetadata(f0) => Time::wf(f0),
            FileAttributeModel::TimeModify(f0) => Time::wf(f0),
            FileAttributeModel::TimeModifySet(f0) => SetTime::wf(f0),
            FileAttributeModel::MountedOnFileid(f0) => FileId::wf(f0),
            FileAttributeModel::DirNotifDelay(f0) => Time::wf(f0),
            FileAttributeModel::DirentNotifDelay(f0) => Time::wf(f0),
            FileAttributeModel::Dacl(f0) => AclWithFlags::wf(f0),
            FileAttributeModel::Sacl(f0) => AclWithFlags::wf(f0),
            FileAttributeModel::ChangePolicy(f0) => ChangePolicy::wf(f0),
            FileAttributeModel::FsStatus(f0) => FsStatus::wf(f0),
            FileAttributeModel::FsLayoutType(f0) => Vec::<LayoutType>::wf(f0),
            FileAttributeModel::LayoutHint(f0) => LayoutHint::wf(f0),
            FileAttributeModel::LayoutType(f0) => Vec::<LayoutType>::wf(f0),
            FileAttributeModel::LayoutBlksize(..) => true,
            FileAttributeModel::LayoutAlignment(..) => true,
            FileAttributeModel::FsLocationsInfo(f0) => FsLocationsInfo::wf(f0),
            FileAttributeModel::MdsThreshold(f0) => MdsThreshold::wf(f0),
            FileAttributeModel::RetentionGet(f0) => RetentionGet::wf(f0),
            FileAttributeModel::RetentionSet(f0) => RetentionSet::wf(f0),
            FileAttributeModel::RetentevtGet(f0) => RetentionGet::wf(f0),
            FileAttributeModel::RetentevtSet(f0) => RetentionSet::wf(f0),
            FileAttributeModel::RetentionHold(..) => true,
            FileAttributeModel::ModeSetMasked(f0) => ModeMasked::wf(f0),
            FileAttributeModel::SupportedAttrsExclusiveCreate(f0) => {
                EnumSet::<FileAttributeId>::wf(f0)
            },
            FileAttributeModel::FsCharsetCap(..) => true,
        }
    }

    #[verifier::opaque]
    open spec fn wire(m: FileAttributeModel) -> Seq<u8> {
        wire_u32(Self::tag(m)) + Self::wire_payload(m)
    }

    #[verifier::opaque]
    open spec fn parse(s: Seq<u8>) -> Result<(FileAttributeModel, Seq<u8>), XdrError> {
        match parse_u32(s) {
            Ok((tag, r)) => Self::parse_payload(tag, r),
            Err(e) => Err(e),
        }
    }

    proof fn lemma_round_trip(m: FileAttributeModel, rest: Seq<u8>) {
        reveal(<FileAttribute as Xdr>::wire);
        reveal(<FileAttribute as Xdr>::parse);
        lemma_concat_assoc(wire_u32(Self::tag(m)), Self::wire_payload(m), rest);
        lemma_u32_round_trip(Self::tag(m), Self::wire_payload(m) + rest);
        Self::lemma_payload_round_trip(m, rest);
    }

    fn encode(&self, out: &mut Vec<u8>) -> (r: Result<(), EncodeError>) {
        proof {
            reveal(<FileAttribute as Xdr>::wire);
        }
        let tag = self.tag_of();
        let _ = tag.encode(out);
        self.encode_payload(out)?;
        proof {
            lemma_concat_assoc(old(out)@, wire_u32(tag), Self::wire_payload(self.model()));
        }
        Ok(())
    }

    fn decode<'a>(input: &'a [u8]) -> (r: Result<(FileAttribute, &'a [u8]), XdrError>) {
        proof {
            reveal(<FileAttribute as Xdr>::parse);
        }
        let (tag, cur) = u32::decode(input)?;
        Self::decode_payload(tag, cur)
    }
}

impl ToId<FileAttributeId> for FileAttribute {
    open spec fn id_of(&self) -> FileAttributeId {
        match self {
            FileAttribute::SupportedAttrs(..) => FileAttributeId::SupportedAttrs,
            FileAttribute::Type(..) => FileAttributeId::Type,
            FileAttribute::FhExpireType(..) => FileAttributeId::FhExpireType,
            FileAttribute::Change(..) => FileAttributeId::Change,
            FileAttribute::Size(..) => FileAttributeId::Size,
            FileAttribute::LinkSupport(..) => FileAttributeId::LinkSupport,
            FileAttribute::SymlinkSupport(..) => FileAttributeId::SymlinkSupport,
            FileAttribute::NamedAttr(..) => FileAttributeId::NamedAttr,
            FileAttribute::FsId(..) => FileAttributeId::FsId,
            FileAttribute::UniqueHandles(..) => FileAttributeId::UniqueHandles,
            FileAttribute::LeaseTime(..) => FileAttributeId::LeaseTime,
            FileAttribute::ReadDirAttrError(..) => FileAttributeId::ReadDirAttrError,
            FileAttribute::Acl(..) => FileAttributeId::Acl,
            FileAttribute::AclSupport(..) => FileAttributeId::AclSupport,
            FileAttribute::Archive(..) => FileAttributeId::Archive,
            FileAttribute::CanSetTime(..) => FileAttributeId::CanSetTime,
            FileAttribute::CaseInsensitive(..) => FileAttributeId::CaseInsensitive,
            FileAttribute::CasePreserving(..) => FileAttributeId::CasePreserving,
            FileAttribute::ChownRestricted(..) => FileAttributeId::ChownRestricted,
            FileAttribute::FileHandle(..) => FileAttributeId::FileHandle,
            FileAttribute::FileId(..) => FileAttributeId::FileId,
            FileAttribute::FilesAvail(..) => FileAttributeId::FilesAvail,
            FileAttribute::FilesFree(..) => FileAttributeId::FilesFree,
            FileAttribute::FilesTotal(..) => FileAttributeId::FilesTotal,
            FileAttribute::FsLocations(..) => FileAttributeId::FsLocations,
            FileAttribute::Homogeneous(..) => FileAttributeId::Homogeneous,
            FileAttribute::MaxFileSize(..) => FileAttributeId::MaxFileSize,
            FileAttribute::MaxLink(..) => FileAttributeId::MaxLink,
            FileAttribute::MaxName(..) => FileAttributeId::MaxName,
            FileAttribute::MaxRead(..) => FileAttributeId::MaxRead,
            FileAttribute::MaxWrite(..) => FileAttributeId::MaxWrite,
            FileAttribute::MimeType(..) => FileAttributeId::MimeType,
            FileAttribute::Mode(..) => FileAttributeId::Mode,
            FileAttribute::NoTrunc(..) => FileAttributeId::NoTrunc,
            FileAttribute::NumLinks(..) => FileAttributeId::NumLinks,
            FileAttribute::Owner(..) => FileAttributeId::Owner,
            FileAttribute::OwnerGroup(..) => FileAttributeId::OwnerGroup,
            FileAttribute::QuotaAvailHard(..) => FileAttributeId::QuotaAvailHard,
            FileAttribute::QuotaAvailSoft(..) => FileAttributeId::QuotaAvailSoft,
            FileAttribute::QuotaUsed(..) => FileAttributeId::QuotaUsed,
            FileAttribute::RawDev(..) => FileAttributeId::RawDev,
            FileAttribute::SpaceAvail(..) => FileAttributeId::SpaceAvail,
            FileAttribute::SpaceFree(..) => FileAttributeId::SpaceFree,
            FileAttribute::SpaceTotal(..) => FileAttributeId::SpaceTotal,
            FileAttribute::SpaceUsed(..) => FileAttributeId::SpaceUsed,
            FileAttribute::System(..) => FileAttributeId::System,
            FileAttribute::TimeAccess(..) => FileAttributeId::TimeAccess,
            FileAttribute::TimeAccessSet(..) => FileAttributeId::TimeAccessSet,
            FileAttribute::TimeBackup(..) => FileAttributeId::TimeBackup,
            FileAttribute::TimeCreate(..) => FileAttributeId::TimeCreate,
            FileAttribute::TimeDelta(..) => FileAttributeId::TimeDelta,
            FileAttribute::TimeMetadata(..) => FileAttributeId::TimeMetadata,
            FileAttribute::TimeModify(..) => FileAttributeId::TimeModify,
            FileAttribute::TimeModifySet(..) => FileAttributeId::TimeModifySet,
            FileAttribute::MountedOnFileid(..) => FileAttributeId::MountedOnFileid,
            FileAttribute::DirNotifDelay(..) => FileAttributeId::DirNotifDelay,
            FileAttribute::DirentNotifDelay(..) => FileAttributeId::DirentNotifDelay,
            FileAttribute::Dacl(..) => FileAttributeId::Dacl,
            FileAttribute::Sacl(..) => FileAttributeId::Sacl,
            FileAttribute::ChangePolicy(..) => FileAttributeId::ChangePolicy,
            FileAttribute::FsStatus(..) => FileAttributeId::FsStatus,
            FileAttribute::FsLayoutType(..) => FileAttributeId::FsLayoutType,
            FileAttribute::LayoutHint(..) => FileAttributeId::LayoutHint,
            FileAttribute::LayoutType(..) => FileAttributeId::LayoutType,
            FileAttribute::LayoutBlksize(..) => FileAttributeId::LayoutBlksize,
            FileAttribute::LayoutAlignment(..) => FileAttributeId::LayoutAlignment,
            FileAttribute::FsLocationsInfo(..) => FileAttributeId::FsLocationsInfo,
            FileAttribute::MdsThreshold(..) => FileAttributeId::MdsThreshold,
            FileAttribute::RetentionGet(..) => FileAttributeId::RetentionGet,
            FileAttribute::RetentionSet(..) => FileAttributeId::RetentionSet,
            FileAttribute::RetentevtGet(..) => FileAttributeId::RetentevtGet,
            FileAttribute::RetentevtSet(..) => FileAttributeId::RetentevtSet,
            FileAttribute::RetentionHold(..) => FileAttributeId::RetentionHold,
            FileAttribute::ModeSetMasked(..) => FileAttributeId::ModeSetMasked,
            FileAttribute::SupportedAttrsExclusiveCreate(..) => {
                FileAttributeId::SupportedAttrsExclusiveCreate
            },
            FileAttribute::FsCharsetCap(..) => FileAttributeId::FsCharsetCap,
        }
    }

    /// The identifier that an attribute value belongs to: the one whose
    /// number is the discriminant of the value.
    fn to_id(&self) -> (id: FileAttributeId)
        ensures
            id.id() == FileAttribute::tag(self.model()),
    {
        proof {
            reveal(<FileAttribute as Xdr>::model);
        }
        match self {
            FileAttribute::SupportedAttrs(..) => FileAttributeId::SupportedAttrs,
            FileAttribute::Type(..) => FileAttributeId::Type,
            FileAttribute::FhExpireType(..) => FileAttributeId::FhExpireType,
            FileAttribute::Change(..) => FileAttributeId::Change,
            FileAttribute::Size(..) => FileAttributeId::Size,
            FileAttribute::LinkSupport(..) => FileAttributeId::LinkSupport,
            FileAttribute::SymlinkSupport(..) => FileAttributeId::SymlinkSupport,
            FileAttribute::NamedAttr(..) => FileAttributeId::NamedAttr,
            FileAttribute::FsId(..) => FileAttributeId::FsId,
            FileAttribute::UniqueHandles(..) => FileAttributeId::UniqueHandles,
            FileAttribute::LeaseTime(..) => FileAttributeId::LeaseTime,
            FileAttribute::ReadDirAttrError(..) => FileAttributeId::ReadDirAttrError,
            FileAttribute::Acl(..) => FileAttributeId::Acl,
            FileAttribute::AclSupport(..) => FileAttributeId::AclSupport,
            FileAttribute::Archive(..) => FileAttributeId::Archive,
            FileAttribute::CanSetTime(..) => FileAttributeId::CanSetTime,
            FileAttribute::CaseInsensitive(..) => FileAttributeId::CaseInsensitive,
            FileAttribute::CasePreserving(..) => FileAttributeId::CasePreserving,
            FileAttribute::ChownRestricted(..) => FileAttributeId::ChownRestricted,
            FileAttribute::FileHandle(..) => FileAttributeId::FileHandle,
            FileAttribute::FileId(..) => FileAttributeId::FileId,
            FileAttribute::FilesAvail(..) => FileAttributeId::FilesAvail,
            FileAttribute::FilesFree(..) => FileAttributeId::FilesFree,
            FileAttribute::FilesTotal(..) => FileAttributeId::FilesTotal,
            FileAttribute::FsLocations(..) => FileAttributeId::FsLocations,
            FileAttribute::Homogeneous(..) => FileAttributeId::Homogeneous,
            FileAttribute::MaxFileSize(..) => FileAttributeId::MaxFileSize,
            FileAttribute::MaxLink(..) => FileAttributeId::MaxLink,
            FileAttribute::MaxName(..) => FileAttributeId::MaxName,
            FileAttribute::MaxRead(..) => FileAttributeId::MaxRead,
            FileAttribute::MaxWrite(..) => FileAttributeId::MaxWrite,
            FileAttribute::MimeType(..) => FileAttributeId::MimeType,
            FileAttribute::Mode(..) => FileAttributeId::Mode,
            FileAttribute::NoTrunc(..) => FileAttributeId::NoTrunc,
            FileAttribute::NumLinks(..) => FileAttributeId::NumLinks,
            FileAttribute::Owner(..) => FileAttributeId::Owner,
            FileAttribute::OwnerGroup(..) => FileAttributeId::OwnerGroup,
            FileAttribute::QuotaAvailHard(..) => FileAttributeId::QuotaAvailHard,
            FileAttribute::QuotaAvailSoft(..) => FileAttributeId::QuotaAvailSoft,
            FileAttribute::QuotaUsed(..) => FileAttributeId::QuotaUsed,
            FileAttribute::RawDev(..) => FileAttributeId::RawDev,
            FileAttribute::SpaceAvail(..) => FileAttributeId::SpaceAvail,
            FileAttribute::SpaceFree(..) => FileAttributeId::SpaceFree,
            FileAttribute::SpaceTotal(..) => FileAttributeId::SpaceTotal,
            FileAttribute::SpaceUsed(..) => FileAttributeId::SpaceUsed,
            FileAttribute::System(..) => FileAttributeId::System,
            FileAttribute::TimeAccess(..) => FileAttributeId::TimeAccess,
            FileAttribute::TimeAccessSet(..) => FileAttributeId::TimeAccessSet,
            FileAttribute::TimeBackup(..) => FileAttributeId::TimeBackup,
            FileAttribute::TimeCreate(..) => FileAttributeId::TimeCreate,
            FileAttribute::TimeDelta(..) => FileAttributeId::TimeDelta,
            FileAttribute::TimeMetadata(..) => FileAttributeId::TimeMetadata,
            FileAttribute::TimeModify(..) => FileAttributeId::TimeModify,
            FileAttribute::TimeModifySet(..) => FileAttributeId::TimeModifySet,
            FileAttribute::MountedOnFileid(..) => FileAttributeId::MountedOnFileid,
            FileAttribute::DirNotifDelay(..) => FileAttributeId::DirNotifDelay,
            FileAttribute::DirentNotifDelay(..) => FileAttributeId::DirentNotifDelay,
            FileAttribute::Dacl(..) => FileAttributeId::Dacl,
            FileAttribute::Sacl(..) => FileAttributeId::Sacl,
            FileAttribute::ChangePolicy(..) => FileAttributeId::ChangePolicy,
            FileAttribute::FsStatus(..) => FileAttributeId::FsStatus,
            FileAttribute::FsLayoutType(..) => FileAttributeId::FsLayoutType,
            FileAttribute::LayoutHint(..) => FileAttributeId::LayoutHint,
            FileAttribute::LayoutType(..) => FileAttributeId::LayoutType,
            FileAttribute::LayoutBlksize(..) => FileAttributeId::LayoutBlksize,
            FileAttribute::LayoutAlignment(..) => FileAttributeId::LayoutAlignment,
            FileAttribute::FsLocationsInfo(..) => FileAttributeId::FsLocationsInfo,
            FileAttribute::MdsThreshold(..) => FileAttributeId::MdsThreshold,
            FileAttribute::RetentionGet(..) => FileAttributeId::RetentionGet,
            FileAttribute::RetentionSet(..) => FileAttributeId::RetentionSet,
            FileAttribute::RetentevtGet(..) => FileAttributeId::RetentevtGet,
            FileAttribute::RetentevtSet(..) => FileAttributeId::RetentevtSet,
            FileAttribute::RetentionHold(..) => FileAttributeId::RetentionHold,
            FileAttribute::ModeSetMasked(..) => FileAttributeId::ModeSetMasked,
            FileAttribute::SupportedAttrsExclusiveCreate(..) => {
                FileAttributeId::SupportedAttrsExclusiveCreate
            },
            FileAttribute::FsCharsetCap(..) => FileAttributeId::FsCharsetCap,
        }
    }
}

impl Attribute<FileAttributeId> for FileAttribute {
    open spec fn tag(m: FileAttributeModel) -> u32 {
        FileAttribute::tag(m)
    }

    open spec fn wire_payload(m: FileAttributeModel) -> Seq<u8> {
        FileAttribute::wire_payload(m)
    }

    open spec fn parse_payload(
        tag: u32,
        s: Seq<u8>,
    ) -> Result<(FileAttributeModel, Seq<u8>), XdrError> {
        FileAttribute::parse_payload(tag, s)
    }

    proof fn lemma_key(&self) {
        reveal(<FileAttribute as Xdr>::model);
    }

    proof fn lemma_tag_is_key(m: FileAttributeModel) {
    }

    proof fn lemma_parse_payload_tag(tag: u32, s: Seq<u8>) {
        reveal(FileAttribute::parse_payload);
    }

    proof fn lemma_payload_round_trip(m: FileAttributeModel, rest: Seq<u8>) {
        FileAttribute::lemma_payload_round_trip(m, rest);
    }

    fn encode_payload(&self, out: &mut Vec<u8>) -> (r: Result<(), EncodeError>) {
        FileAttribute::encode_payload(self, out)
    }

    fn decode_payload<'a>(
        key: FileAttributeId,
        input: &'a [u8],
    ) -> (r: Result<(FileAttribute, &'a [u8]), XdrError>) {
        FileAttribute::decode_payload(key.to_u32(), input)
    }
}

impl Payload<FileAttribute> for EnumSet<FileAttributeId> {
    open spec fn payload_of(v: FileAttribute) -> Option<Self> {
        match v {
            FileAttribute::SupportedAttrs(x) => Some(x),
            FileAttribute::SupportedAttrsExclusiveCreate(x) => Some(x),
            _ => None,
        }
    }

    fn from_value(v: FileAttribute) -> (r: Option<Self>) {
        match v {
            FileAttribute::SupportedAttrs(x) => Some(x),
            FileAttribute::SupportedAttrsExclusiveCreate(x) => Some(x),
            _ => None,
        }
    }

    fn from_value_ref<'a>(v: &'a FileAttribute) -> (r: Option<&'a Self>) {
        match v {
            FileAttribute::SupportedAttrs(x) => Some(x),
            FileAttribute::SupportedAttrsExclusiveCreate(x) => Some(x),
            _ => None,
        }
    }
}

impl Payload<FileAttribute> for FileType {
    open spec fn payload_of(v: FileAttribute) -> Option<Self> {
        match v {
            FileAttribute::Type(x) => Some(x),
            _ => None,
        }
    }

    fn from_value(v: FileAttribute) -> (r: Option<Self>) {
        match v {
            FileAttribute::Type(x) => Some(x),
            _ => None,
        }
    }

    fn from_value_ref<'a>(v: &'a FileAttribute) -> (r: Option<&'a Self>) {
        match v {
            FileAttribute::Type(x) => Some(x),
            _ => None,
        }
    }
}

impl Payload<FileAttribute> for u32 {
    open spec fn payload_of(v: FileAttribute) -> Option<Self> {
        match v {
            FileAttribute::FhExpireType(x) => Some(x),
            FileAttribute::AclSupport(x) => Some(x),
            FileAttribute::MaxLink(x) => Some(x),
            FileAttribute::MaxName(x) => Some(x),
            FileAttribute::NumLinks(x) => Some(x),
            FileAttribute::LayoutBlksize(x) => Some(x),
            FileAttribute::LayoutAlignment(x) => Some(x),
            FileAttribute::FsCharsetCap(x) => Some(x),
            _ => None,
        }
    }

    fn from_value(v: FileAttribute) -> (r: Option<Self>) {
        match v {
            FileAttribute::FhExpireType(x) => Some(x),
            FileAttribute::AclSupport(x) => Some(x),
            FileAttribute::MaxLink(x) => Some(x),
            FileAttribute::MaxName(x) => Some(x),
            FileAttribute::NumLinks(x) => Some(x),
            FileAttribute::LayoutBlksize(x) => Some(x),
            FileAttribute::LayoutAlignment(x) => Some(x),
            FileAttribute::FsCharsetCap(x) => Some(x),
            _ => None,
        }
    }

    fn from_value_ref<'a>(v: &'a FileAttribute) -> (r: Option<&'a Self>) {
        match v {
            FileAttribute::FhExpireType(x) => Some(x),
            FileAttribute::AclSupport(x) => Some(x),
            FileAttribute::MaxLink(x) => Some(x),
            FileAttribute::MaxName(x) => Some(x),
            FileAttribute::NumLinks(x) => Some(x),
            FileAttribute::LayoutBlksize(x) => Some(x),
            FileAttribute::LayoutAlignment(x) => Some(x),
            FileAttribute::FsCharsetCap(x) => Some(x),
            _ => None,
        }
    }
}

impl Payload<FileAttribute> for Change {
    open spec fn payload_of(v: FileAttribute) -> Option<Self> {
        match v {
            FileAttribute::Change(x) => Some(x),
            _ => None,
        }
    }

    fn from_value(v: FileAttribute) -> (r: Option<Self>) {
        match v {
            FileAttribute::Change(x) => Some(x),
            _ => None,
        }
    }

    fn from_value_ref<'a>(v: &'a FileAttribute) -> (r: Option<&'a Self>) {
        match v {
            FileAttribute::Change(x) => Some(x),
            _ => None,
        }
    }
}

impl Payload<FileAttribute> for u64 {
    open spec fn payload_of(v: FileAttribute) -> Option<Self> {
        match v {
            FileAttribute::Size(x) => Some(x),
            FileAttribute::FilesAvail(x) => Some(x),
            FileAttribute::FilesFree(x) => Some(x),
            FileAttribute::FilesTotal(x) => Some(x),
            FileAttribute::MaxFileSize(x) => Some(x),
            FileAttribute::MaxRead(x) => Some(x),
            FileAttribute::MaxWrite(x) => Some(x),
            FileAttribute::QuotaAvailHard(x) => Some(x),
            FileAttribute::QuotaAvailSoft(x) => Some(x),
            FileAttribute::QuotaUsed(x) => Some(x),
            FileAttribute::SpaceAvail(x) => Some(x),
            FileAttribute::SpaceFree(x) => Some(x),
            FileAttribute::SpaceTotal(x) => Some(x),
            FileAttribute::SpaceUsed(x) => Some(x),
            FileAttribute::RetentionHold(x) => Some(x),
            _ => None,
        }
    }

    fn from_value(v: FileAttribute) -> (r: Option<Self>) {
        match v {
            FileAttribute::Size(x) => Some(x),
            FileAttribute::FilesAvail(x) => Some(x),
            FileAttribute::FilesFree(x) => Some(x),
            FileAttribute::FilesTotal(x) => Some(x),
            FileAttribute::MaxFileSize(x) => Some(x),
            FileAttribute::MaxRead(x) => Some(x),
            FileAttribute::MaxWrite(x) => Some(x),
            FileAttribute::QuotaAvailHard(x) => Some(x),
            FileAttribute::QuotaAvailSoft(x) => Some(x),
            FileAttribute::QuotaUsed(x) => Some(x),
            FileAttribute::SpaceAvail(x) => Some(x),
            FileAttribute::SpaceFree(x) => Some(x),
            FileAttribute::SpaceTotal(x) => Some(x),
            FileAttribute::SpaceUsed(x) => Some(x),
            FileAttribute::RetentionHold(x) => Some(x),
            _ => None,
        }
    }

    fn from_value_ref<'a>(v: &'a FileAttribute) -> (r: Option<&'a Self>) {
        match v {
            FileAttribute::Size(x) => Some(x),
            FileAttribute::FilesAvail(x) => Some(x),
            FileAttribute::FilesFree(x) => Some(x),
            FileAttribute::FilesTotal(x) => Some(x),
            FileAttribute::MaxFileSize(x) => Some(x),
            FileAttribute::MaxRead(x) => Some(x),
            FileAttribute::MaxWrite(x) => Some(x),
            FileAttribute::QuotaAvailHard(x) => Some(x),
            FileAttribute::QuotaAvailSoft(x) => Some(x),
            FileAttribute::QuotaUsed(x) => Some(x),
            FileAttribute::SpaceAvail(x) => Some(x),
            FileAttribute::SpaceFree(x) => Some(x),
            FileAttribute::SpaceTotal(x) => Some(x),
            FileAttribute::SpaceUsed(x) => Some(x),
            FileAttribute::RetentionHold(x) => Some(x),
            _ => None,
        }
    }
}

impl Payload<FileAttribute> for bool {
    open spec fn payload_of(v: FileAttribute) -> Option<Self> {
        match v {
            FileAttribute::LinkSupport(x) => Some(x),
            FileAttribute::SymlinkSupport(x) => Some(x),
            FileAttribute::NamedAttr(x) => Some(x),
            FileAttribute::UniqueHandles(x) => Some(x),
            FileAttribute::Archive(x) => Some(x),
            FileAttribute::CanSetTime(x) => Some(x),
            FileAttribute::CaseInsensitive(x) => Some(x),
            FileAttribute::CasePreserving(x) => Some(x),
            FileAttribute::ChownRestricted(x) => Some(x),
            FileAttribute::Homogeneous(x) => Some(x),
            FileAttribute::NoTrunc(x) => Some(x),
            FileAttribute::System(x) => Some(x),
            _ => None,
        }
    }

    fn from_value(v: FileAttribute) -> (r: Option<Self>) {
        match v {
            FileAttribute::LinkSupport(x) => Some(x),
            FileAttribute::SymlinkSupport(x) => Some(x),
            FileAttribute::NamedAttr(x) => Some(x),
            FileAttribute::UniqueHandles(x) => Some(x),
            FileAttribute::Archive(x) => Some(x),
            FileAttribute::CanSetTime(x) => Some(x),
            FileAttribute::CaseInsensitive(x) => Some(x),
            FileAttribute::CasePreserving(x) => Some(x),
            FileAttribute::ChownRestricted(x) => Some(x),
            FileAttribute::Homogeneous(x) => Some(x),
            FileAttribute::NoTrunc(x) => Some(x),
            FileAttribute::System(x) => Some(x),
            _ => None,
        }
    }

    fn from_value_ref<'a>(v: &'a FileAttribute) -> (r: Option<&'a Self>) {
        match v {
            FileAttribute::LinkSupport(x) => Some(x),
            FileAttribute::SymlinkSupport(x) => Some(x),
            FileAttribute::NamedAttr(x) => Some(x),
            FileAttribute::UniqueHandles(x) => Some(x),
            FileAttribute::Archive(x) => Some(x),
            FileAttribute::CanSetTime(x) => Some(x),
            FileAttribute::CaseInsensitive(x) => Some(x),
            FileAttribute::CasePreserving(x) => Some(x),
            FileAttribute::ChownRestricted(x) => Some(x),
            FileAttribute::Homogeneous(x) => Some(x),
            FileAttribute::NoTrunc(x) => Some(x),
            FileAttribute::System(x) => Some(x),
            _ => None,
        }
    }
}

impl Payload<FileAttribute> for FsId {
    open spec fn payload_of(v: FileAttribute) -> Option<Self> {
        match v {
            FileAttribute::FsId(x) => Some(x),
            _ => None,
        }
    }

    fn from_value(v: FileAttribute) -> (r: Option<Self>) {
        match v {
            FileAttribute::FsId(x) => Some(x),
            _ => None,
        }
    }

    fn from_value_ref<'a>(v: &'a FileAttribute) -> (r: Option<&'a Self>) {
        match v {
            FileAttribute::FsId(x) => Some(x),
            _ => None,
        }
    }
}

impl Payload<FileAttribute> for Lease {
    open spec fn payload_of(v: FileAttribute) -> Option<Self> {
        match v {
            FileAttribute::LeaseTime(x) => Some(x),
            _ => None,
        }
    }

    fn from_value(v: FileAttribute) -> (r: Option<Self>) {
        match v {
            FileAttribute::LeaseTime(x) => Some(x),
            _ => None,
        }
    }

    fn from_value_ref<'a>(v: &'a FileAttribute) -> (r: Option<&'a Self>) {
        match v {
            FileAttribute::LeaseTime(x) => Some(x),
            _ => None,
        }
    }
}

impl Payload<FileAttribute> for StatusResult<()> {
    open spec fn payload_of(v: FileAttribute) -> Option<Self> {
        match v {
            FileAttribute::ReadDirAttrError(x) => Some(x),
            _ => None,
        }
    }

    fn from_value(v: FileAttribute) -> (r: Option<Self>) {
        match v {
            FileAttribute::ReadDirAttrError(x) => Some(x),
            _ => None,
        }
    }

    fn from_value_ref<'a>(v: &'a FileAttribute) -> (r: Option<&'a Self>) {
        match v {
            FileAttribute::ReadDirAttrError(x) => Some(x),
            _ => None,
        }
    }
}

impl Payload<FileAttribute> for Acl {
    open spec fn payload_of(v: FileAttribute) -> Option<Self> {
        match v {
            FileAttribute::Acl(x) => Some(x),
            _ => None,
        }
    }

    fn from_value(v: FileAttribute) -> (r: Option<Self>) {
        match v {
            FileAttribute::Acl(x) => Some(x),
            _ => None,
        }
    }

    fn from_value_ref<'a>(v: &'a FileAttribute) -> (r: Option<&'a Self>) {
        match v {
            FileAttribute::Acl(x) => Some(x),
            _ => None,
        }
    }
}

impl Payload<FileAttribute> for FileHandle {
    open spec fn payload_of(v: FileAttribute) -> Option<Self> {
        match v {
            FileAttribute::FileHandle(x) => Some(x),
            _ => None,
        }
    }

    fn from_value(v: FileAttribute) -> (r: Option<Self>) {
        match v {
            FileAttribute::FileHandle(x) => Some(x),
            _ => None,
        }
    }

    fn from_value_ref<'a>(v: &'a FileAttribute) -> (r: Option<&'a Self>) {
        match v {
            FileAttribute::FileHandle(x) => Some(x),
            _ => None,
        }
    }
}

impl Payload<FileAttribute> for FileId {
    open spec fn payload_of(v: FileAttribute) -> Option<Self> {
        match v {
            FileAttribute::FileId(x) => Some(x),
            FileAttribute::MountedOnFileid(x) => Some(x),
            _ => None,
        }
    }

    fn from_value(v: FileAttribute) -> (r: Option<Self>) {
        match v {
            FileAttribute::FileId(x) => Some(x),
            FileAttribute::MountedOnFileid(x) => Some(x),
            _ => None,
        }
    }

    fn from_value_ref<'a>(v: &'a FileAttribute) -> (r: Option<&'a Self>) {
        match v {
            FileAttribute::FileId(x) => Some(x),
            FileAttribute::MountedOnFileid(x) => Some(x),
            _ => None,
        }
    }
}

impl Payload<FileAttribute> for FsLocations {
    open spec fn payload_of(v: FileAttribute) -> Option<Self> {
        match v {
            FileAttribute::FsLocations(x) => Some(x),
            _ => None,
        }
    }

    fn from_value(v: FileAttribute) -> (r: Option<Self>) {
        match v {
            FileAttribute::FsLocations(x) => Some(x),
            _ => None,
        }
    }

    fn from_value_ref<'a>(v: &'a FileAttribute) -> (r: Option<&'a Self>) {
        match v {
            FileAttribute::FsLocations(x) => Some(x),
            _ => None,
        }
    }
}

impl Payload<FileAttribute> for String {
    open spec fn payload_of(v: FileAttribute) -> Option<Self> {
        match v {
            FileAttribute::MimeType(x) => Some(x),
            FileAttribute::Owner(x) => Some(x),
            FileAttribute::OwnerGroup(x) => Some(x),
            _ => None,
        }
    }

    fn from_value(v: FileAttribute) -> (r: Option<Self>) {
        match v {
            FileAttribute::MimeType(x) => Some(x),
            FileAttribute::Owner(x) => Some(x),
            FileAttribute::OwnerGroup(x) => Some(x),
            _ => None,
        }
    }

    fn from_value_ref<'a>(v: &'a FileAttribute) -> (r: Option<&'a Self>) {
        match v {
            FileAttribute::MimeType(x) => Some(x),
            FileAttribute::Owner(x) => Some(x),
            FileAttribute::OwnerGroup(x) => Some(x),
            _ => None,
        }
    }
}

impl Payload<FileAttribute> for Mode {
    open spec fn payload_of(v: FileAttribute) -> Option<Self> {
        match v {
            FileAttribute::Mode(x) => Some(x),
            _ => None,
        }
    }

    fn from_value(v: FileAttribute) -> (r: Option<Self>) {
        match v {
            FileAttribute::Mode(x) => Some(x),
            _ => None,
        }
    }

    fn from_value_ref<'a>(v: &'a FileAttribute) -> (r: Option<&'a Self>) {
        match v {
            FileAttribute::Mode(x) => Some(x),
            _ => None,
        }
    }
}

impl Payload<FileAttribute> for DeviceData {
    open spec fn payload_of(v: FileAttribute) -> Option<Self> {
        match v {
            FileAttribute::RawDev(x) => Some(x),
            _ => None,
        }
    }

    fn from_value(v: FileAttribute) -> (r: Option<Self>) {
        match v {
            FileAttribute::RawDev(x) => Some(x),
            _ => None,
        }
    }

    fn from_value_ref<'a>(v: &'a FileAttribute) -> (r: Option<&'a Self>) {
        match v {
            FileAttribute::RawDev(x) => Some(x),
            _ => None,
        }
    }
}

impl Payload<FileAttribute> for Time {
    open spec fn payload_of(v: FileAttribute) -> Option<Self> {
        match v {
            FileAttribute::TimeAccess(x) => Some(x),
            FileAttribute::TimeBackup(x) => Some(x),
            FileAttribute::TimeCreate(x) => Some(x),
            FileAttribute::TimeDelta(x) => Some(x),
            FileAttribute::TimeMetadata(x) => Some(x),
            FileAttribute::TimeModify(x) => Some(x),
            FileAttribute::DirNotifDelay(x) => Some(x),
            FileAttribute::DirentNotifDelay(x) => Some(x),
            _ => None,
        }
    }

    fn from_value(v: FileAttribute) -> (r: Option<Self>) {
        match v {
            FileAttribute::TimeAccess(x) => Some(x),
            FileAttribute::TimeBackup(x) => Some(x),
            FileAttribute::TimeCreate(x) => Some(x),
            FileAttribute::TimeDelta(x) => Some(x),
            FileAttribute::TimeMetadata(x) => Some(x),
            FileAttribute::TimeModify(x) => Some(x),
            FileAttribute::DirNotifDelay(x) => Some(x),
            FileAttribute::DirentNotifDelay(x) => Some(x),
            _ => None,
        }
    }

    fn from_value_ref<'a>(v: &'a FileAttribute) -> (r: Option<&'a Self>) {
        match v {
            FileAttribute::TimeAccess(x) => Some(x),
            FileAttribute::TimeBackup(x) => Some(x),
            FileAttribute::TimeCreate(x) => Some(x),
            FileAttribute::TimeDelta(x) => Some(x),
            FileAttribute::TimeMetadata(x) => Some(x),
            FileAttribute::TimeModify(x) => Some(x),
            FileAttribute::DirNotifDelay(x) => Some(x),
            FileAttribute::DirentNotifDelay(x) => Some(x),
            _ => None,
        }
    }
}

impl Payload<FileAttribute> for SetTime {
    open spec fn payload_of(v: FileAttribute) -> Option<Self> {
        match v {
            FileAttribute::TimeAccessSet(x) => Some(x),
            FileAttribute::TimeModifySet(x) => Some(x),
            _ => None,
        }
    }

    fn from_value(v: FileAttribute) -> (r: Option<Self>) {
        match v {
            FileAttribute::TimeAccessSet(x) => Some(x),
            FileAttribute::TimeModifySet(x) => Some(x),
            _ => None,
        }
    }

    fn from_value_ref<'a>(v: &'a FileAttribute) -> (r: Option<&'a Self>) {
        match v {
            FileAttribute::TimeAccessSet(x) => Some(x),
            FileAttribute::TimeModifySet(x) => Some(x),
            _ => None,
        }
    }
}

impl Payload<FileAttribute> for AclWithFlags {
    open spec fn payload_of(v: FileAttribute) -> Option<Self> {
        match v {
            FileAttribute::Dacl(x) => Some(x),
            FileAttribute::Sacl(x) => Some(x),
            _ => None,
        }
    }

    fn from_value(v: FileAttribute) -> (r: Option<Self>) {
        match v {
            FileAttribute::Dacl(x) => Some(x),
            FileAttribute::Sacl(x) => Some(x),
            _ => None,
        }
    }

    fn from_value_ref<'a>(v: &'a FileAttribute) -> (r: Option<&'a Self>) {
        match v {
            FileAttribute::Dacl(x) => Some(x),
            FileAttribute::Sacl(x) => Some(x),
            _ => None,
        }
    }
}

impl Payload<FileAttribute> for ChangePolicy {
    open spec fn payload_of(v: FileAttribute) -> Option<Self> {
        match v {
            FileAttribute::ChangePolicy(x) => Some(x),
            _ => None,
        }
    }

    fn from_value(v: FileAttribute) -> (r: Option<Self>) {
        match v {
            FileAttribute::ChangePolicy(x) => Some(x),
            _ => None,
        }
    }

    fn from_value_ref<'a>(v: &'a FileAttribute) -> (r: Option<&'a Self>) {
        match v {
            FileAttribute::ChangePolicy(x) => Some(x),
            _ => None,
        }
    }
}

impl Payload<FileAttribute> for FsStatus {
    open spec fn payload_of(v: FileAttribute) -> Option<Self> {
        match v {
            FileAttribute::FsStatus(x) => Some(x),
            _ => None,
        }
    }

    fn from_value(v: FileAttribute) -> (r: Option<Self>) {
        match v {
            FileAttribute::FsStatus(x) => Some(x),
            _ => None,
        }
    }

    fn from_value_ref<'a>(v: &'a FileAttribute) -> (r: Option<&'a Self>) {
        match v {
            FileAttribute::FsStatus(x) => Some(x),
            _ => None,
        }
    }
}

impl Payload<FileAttribute> for Vec<LayoutType> {
    open spec fn payload_of(v: FileAttribute) -> Option<Self> {
        match v {
            FileAttribute::FsLayoutType(x) => Some(x),
            FileAttribute::LayoutType(x) => Some(x),
            _ => None,
        }
    }

    fn from_value(v: FileAttribute) -> (r: Option<Self>) {
        match v {
            FileAttribute::FsLayoutType(x) => Some(x),
            FileAttribute::LayoutType(x) => Some(x),
            _ => None,
        }
    }

    fn from_value_ref<'a>(v: &'a FileAttribute) -> (r: Option<&'a Self>) {
        match v {
            FileAttribute::FsLayoutType(x) => Some(x),
            FileAttribute::LayoutType(x) => Some(x),
            _ => None,
        }
    }
}

impl Payload<FileAttribute> for LayoutHint {
    open spec fn payload_of(v: FileAttribute) -> Option<Self> {
        match v {
            FileAttribute::LayoutHint(x) => Some(x),
            _ => None,
        }
    }

    fn from_value(v: FileAttribute) -> (r: Option<Self>) {
        match v {
            FileAttribute::LayoutHint(x) => Some(x),
            _ => None,
        }
    }

    fn from_value_ref<'a>(v: &'a FileAttribute) -> (r: Option<&'a Self>) {
        match v {
            FileAttribute::LayoutHint(x) => Some(x),
            _ => None,
        }
    }
}

impl Payload<FileAttribute> for FsLocationsInfo {
    open spec fn payload_of(v: FileAttribute) -> Option<Self> {
        match v {
            FileAttribute::FsLocationsInfo(x) => Some(x),
            _ => None,
        }
    }

    fn from_value(v: FileAttribute) -> (r: Option<Self>) {
        match v {
            FileAttribute::FsLocationsInfo(x) => Some(x),
            _ => None,
        }
    }

    fn from_value_ref<'a>(v: &'a FileAttribute) -> (r: Option<&'a Self>) {
        match v {
            FileAttribute::FsLocationsInfo(x) => Some(x),
            _ => None,
        }
    }
}

impl Payload<FileAttribute> for MdsThreshold {
    open spec fn payload_of(v: FileAttribute) -> Option<Self> {
        match v {
            FileAttribute::MdsThreshold(x) => Some(x),
            _ => None,
        }
    }

    fn from_value(v: FileAttribute) -> (r: Option<Self>) {
        match v {
            FileAttribute::MdsThreshold(x) => Some(x),
            _ => None,
        }
    }

    fn from_value_ref<'a>(v: &'a FileAttribute) -> (r: Option<&'a Self>) {
        match v {
            FileAttribute::MdsThreshold(x) => Some(x),
            _ => None,
        }
    }
}

impl Payload<FileAttribute> for RetentionGet {
    open spec fn payload_of(v: FileAttribute) -> Option<Self> {
        match v {
            FileAttribute::RetentionGet(x) => Some(x),
            FileAttribute::RetentevtGet(x) => Some(x),
            _ => None,
        }
    }

    fn from_value(v: FileAttribute) -> (r: Option<Self>) {
        match v {
            FileAttribute::RetentionGet(x) => Some(x),
            FileAttribute::RetentevtGet(x) => Some(x),
            _ => None,
        }
    }

    fn from_value_ref<'a>(v: &'a FileAttribute) -> (r: Option<&'a Self>) {
        match v {
            FileAttribute::RetentionGet(x) => Some(x),
            FileAttribute::RetentevtGet(x) => Some(x),
            _ => None,
        }
    }
}

impl Payload<FileAttribute> for RetentionSet {
    open spec fn payload_of(v: FileAttribute) -> Option<Self> {
        match v {
            FileAttribute::RetentionSet(x) => Some(x),
            FileAttribute::RetentevtSet(x) => Some(x),
            _ => None,
        }
    }

    fn from_value(v: FileAttribute) -> (r: Option<Self>) {
        match v {
            FileAttribute::RetentionSet(x) => Some(x),
            FileAttribute::RetentevtSet(x) => Some(x),
            _ => None,
        }
    }

    fn from_value_ref<'a>(v: &'a FileAttribute) -> (r: Option<&'a Self>) {
        match v {
            FileAttribute::RetentionSet(x) => Some(x),
            FileAttribute::RetentevtSet(x) => Some(x),
            _ => None,
        }
    }
}

impl Payload<FileAttribute> for ModeMasked {
    open spec fn payload_of(v: FileAttribute) -> Option<Self> {
        match v {
            FileAttribute::ModeSetMasked(x) => Some(x),
            _ => None,
        }
    }

    fn from_value(v: FileAttribute) -> (r: Option<Self>) {
        match v {
            FileAttribute::ModeSetMasked(x) => Some(x),
            _ => None,
        }
    }

    fn from_value_ref<'a>(v: &'a FileAttribute) -> (r: Option<&'a Self>) {
        match v {
            FileAttribute::ModeSetMasked(x) => Some(x),
            _ => None,
        }
    }
}

/// The attributes of a file: a map from attribute identifiers to their values.
pub type FileAttributes = EnumMap<FileAttributeId, FileAttribute>;

impl Tagged for FileAttributeId {
    open spec fn discriminant(m: FileAttributeId) -> u32 {
        Self::tag(m)
    }

    proof fn lemma_leads_with_discriminant(m: FileAttributeId) {
        Self::lemma_wire_leads_with_tag(m);
    }
}

impl Tagged for FileType {
    open spec fn discriminant(m: FileType) -> u32 {
        Self::tag(m)
    }

    proof fn lemma_leads_with_discriminant(m: FileType) {
        Self::lemma_wire_leads_with_tag(m);
    }
}

impl Tagged for SetTime {
    open spec fn discriminant(m: SetTime) -> u32 {
        Self::tag(m)
    }

    proof fn lemma_leads_with_discriminant(m: SetTime) {
        Self::lemma_wire_leads_with_tag(m);
    }
}

impl Tagged for AceType {
    open spec fn discriminant(m: AceType) -> u32 {
        Self::tag(m)
    }

    proof fn lemma_leads_with_discriminant(m: AceType) {
        Self::lemma_wire_leads_with_tag(m);
    }
}

impl Tagged for FsStatusType {
    open spec fn discriminant(m: FsStatusType) -> u32 {
        Self::tag(m)
    }

    proof fn lemma_leads_with_discriminant(m: FsStatusType) {
        Self::lemma_wire_leads_with_tag(m);
    }
}

impl Tagged for ThresholdAttributeId {
    open spec fn discriminant(m: ThresholdAttributeId) -> u32 {
        Self::tag(m)
    }

    proof fn lemma_leads_with_discriminant(m: ThresholdAttributeId) {
        Self::lemma_wire_leads_with_tag(m);
    }
}

impl Tagged for ThresholdAttribute {
    open spec fn discriminant(m: ThresholdAttribute) -> u32 {
        Self::tag(m)
    }

    proof fn lemma_leads_with_discriminant(m: ThresholdAttribute) {
        Self::lemma_wire_leads_with_tag(m);
    }
}

impl Tagged for FileAttribute {
    open spec fn discriminant(m: FileAttributeModel) -> u32 {
        Self::tag(m)
    }

    proof fn lemma_leads_with_discriminant(m: FileAttributeModel) {
        Self::lemma_wire_leads_with_tag(m);
    }
}

} // verus!
