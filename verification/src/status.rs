//! Status codes, and results that carry either a value or a status code.

use crate::basic::{LockDenied, LockDeniedModel};
use crate::flags::{Access};
use crate::xdr::{
    lemma_concat_assoc, lemma_u32_round_trip, parse_u32, wire_u32, EncodeError, Xdr, XdrError,
};
use crate::xdr::Tagged;
use vstd::prelude::*;

verus! {

/// The ways in which an operation can fail, each with its number on the wire.
#[derive(Clone, Copy, Debug, PartialEq, Eq)]
pub enum StatusError {
    Perm,
    NoEnt,
    Io,
    NxIo,
    Access,
    Exist,
    XDev,
    NotDir,
    Isdir,
    Inval,
    FBig,
    NoSpc,
    RoFs,
    MLink,
    NameTooLong,
    NotEmpty,
    DQuot,
    Stale,
    BadHandle,
    BadCookie,
    NotSupported,
    TooSmall,
    ServerFault,
    BadType,
    Delay,
    Same,
    Denied,
    Expired,
    Locked,
    Grace,
    FhExpired,
    ShareDenied,
    WrongSec,
    ClidInUse,
    Moved,
    NoFileHandle,
    MinorVersMismatch,
    StaleClientId,
    StaleStateId,
    OldStateId,
    BadStateId,
    BadSeqId,
    NotSame,
    LockRange,
    Symlink,
    RestoreFh,
    LeaseMoved,
    AttrNotSupported,
    NoGrace,
    ReclaimBad,
    ReclaimConflict,
    BadXdr,
    LocksHeld,
    OpenMode,
    BadOwner,
    BadChar,
    BadName,
    BadRange,
    LockNotSupported,
    OpIllegal,
    Deadlock,
    FileOpen,
    AdminRevoked,
    CbPathDown,
    BadIoMode,
    BadLayout,
    BadSessionDigest,
    BadSession,
    BadSlot,
    CompleteAlready,
    ConnNotBoundToSession,
    DelegAlreadyWanted,
    BackChanBusy,
    LayoutTryLater,
    LayoutUnavailable,
    NoMatchingLayout,
    RecallConflict,
    UnknownLayoutType,
    SeqMisordered,
    SequencePos,
    ReqTooBig,
    RepTooBig,
    RepTooBigToCache,
    RetryUncachedRep,
    UnsafeCompound,
    TooManyOps,
    OpNotInSession,
    HashAlgUnsupported,
    ClientIdBusy,
    PnfsIoHole,
    SeqFalseRetry,
    BadHighSlot,
    DeadSession,
    EncrAlgUnsupported,
    PnfsNoLayout,
    NotOnlyOp,
    WrongCred,
    WrongType,
    DirDelegUnavail,
    RejectDeleg,
    ReturnConflict,
    DelegRevoked,
}

impl StatusError {
    /// The discriminant that leads the encoding of a value.
    pub open spec fn tag(m: StatusError) -> u32 {
        match m {
            StatusError::Perm => 1,
            StatusError::NoEnt => 2,
            StatusError::Io => 5,
            StatusError::NxIo => 6,
            StatusError::Access => 13,
            StatusError::Exist => 17,
            StatusError::XDev => 18,
            StatusError::NotDir => 20,
            StatusError::Isdir => 21,
            StatusError::Inval => 22,
            StatusError::FBig => 27,
            StatusError::NoSpc => 28,
            StatusError::RoFs => 30,
            StatusError::MLink => 31,
            StatusError::NameTooLong => 63,
            StatusError::NotEmpty => 66,
            StatusError::DQuot => 69,
            StatusError::Stale => 70,
            StatusError::BadHandle => 10001,
            StatusError::BadCookie => 10003,
            StatusError::NotSupported => 10004,
            StatusError::TooSmall => 10005,
            StatusError::ServerFault => 10006,
            StatusError::BadType => 10007,
            StatusError::Delay => 10008,
            StatusError::Same => 10009,
            StatusError::Denied => 10010,
            StatusError::Expired => 10011,
            StatusError::Locked => 10012,
            StatusError::Grace => 10013,
            StatusError::FhExpired => 10014,
            StatusError::ShareDenied => 10015,
            StatusError::WrongSec => 10016,
            StatusError::ClidInUse => 10017,
            StatusError::Moved => 10019,
            StatusError::NoFileHandle => 10020,
            StatusError::MinorVersMismatch => 10021,
            StatusError::StaleClientId => 10022,
            StatusError::StaleStateId => 10023,
            StatusError::OldStateId => 10024,
            StatusError::BadStateId => 10025,
            StatusError::BadSeqId => 10026,
            StatusError::NotSame => 10027,
            StatusError::LockRange => 10028,
            StatusError::Symlink => 10029,
            StatusError::RestoreFh => 10030,
            StatusError::LeaseMoved => 10031,
            StatusError::AttrNotSupported => 10032,
            StatusError::NoGrace => 10033,
            StatusError::ReclaimBad => 10034,
            StatusError::ReclaimConflict => 10035,
            StatusError::BadXdr => 10036,
            StatusError::LocksHeld => 10037,
            StatusError::OpenMode => 10038,
            StatusError::BadOwner => 10039,
            StatusError::BadChar => 10040,
            StatusError::BadName => 10041,
            StatusError::BadRange => 10042,
            StatusError::LockNotSupported => 10043,
            StatusError::OpIllegal => 10044,
            StatusError::Deadlock => 10045,
            StatusError::FileOpen => 10046,
            StatusError::AdminRevoked => 10047,
            StatusError::CbPathDown => 10048,
            StatusError::BadIoMode => 10049,
            StatusError::BadLayout => 10050,
            StatusError::BadSessionDigest => 10051,
            StatusError::BadSession => 10052,
            StatusError::BadSlot => 10053,
            StatusError::CompleteAlready => 10054,
            StatusError::ConnNotBoundToSession => 10055,
            StatusError::DelegAlreadyWanted => 10056,
            StatusError::BackChanBusy => 10057,
            StatusError::LayoutTryLater => 10058,
            StatusError::LayoutUnavailable => 10059,
            StatusError::NoMatchingLayout => 10060,
            StatusError::RecallConflict => 10061,
            StatusError::UnknownLayoutType => 10062,
            StatusError::SeqMisordered => 10063,
            StatusError::SequencePos => 10064,
            StatusError::ReqTooBig => 10065,
            StatusError::RepTooBig => 10066,
            StatusError::RepTooBigToCache => 10067,
            StatusError::RetryUncachedRep => 10068,
            StatusError::UnsafeCompound => 10069,
            StatusError::TooManyOps => 10070,
            StatusError::OpNotInSession => 10071,
            StatusError::HashAlgUnsupported => 10072,
            StatusError::ClientIdBusy => 10074,
            StatusError::PnfsIoHole => 10075,
            StatusError::SeqFalseRetry => 10076,
            StatusError::BadHighSlot => 10077,
            StatusError::DeadSession => 10078,
            StatusError::EncrAlgUnsupported => 10079,
            StatusError::PnfsNoLayout => 10080,
            StatusError::NotOnlyOp => 10081,
            StatusError::WrongCred => 10082,
            StatusError::WrongType => 10083,
            StatusError::DirDelegUnavail => 10084,
            StatusError::RejectDeleg => 10085,
            StatusError::ReturnConflict => 10086,
            StatusError::DelegRevoked => 10087,
        }
    }

    /// What follows the discriminant in the encoding of a value.
    #[verifier::opaque]
    pub open spec fn wire_payload(m: StatusError) -> Seq<u8> {
        match m {
            StatusError::Perm => Seq::<u8>::empty(),
            StatusError::NoEnt => Seq::<u8>::empty(),
            StatusError::Io => Seq::<u8>::empty(),
            StatusError::NxIo => Seq::<u8>::empty(),
            StatusError::Access => Seq::<u8>::empty(),
            StatusError::Exist => Seq::<u8>::empty(),
            StatusError::XDev => Seq::<u8>::empty(),
            StatusError::NotDir => Seq::<u8>::empty(),
            StatusError::Isdir => Seq::<u8>::empty(),
            StatusError::Inval => Seq::<u8>::empty(),
            StatusError::FBig => Seq::<u8>::empty(),
            StatusError::NoSpc => Seq::<u8>::empty(),
            StatusError::RoFs => Seq::<u8>::empty(),
            StatusError::MLink => Seq::<u8>::empty(),
            StatusError::NameTooLong => Seq::<u8>::empty(),
            StatusError::NotEmpty => Seq::<u8>::empty(),
            StatusError::DQuot => Seq::<u8>::empty(),
            StatusError::Stale => Seq::<u8>::empty(),
            StatusError::BadHandle => Seq::<u8>::empty(),
            StatusError::BadCookie => Seq::<u8>::empty(),
            StatusError::NotSupported => Seq::<u8>::empty(),
            StatusError::TooSmall => Seq::<u8>::empty(),
            StatusError::ServerFault => Seq::<u8>::empty(),
            StatusError::BadType => Seq::<u8>::empty(),
            StatusError::Delay => Seq::<u8>::empty(),
            StatusError::Same => Seq::<u8>::empty(),
            StatusError::Denied => Seq::<u8>::empty(),
            StatusError::Expired => Seq::<u8>::empty(),
            StatusError::Locked => Seq::<u8>::empty(),
            StatusError::Grace => Seq::<u8>::empty(),
            StatusError::FhExpired => Seq::<u8>::empty(),
            StatusError::ShareDenied => Seq::<u8>::empty(),
            StatusError::WrongSec => Seq::<u8>::empty(),
            StatusError::ClidInUse => Seq::<u8>::empty(),
            StatusError::Moved => Seq::<u8>::empty(),
            StatusError::NoFileHandle => Seq::<u8>::empty(),
            StatusError::MinorVersMismatch => Seq::<u8>::empty(),
            StatusError::StaleClientId => Seq::<u8>::empty(),
            StatusError::StaleStateId => Seq::<u8>::empty(),
            StatusError::OldStateId => Seq::<u8>::empty(),
            StatusError::BadStateId => Seq::<u8>::empty(),
            StatusError::BadSeqId => Seq::<u8>::empty(),
            StatusError::NotSame => Seq::<u8>::empty(),
            StatusError::LockRange => Seq::<u8>::empty(),
            StatusError::Symlink => Seq::<u8>::empty(),
            StatusError::RestoreFh => Seq::<u8>::empty(),
            StatusError::LeaseMoved => Seq::<u8>::empty(),
            StatusError::AttrNotSupported => Seq::<u8>::empty(),
            StatusError::NoGrace => Seq::<u8>::empty(),
            StatusError::ReclaimBad => Seq::<u8>::empty(),
            StatusError::ReclaimConflict => Seq::<u8>::empty(),
            StatusError::BadXdr => Seq::<u8>::empty(),
            StatusError::LocksHeld => Seq::<u8>::empty(),
            StatusError::OpenMode => Seq::<u8>::empty(),
            StatusError::BadOwner => Seq::<u8>::empty(),
            StatusError::BadChar => Seq::<u8>::empty(),
            StatusError::BadName => Seq::<u8>::empty(),
            StatusError::BadRange => Seq::<u8>::empty(),
            StatusError::LockNotSupported => Seq::<u8>::empty(),
            StatusError::OpIllegal => Seq::<u8>::empty(),
            StatusError::Deadlock => Seq::<u8>::empty(),
            StatusError::FileOpen => Seq::<u8>::empty(),
            StatusError::AdminRevoked => Seq::<u8>::empty(),
            StatusError::CbPathDown => Seq::<u8>::empty(),
            StatusError::BadIoMode => Seq::<u8>::empty(),
            StatusError::BadLayout => Seq::<u8>::empty(),
            StatusError::BadSessionDigest => Seq::<u8>::empty(),
            StatusError::BadSession => Seq::<u8>::empty(),
            StatusError::BadSlot => Seq::<u8>::empty(),
            StatusError::CompleteAlready => Seq::<u8>::empty(),
            StatusError::ConnNotBoundToSession => Seq::<u8>::empty(),
            StatusError::DelegAlreadyWanted => Seq::<u8>::empty(),
            StatusError::BackChanBusy => Seq::<u8>::empty(),
            StatusError::LayoutTryLater => Seq::<u8>::empty(),
            StatusError::LayoutUnavailable => Seq::<u8>::empty(),
            StatusError::NoMatchingLayout => Seq::<u8>::empty(),
            StatusError::RecallConflict => Seq::<u8>::empty(),
            StatusError::UnknownLayoutType => Seq::<u8>::empty(),
            StatusError::SeqMisordered => Seq::<u8>::empty(),
            StatusError::SequencePos => Seq::<u8>::empty(),
            StatusError::ReqTooBig => Seq::<u8>::empty(),
            StatusError::RepTooBig => Seq::<u8>::empty(),
            StatusError::RepTooBigToCache => Seq::<u8>::empty(),
            StatusError::RetryUncachedRep => Seq::<u8>::empty(),
            StatusError::UnsafeCompound => Seq::<u8>::empty(),
            StatusError::TooManyOps => Seq::<u8>::empty(),
            StatusError::OpNotInSession => Seq::<u8>::empty(),
            StatusError::HashAlgUnsupported => Seq::<u8>::empty(),
            StatusError::ClientIdBusy => Seq::<u8>::empty(),
            StatusError::PnfsIoHole => Seq::<u8>::empty(),
            StatusError::SeqFalseRetry => Seq::<u8>::empty(),
            StatusError::BadHighSlot => Seq::<u8>::empty(),
            StatusError::DeadSession => Seq::<u8>::empty(),
            StatusError::EncrAlgUnsupported => Seq::<u8>::empty(),
            StatusError::PnfsNoLayout => Seq::<u8>::empty(),
            StatusError::NotOnlyOp => Seq::<u8>::empty(),
            StatusError::WrongCred => Seq::<u8>::empty(),
            StatusError::WrongType => Seq::<u8>::empty(),
            StatusError::DirDelegUnavail => Seq::<u8>::empty(),
            StatusError::RejectDeleg => Seq::<u8>::empty(),
            StatusError::ReturnConflict => Seq::<u8>::empty(),
            StatusError::DelegRevoked => Seq::<u8>::empty(),
        }
    }

    /// The value with the discriminant `tag` whose payload is at the front of `s`.
    #[verifier::opaque]
    pub open spec fn parse_payload(
        tag: u32,
        s: Seq<u8>,
    ) -> Result<(StatusError, Seq<u8>), XdrError> {
        if tag == 1 {
            Ok((StatusError::Perm, s))
        } else if tag == 2 {
            Ok((StatusError::NoEnt, s))
        } else if tag == 5 {
            Ok((StatusError::Io, s))
        } else if tag == 6 {
            Ok((StatusError::NxIo, s))
        } else if tag == 13 {
            Ok((StatusError::Access, s))
        } else if tag == 17 {
            Ok((StatusError::Exist, s))
        } else if tag == 18 {
            Ok((StatusError::XDev, s))
        } else if tag == 20 {
            Ok((StatusError::NotDir, s))
        } else if tag == 21 {
            Ok((StatusError::Isdir, s))
        } else if tag == 22 {
            Ok((StatusError::Inval, s))
        } else if tag == 27 {
            Ok((StatusError::FBig, s))
        } else if tag == 28 {
            Ok((StatusError::NoSpc, s))
        } else if tag == 30 {
            Ok((StatusError::RoFs, s))
        } else if tag == 31 {
            Ok((StatusError::MLink, s))
        } else if tag == 63 {
            Ok((StatusError::NameTooLong, s))
        } else if tag == 66 {
            Ok((StatusError::NotEmpty, s))
        } else if tag == 69 {
            Ok((StatusError::DQuot, s))
        } else if tag == 70 {
            Ok((StatusError::Stale, s))
        } else if tag == 10001 {
            Ok((StatusError::BadHandle, s))
        } else if tag == 10003 {
            Ok((StatusError::BadCookie, s))
        } else if tag == 10004 {
            Ok((StatusError::NotSupported, s))
        } else if tag == 10005 {
            Ok((StatusError::TooSmall, s))
        } else if tag == 10006 {
            Ok((StatusError::ServerFault, s))
        } else if tag == 10007 {
            Ok((StatusError::BadType, s))
        } else if tag == 10008 {
            Ok((StatusError::Delay, s))
        } else if tag == 10009 {
            Ok((StatusError::Same, s))
        } else if tag == 10010 {
            Ok((StatusError::Denied, s))
        } else if tag == 10011 {
            Ok((StatusError::Expired, s))
        } else if tag == 10012 {
            Ok((StatusError::Locked, s))
        } else if tag == 10013 {
            Ok((StatusError::Grace, s))
        } else if tag == 10014 {
            Ok((StatusError::FhExpired, s))
        } else if tag == 10015 {
            Ok((StatusError::ShareDenied, s))
        } else if tag == 10016 {
            Ok((StatusError::WrongSec, s))
        } else if tag == 10017 {
            Ok((StatusError::ClidInUse, s))
        } else if tag == 10019 {
            Ok((StatusError::Moved, s))
        } else if tag == 10020 {
            Ok((StatusError::NoFileHandle, s))
        } else if tag == 10021 {
            Ok((StatusError::MinorVersMismatch, s))
        } else if tag == 10022 {
            Ok((StatusError::StaleClientId, s))
        } else if tag == 10023 {
            Ok((StatusError::StaleStateId, s))
        } else if tag == 10024 {
            Ok((StatusError::OldStateId, s))
        } else if tag == 10025 {
            Ok((StatusError::BadStateId, s))
        } else if tag == 10026 {
            Ok((StatusError::BadSeqId, s))
        } else if tag == 10027 {
            Ok((StatusError::NotSame, s))
        } else if tag == 10028 {
            Ok((StatusError::LockRange, s))
        } else if tag == 10029 {
            Ok((StatusError::Symlink, s))
        } else if tag == 10030 {
            Ok((StatusError::RestoreFh, s))
        } else if tag == 10031 {
            Ok((StatusError::LeaseMoved, s))
        } else if tag == 10032 {
            Ok((StatusError::AttrNotSupported, s))
        } else if tag == 10033 {
            Ok((StatusError::NoGrace, s))
        } else if tag == 10034 {
            Ok((StatusError::ReclaimBad, s))
        } else if tag == 10035 {
            Ok((StatusError::ReclaimConflict, s))
        } else if tag == 10036 {
            Ok((StatusError::BadXdr, s))
        } else if tag == 10037 {
            Ok((StatusError::LocksHeld, s))
        } else if tag == 10038 {
            Ok((StatusError::OpenMode, s))
        } else if tag == 10039 {
            Ok((StatusError::BadOwner, s))
        } else if tag == 10040 {
            Ok((StatusError::BadChar, s))
        } else if tag == 10041 {
            Ok((StatusError::BadName, s))
        } else if tag == 10042 {
            Ok((StatusError::BadRange, s))
        } else if tag == 10043 {
            Ok((StatusError::LockNotSupported, s))
        } else if tag == 10044 {
            Ok((StatusError::OpIllegal, s))
        } else if tag == 10045 {
            Ok((StatusError::Deadlock, s))
        } else if tag == 10046 {
            Ok((StatusError::FileOpen, s))
        } else if tag == 10047 {
            Ok((StatusError::AdminRevoked, s))
        } else if tag == 10048 {
            Ok((StatusError::CbPathDown, s))
        } else if tag == 10049 {
            Ok((StatusError::BadIoMode, s))
        } else if tag == 10050 {
            Ok((StatusError::BadLayout, s))
        } else if tag == 10051 {
            Ok((StatusError::BadSessionDigest, s))
        } else if tag == 10052 {
            Ok((StatusError::BadSession, s))
        } else if tag == 10053 {
            Ok((StatusError::BadSlot, s))
        } else if tag == 10054 {
            Ok((StatusError::CompleteAlready, s))
        } else if tag == 10055 {
            Ok((StatusError::ConnNotBoundToSession, s))
        } else if tag == 10056 {
            Ok((StatusError::DelegAlreadyWanted, s))
        } else if tag == 10057 {
            Ok((StatusError::BackChanBusy, s))
        } else if tag == 10058 {
            Ok((StatusError::LayoutTryLater, s))
        } else if tag == 10059 {
            Ok((StatusError::LayoutUnavailable, s))
        } else if tag == 10060 {
            Ok((StatusError::NoMatchingLayout, s))
        } else if tag == 10061 {
            Ok((StatusError::RecallConflict, s))
        } else if tag == 10062 {
            Ok((StatusError::UnknownLayoutType, s))
        } else if tag == 10063 {
            Ok((StatusError::SeqMisordered, s))
        } else if tag == 10064 {
            Ok((StatusError::SequencePos, s))
        } else if tag == 10065 {
            Ok((StatusError::ReqTooBig, s))
        } else if tag == 10066 {
            Ok((StatusError::RepTooBig, s))
        } else if tag == 10067 {
            Ok((StatusError::RepTooBigToCache, s))
        } else if tag == 10068 {
            Ok((StatusError::RetryUncachedRep, s))
        } else if tag == 10069 {
            Ok((StatusError::UnsafeCompound, s))
        } else if tag == 10070 {
            Ok((StatusError::TooManyOps, s))
        } else if tag == 10071 {
            Ok((StatusError::OpNotInSession, s))
        } else if tag == 10072 {
            Ok((StatusError::HashAlgUnsupported, s))
        } else if tag == 10074 {
            Ok((StatusError::ClientIdBusy, s))
        } else if tag == 10075 {
            Ok((StatusError::PnfsIoHole, s))
        } else if tag == 10076 {
            Ok((StatusError::SeqFalseRetry, s))
        } else if tag == 10077 {
            Ok((StatusError::BadHighSlot, s))
        } else if tag == 10078 {
            Ok((StatusError::DeadSession, s))
        } else if tag == 10079 {
            Ok((StatusError::EncrAlgUnsupported, s))
        } else if tag == 10080 {
            Ok((StatusError::PnfsNoLayout, s))
        } else if tag == 10081 {
            Ok((StatusError::NotOnlyOp, s))
        } else if tag == 10082 {
            Ok((StatusError::WrongCred, s))
        } else if tag == 10083 {
            Ok((StatusError::WrongType, s))
        } else if tag == 10084 {
            Ok((StatusError::DirDelegUnavail, s))
        } else if tag == 10085 {
            Ok((StatusError::RejectDeleg, s))
        } else if tag == 10086 {
            Ok((StatusError::ReturnConflict, s))
        } else if tag == 10087 {
            Ok((StatusError::DelegRevoked, s))
        } else {
            Err(XdrError::UnknownStatus(tag))
        }
    }

    pub proof fn lemma_payload_round_trip(m: StatusError, rest: Seq<u8>)
        requires
            <StatusError as Xdr>::wf(m),
        ensures
            Self::parse_payload(Self::tag(m), Self::wire_payload(m) + rest)
                == Ok::<(StatusError, Seq<u8>), XdrError>((m, rest)),
    {
        reveal(StatusError::wire_payload);
        reveal(StatusError::parse_payload);
        match m {
            StatusError::Perm => {
                assert(Seq::<u8>::empty() + rest =~= rest);
            },
            StatusError::NoEnt => {
                assert(Seq::<u8>::empty() + rest =~= rest);
            },
            StatusError::Io => {
                assert(Seq::<u8>::empty() + rest =~= rest);
            },
            StatusError::NxIo => {
                assert(Seq::<u8>::empty() + rest =~= rest);
            },
            StatusError::Access => {
                assert(Seq::<u8>::empty() + rest =~= rest);
            },
            StatusError::Exist => {
                assert(Seq::<u8>::empty() + rest =~= rest);
            },
            StatusError::XDev => {
                assert(Seq::<u8>::empty() + rest =~= rest);
            },
            StatusError::NotDir => {
                assert(Seq::<u8>::empty() + rest =~= rest);
            },
            StatusError::Isdir => {
                assert(Seq::<u8>::empty() + rest =~= rest);
            },
            StatusError::Inval => {
                assert(Seq::<u8>::empty() + rest =~= rest);
            },
            StatusError::FBig => {
                assert(Seq::<u8>::empty() + rest =~= rest);
            },
            StatusError::NoSpc => {
                assert(Seq::<u8>::empty() + rest =~= rest);
            },
            StatusError::RoFs => {
                assert(Seq::<u8>::empty() + rest =~= rest);
            },
            StatusError::MLink => {
                assert(Seq::<u8>::empty() + rest =~= rest);
            },
            StatusError::NameTooLong => {
                assert(Seq::<u8>::empty() + rest =~= rest);
            },
            StatusError::NotEmpty => {
                assert(Seq::<u8>::empty() + rest =~= rest);
            },
            StatusError::DQuot => {
                assert(Seq::<u8>::empty() + rest =~= rest);
            },
            StatusError::Stale => {
                assert(Seq::<u8>::empty() + rest =~= rest);
            },
            StatusError::BadHandle => {
                assert(Seq::<u8>::empty() + rest =~= rest);
            },
            StatusError::BadCookie => {
                assert(Seq::<u8>::empty() + rest =~= rest);
            },
            StatusError::NotSupported => {
                assert(Seq::<u8>::empty() + rest =~= rest);
            },
            StatusError::TooSmall => {
                assert(Seq::<u8>::empty() + rest =~= rest);
            },
            StatusError::ServerFault => {
                assert(Seq::<u8>::empty() + rest =~= rest);
            },
            StatusError::BadType => {
                assert(Seq::<u8>::empty() + rest =~= rest);
            },
            StatusError::Delay => {
                assert(Seq::<u8>::empty() + rest =~= rest);
            },
            StatusError::Same => {
                assert(Seq::<u8>::empty() + rest =~= rest);
            },
            StatusError::Denied => {
                assert(Seq::<u8>::empty() + rest =~= rest);
            },
            StatusError::Expired => {
                assert(Seq::<u8>::empty() + rest =~= rest);
            },
            StatusError::Locked => {
                assert(Seq::<u8>::empty() + rest =~= rest);
            },
            StatusError::Grace => {
                assert(Seq::<u8>::empty() + rest =~= rest);
            },
            StatusError::FhExpired => {
                assert(Seq::<u8>::empty() + rest =~= rest);
            },
            StatusError::ShareDenied => {
                assert(Seq::<u8>::empty() + rest =~= rest);
            },
            StatusError::WrongSec => {
                assert(Seq::<u8>::empty() + rest =~= rest);
            },
            StatusError::ClidInUse => {
                assert(Seq::<u8>::empty() + rest =~= rest);
            },
            StatusError::Moved => {
                assert(Seq::<u8>::empty() + rest =~= rest);
            },
            StatusError::NoFileHandle => {
                assert(Seq::<u8>::empty() + rest =~= rest);
            },
            StatusError::MinorVersMismatch => {
                assert(Seq::<u8>::empty() + rest =~= rest);
            },
            StatusError::StaleClientId => {
                assert(Seq::<u8>::empty() + rest =~= rest);
            },
            StatusError::StaleStateId => {
                assert(Seq::<u8>::empty() + rest =~= rest);
            },
            StatusError::OldStateId => {
                assert(Seq::<u8>::empty() + rest =~= rest);
            },
            StatusError::BadStateId => {
                assert(Seq::<u8>::empty() + rest =~= rest);
            },
            StatusError::BadSeqId => {
                assert(Seq::<u8>::empty() + rest =~= rest);
            },
            StatusError::NotSame => {
                assert(Seq::<u8>::empty() + rest =~= rest);
            },
            StatusError::LockRange => {
                assert(Seq::<u8>::empty() + rest =~= rest);
            },
            StatusError::Symlink => {
                assert(Seq::<u8>::empty() + rest =~= rest);
            },
            StatusError::RestoreFh => {
                assert(Seq::<u8>::empty() + rest =~= rest);
            },
            StatusError::LeaseMoved => {
                assert(Seq::<u8>::empty() + rest =~= rest);
            },
            StatusError::AttrNotSupported => {
                assert(Seq::<u8>::empty() + rest =~= rest);
            },
            StatusError::NoGrace => {
                assert(Seq::<u8>::empty() + rest =~= rest);
            },
            StatusError::ReclaimBad => {
                assert(Seq::<u8>::empty() + rest =~= rest);
            },
            StatusError::ReclaimConflict => {
                assert(Seq::<u8>::empty() + rest =~= rest);
            },
            StatusError::BadXdr => {
                assert(Seq::<u8>::empty() + rest =~= rest);
            },
            StatusError::LocksHeld => {
                assert(Seq::<u8>::empty() + rest =~= rest);
            },
            StatusError::OpenMode => {
                assert(Seq::<u8>::empty() + rest =~= rest);
            },
            StatusError::BadOwner => {
                assert(Seq::<u8>::empty() + rest =~= rest);
            },
            StatusError::BadChar => {
                assert(Seq::<u8>::empty() + rest =~= rest);
            },
            StatusError::BadName => {
                assert(Seq::<u8>::empty() + rest =~= rest);
            },
            StatusError::BadRange => {
                assert(Seq::<u8>::empty() + rest =~= rest);
            },
            StatusError::LockNotSupported => {
                assert(Seq::<u8>::empty() + rest =~= rest);
            },
            StatusError::OpIllegal => {
                assert(Seq::<u8>::empty() + rest =~= rest);
            },
            StatusError::Deadlock => {
                assert(Seq::<u8>::empty() + rest =~= rest);
            },
            StatusError::FileOpen => {
                assert(Seq::<u8>::empty() + rest =~= rest);
            },
            StatusError::AdminRevoked => {
                assert(Seq::<u8>::empty() + rest =~= rest);
            },
            StatusError::CbPathDown => {
                assert(Seq::<u8>::empty() + rest =~= rest);
            },
            StatusError::BadIoMode => {
                assert(Seq::<u8>::empty() + rest =~= rest);
            },
            StatusError::BadLayout => {
                assert(Seq::<u8>::empty() + rest =~= rest);
            },
            StatusError::BadSessionDigest => {
                assert(Seq::<u8>::empty() + rest =~= rest);
            },
            StatusError::BadSession => {
                assert(Seq::<u8>::empty() + rest =~= rest);
            },
            StatusError::BadSlot => {
                assert(Seq::<u8>::empty() + rest =~= rest);
            },
            StatusError::CompleteAlready => {
                assert(Seq::<u8>::empty() + rest =~= rest);
            },
            StatusError::ConnNotBoundToSession => {
                assert(Seq::<u8>::empty() + rest =~= rest);
            },
            StatusError::DelegAlreadyWanted => {
                assert(Seq::<u8>::empty() + rest =~= rest);
            },
            StatusError::BackChanBusy => {
                assert(Seq::<u8>::empty() + rest =~= rest);
            },
            StatusError::LayoutTryLater => {
                assert(Seq::<u8>::empty() + rest =~= rest);
            },
            StatusError::LayoutUnavailable => {
                assert(Seq::<u8>::empty() + rest =~= rest);
            },
            StatusError::NoMatchingLayout => {
                assert(Seq::<u8>::empty() + rest =~= rest);
            },
            StatusError::RecallConflict => {
                assert(Seq::<u8>::empty() + rest =~= rest);
            },
            StatusError::UnknownLayoutType => {
                assert(Seq::<u8>::empty() + rest =~= rest);
            },
            StatusError::SeqMisordered => {
                assert(Seq::<u8>::empty() + rest =~= rest);
            },
            StatusError::SequencePos => {
                assert(Seq::<u8>::empty() + rest =~= rest);
            },
            StatusError::ReqTooBig => {
                assert(Seq::<u8>::empty() + rest =~= rest);
            },
            StatusError::RepTooBig => {
                assert(Seq::<u8>::empty() + rest =~= rest);
            },
            StatusError::RepTooBigToCache => {
                assert(Seq::<u8>::empty() + rest =~= rest);
            },
            StatusError::RetryUncachedRep => {
                assert(Seq::<u8>::empty() + rest =~= rest);
            },
            StatusError::UnsafeCompound => {
                assert(Seq::<u8>::empty() + rest =~= rest);
            },
            StatusError::TooManyOps => {
                assert(Seq::<u8>::empty() + rest =~= rest);
            },
            StatusError::OpNotInSession => {
                assert(Seq::<u8>::empty() + rest =~= rest);
            },
            StatusError::HashAlgUnsupported => {
                assert(Seq::<u8>::empty() + rest =~= rest);
            },
            StatusError::ClientIdBusy => {
                assert(Seq::<u8>::empty() + rest =~= rest);
            },
            StatusError::PnfsIoHole => {
                assert(Seq::<u8>::empty() + rest =~= rest);
            },
            StatusError::SeqFalseRetry => {
                assert(Seq::<u8>::empty() + rest =~= rest);
            },
            StatusError::BadHighSlot => {
                assert(Seq::<u8>::empty() + rest =~= rest);
            },
            StatusError::DeadSession => {
                assert(Seq::<u8>::empty() + rest =~= rest);
            },
            StatusError::EncrAlgUnsupported => {
                assert(Seq::<u8>::empty() + rest =~= rest);
            },
            StatusError::PnfsNoLayout => {
                assert(Seq::<u8>::empty() + rest =~= rest);
            },
            StatusError::NotOnlyOp => {
                assert(Seq::<u8>::empty() + rest =~= rest);
            },
            StatusError::WrongCred => {
                assert(Seq::<u8>::empty() + rest =~= rest);
            },
            StatusError::WrongType => {
                assert(Seq::<u8>::empty() + rest =~= rest);
            },
            StatusError::DirDelegUnavail => {
                assert(Seq::<u8>::empty() + rest =~= rest);
            },
            StatusError::RejectDeleg => {
                assert(Seq::<u8>::empty() + rest =~= rest);
            },
            StatusError::ReturnConflict => {
                assert(Seq::<u8>::empty() + rest =~= rest);
            },
            StatusError::DelegRevoked => {
                assert(Seq::<u8>::empty() + rest =~= rest);
            },
        }
    }

    /// The encoding of a value begins with its discriminant, big-endian.
    pub proof fn lemma_wire_leads_with_tag(m: StatusError)
        ensures
            <StatusError as Xdr>::wire(m).len() >= 4,
            <StatusError as Xdr>::wire(m).take(4) == wire_u32(Self::tag(m)),
    {
        reveal(<StatusError as Xdr>::wire);
        reveal(wire_u32);
        assert((wire_u32(Self::tag(m)) + Self::wire_payload(m)).take(4) =~= wire_u32(Self::tag(m)));
    }

    /// The discriminant of a value.
    pub fn tag_of(&self) -> (t: u32)
        ensures
            t == Self::tag(self.model()),
    {
        match self {
            StatusError::Perm => 1,
            StatusError::NoEnt => 2,
            StatusError::Io => 5,
            StatusError::NxIo => 6,
            StatusError::Access => 13,
            StatusError::Exist => 17,
            StatusError::XDev => 18,
            StatusError::NotDir => 20,
            StatusError::Isdir => 21,
            StatusError::Inval => 22,
            StatusError::FBig => 27,
            StatusError::NoSpc => 28,
            StatusError::RoFs => 30,
            StatusError::MLink => 31,
            StatusError::NameTooLong => 63,
            StatusError::NotEmpty => 66,
            StatusError::DQuot => 69,
            StatusError::Stale => 70,
            StatusError::BadHandle => 10001,
            StatusError::BadCookie => 10003,
            StatusError::NotSupported => 10004,
            StatusError::TooSmall => 10005,
            StatusError::ServerFault => 10006,
            StatusError::BadType => 10007,
            StatusError::Delay => 10008,
            StatusError::Same => 10009,
            StatusError::Denied => 10010,
            StatusError::Expired => 10011,
            StatusError::Locked => 10012,
            StatusError::Grace => 10013,
            StatusError::FhExpired => 10014,
            StatusError::ShareDenied => 10015,
            StatusError::WrongSec => 10016,
            StatusError::ClidInUse => 10017,
            StatusError::Moved => 10019,
            StatusError::NoFileHandle => 10020,
            StatusError::MinorVersMismatch => 10021,
            StatusError::StaleClientId => 10022,
            StatusError::StaleStateId => 10023,
            StatusError::OldStateId => 10024,
            StatusError::BadStateId => 10025,
            StatusError::BadSeqId => 10026,
            StatusError::NotSame => 10027,
            StatusError::LockRange => 10028,
            StatusError::Symlink => 10029,
            StatusError::RestoreFh => 10030,
            StatusError::LeaseMoved => 10031,
            StatusError::AttrNotSupported => 10032,
            StatusError::NoGrace => 10033,
            StatusError::ReclaimBad => 10034,
            StatusError::ReclaimConflict => 10035,
            StatusError::BadXdr => 10036,
            StatusError::LocksHeld => 10037,
            StatusError::OpenMode => 10038,
            StatusError::BadOwner => 10039,
            StatusError::BadChar => 10040,
            StatusError::BadName => 10041,
            StatusError::BadRange => 10042,
            StatusError::LockNotSupported => 10043,
            StatusError::OpIllegal => 10044,
            StatusError::Deadlock => 10045,
            StatusError::FileOpen => 10046,
            StatusError::AdminRevoked => 10047,
            StatusError::CbPathDown => 10048,
            StatusError::BadIoMode => 10049,
            StatusError::BadLayout => 10050,
            StatusError::BadSessionDigest => 10051,
            StatusError::BadSession => 10052,
            StatusError::BadSlot => 10053,
            StatusError::CompleteAlready => 10054,
            StatusError::ConnNotBoundToSession => 10055,
            StatusError::DelegAlreadyWanted => 10056,
            StatusError::BackChanBusy => 10057,
            StatusError::LayoutTryLater => 10058,
            StatusError::LayoutUnavailable => 10059,
            StatusError::NoMatchingLayout => 10060,
            StatusError::RecallConflict => 10061,
            StatusError::UnknownLayoutType => 10062,
            StatusError::SeqMisordered => 10063,
            StatusError::SequencePos => 10064,
            StatusError::ReqTooBig => 10065,
            StatusError::RepTooBig => 10066,
            StatusError::RepTooBigToCache => 10067,
            StatusError::RetryUncachedRep => 10068,
            StatusError::UnsafeCompound => 10069,
            StatusError::TooManyOps => 10070,
            StatusError::OpNotInSession => 10071,
            StatusError::HashAlgUnsupported => 10072,
            StatusError::ClientIdBusy => 10074,
            StatusError::PnfsIoHole => 10075,
            StatusError::SeqFalseRetry => 10076,
            StatusError::BadHighSlot => 10077,
            StatusError::DeadSession => 10078,
            StatusError::EncrAlgUnsupported => 10079,
            StatusError::PnfsNoLayout => 10080,
            StatusError::NotOnlyOp => 10081,
            StatusError::WrongCred => 10082,
            StatusError::WrongType => 10083,
            StatusError::DirDelegUnavail => 10084,
            StatusError::RejectDeleg => 10085,
            StatusError::ReturnConflict => 10086,
            StatusError::DelegRevoked => 10087,
        }
    }

    /// Appends what follows the discriminant in the encoding of `self`.
    pub fn encode_payload(&self, out: &mut Vec<u8>) -> (r: Result<(), EncodeError>)
        ensures
            r is Ok <==> <StatusError as Xdr>::wf(self.model()),
            r is Ok ==> final(out)@ == old(out)@ + Self::wire_payload(self.model()),
    {
        proof {
            reveal(StatusError::wire_payload);
        }
        match self {
            StatusError::Perm => {
                assert(out@ =~= old(out)@ + Seq::<u8>::empty());
            },
            StatusError::NoEnt => {
                assert(out@ =~= old(out)@ + Seq::<u8>::empty());
            },
            StatusError::Io => {
                assert(out@ =~= old(out)@ + Seq::<u8>::empty());
            },
            StatusError::NxIo => {
                assert(out@ =~= old(out)@ + Seq::<u8>::empty());
            },
            StatusError::Access => {
                assert(out@ =~= old(out)@ + Seq::<u8>::empty());
            },
            StatusError::Exist => {
                assert(out@ =~= old(out)@ + Seq::<u8>::empty());
            },
            StatusError::XDev => {
                assert(out@ =~= old(out)@ + Seq::<u8>::empty());
            },
            StatusError::NotDir => {
                assert(out@ =~= old(out)@ + Seq::<u8>::empty());
            },
            StatusError::Isdir => {
                assert(out@ =~= old(out)@ + Seq::<u8>::empty());
            },
            StatusError::Inval => {
                assert(out@ =~= old(out)@ + Seq::<u8>::empty());
            },
            StatusError::FBig => {
                assert(out@ =~= old(out)@ + Seq::<u8>::empty());
            },
            StatusError::NoSpc => {
                assert(out@ =~= old(out)@ + Seq::<u8>::empty());
            },
            StatusError::RoFs => {
                assert(out@ =~= old(out)@ + Seq::<u8>::empty());
            },
            StatusError::MLink => {
                assert(out@ =~= old(out)@ + Seq::<u8>::empty());
            },
            StatusError::NameTooLong => {
                assert(out@ =~= old(out)@ + Seq::<u8>::empty());
            },
            StatusError::NotEmpty => {
                assert(out@ =~= old(out)@ + Seq::<u8>::empty());
            },
            StatusError::DQuot => {
                assert(out@ =~= old(out)@ + Seq::<u8>::empty());
            },
            StatusError::Stale => {
                assert(out@ =~= old(out)@ + Seq::<u8>::empty());
            },
            StatusError::BadHandle => {
                assert(out@ =~= old(out)@ + Seq::<u8>::empty());
            },
            StatusError::BadCookie => {
                assert(out@ =~= old(out)@ + Seq::<u8>::empty());
            },
            StatusError::NotSupported => {
                assert(out@ =~= old(out)@ + Seq::<u8>::empty());
            },
            StatusError::TooSmall => {
                assert(out@ =~= old(out)@ + Seq::<u8>::empty());
            },
            StatusError::ServerFault => {
                assert(out@ =~= old(out)@ + Seq::<u8>::empty());
            },
            StatusError::BadType => {
                assert(out@ =~= old(out)@ + Seq::<u8>::empty());
            },
            StatusError::Delay => {
                assert(out@ =~= old(out)@ + Seq::<u8>::empty());
            },
            StatusError::Same => {
                assert(out@ =~= old(out)@ + Seq::<u8>::empty());
            },
            StatusError::Denied => {
                assert(out@ =~= old(out)@ + Seq::<u8>::empty());
            },
            StatusError::Expired => {
                assert(out@ =~= old(out)@ + Seq::<u8>::empty());
            },
            StatusError::Locked => {
                assert(out@ =~= old(out)@ + Seq::<u8>::empty());
            },
            StatusError::Grace => {
                assert(out@ =~= old(out)@ + Seq::<u8>::empty());
            },
            StatusError::FhExpired => {
                assert(out@ =~= old(out)@ + Seq::<u8>::empty());
            },
            StatusError::ShareDenied => {
                assert(out@ =~= old(out)@ + Seq::<u8>::empty());
            },
            StatusError::WrongSec => {
                assert(out@ =~= old(out)@ + Seq::<u8>::empty());
            },
            StatusError::ClidInUse => {
                assert(out@ =~= old(out)@ + Seq::<u8>::empty());
            },
            StatusError::Moved => {
                assert(out@ =~= old(out)@ + Seq::<u8>::empty());
            },
            StatusError::NoFileHandle => {
                assert(out@ =~= old(out)@ + Seq::<u8>::empty());
            },
            StatusError::MinorVersMismatch => {
                assert(out@ =~= old(out)@ + Seq::<u8>::empty());
            },
            StatusError::StaleClientId => {
                assert(out@ =~= old(out)@ + Seq::<u8>::empty());
            },
            StatusError::StaleStateId => {
                assert(out@ =~= old(out)@ + Seq::<u8>::empty());
            },
            StatusError::OldStateId => {
                assert(out@ =~= old(out)@ + Seq::<u8>::empty());
            },
            StatusError::BadStateId => {
                assert(out@ =~= old(out)@ + Seq::<u8>::empty());
            },
            StatusError::BadSeqId => {
                assert(out@ =~= old(out)@ + Seq::<u8>::empty());
            },
            StatusError::NotSame => {
                assert(out@ =~= old(out)@ + Seq::<u8>::empty());
            },
            StatusError::LockRange => {
                assert(out@ =~= old(out)@ + Seq::<u8>::empty());
            },
            StatusError::Symlink => {
                assert(out@ =~= old(out)@ + Seq::<u8>::empty());
            },
            StatusError::RestoreFh => {
                assert(out@ =~= old(out)@ + Seq::<u8>::empty());
            },
            StatusError::LeaseMoved => {
                assert(out@ =~= old(out)@ + Seq::<u8>::empty());
            },
            StatusError::AttrNotSupported => {
                assert(out@ =~= old(out)@ + Seq::<u8>::empty());
            },
            StatusError::NoGrace => {
                assert(out@ =~= old(out)@ + Seq::<u8>::empty());
            },
            StatusError::ReclaimBad => {
                assert(out@ =~= old(out)@ + Seq::<u8>::empty());
            },
            StatusError::ReclaimConflict => {
                assert(out@ =~= old(out)@ + Seq::<u8>::empty());
            },
            StatusError::BadXdr => {
                assert(out@ =~= old(out)@ + Seq::<u8>::empty());
            },
            StatusError::LocksHeld => {
                assert(out@ =~= old(out)@ + Seq::<u8>::empty());
            },
            StatusError::OpenMode => {
                assert(out@ =~= old(out)@ + Seq::<u8>::empty());
            },
            StatusError::BadOwner => {
                assert(out@ =~= old(out)@ + Seq::<u8>::empty());
            },
            StatusError::BadChar => {
                assert(out@ =~= old(out)@ + Seq::<u8>::empty());
            },
            StatusError::BadName => {
                assert(out@ =~= old(out)@ + Seq::<u8>::empty());
            },
            StatusError::BadRange => {
                assert(out@ =~= old(out)@ + Seq::<u8>::empty());
            },
            StatusError::LockNotSupported => {
                assert(out@ =~= old(out)@ + Seq::<u8>::empty());
            },
            StatusError::OpIllegal => {
                assert(out@ =~= old(out)@ + Seq::<u8>::empty());
            },
            StatusError::Deadlock => {
                assert(out@ =~= old(out)@ + Seq::<u8>::empty());
            },
            StatusError::FileOpen => {
                assert(out@ =~= old(out)@ + Seq::<u8>::empty());
            },
            StatusError::AdminRevoked => {
                assert(out@ =~= old(out)@ + Seq::<u8>::empty());
            },
            StatusError::CbPathDown => {
                assert(out@ =~= old(out)@ + Seq::<u8>::empty());
            },
            StatusError::BadIoMode => {
                assert(out@ =~= old(out)@ + Seq::<u8>::empty());
            },
            StatusError::BadLayout => {
                assert(out@ =~= old(out)@ + Seq::<u8>::empty());
            },
            StatusError::BadSessionDigest => {
                assert(out@ =~= old(out)@ + Seq::<u8>::empty());
            },
            StatusError::BadSession => {
                assert(out@ =~= old(out)@ + Seq::<u8>::empty());
            },
            StatusError::BadSlot => {
                assert(out@ =~= old(out)@ + Seq::<u8>::empty());
            },
            StatusError::CompleteAlready => {
                assert(out@ =~= old(out)@ + Seq::<u8>::empty());
            },
            StatusError::ConnNotBoundToSession => {
                assert(out@ =~= old(out)@ + Seq::<u8>::empty());
            },
            StatusError::DelegAlreadyWanted => {
                assert(out@ =~= old(out)@ + Seq::<u8>::empty());
            },
            StatusError::BackChanBusy => {
                assert(out@ =~= old(out)@ + Seq::<u8>::empty());
            },
            StatusError::LayoutTryLater => {
                assert(out@ =~= old(out)@ + Seq::<u8>::empty());
            },
            StatusError::LayoutUnavailable => {
                assert(out@ =~= old(out)@ + Seq::<u8>::empty());
            },
            StatusError::NoMatchingLayout => {
                assert(out@ =~= old(out)@ + Seq::<u8>::empty());
            },
            StatusError::RecallConflict => {
                assert(out@ =~= old(out)@ + Seq::<u8>::empty());
            },
            StatusError::UnknownLayoutType => {
                assert(out@ =~= old(out)@ + Seq::<u8>::empty());
            },
            StatusError::SeqMisordered => {
                assert(out@ =~= old(out)@ + Seq::<u8>::empty());
            },
            StatusError::SequencePos => {
                assert(out@ =~= old(out)@ + Seq::<u8>::empty());
            },
            StatusError::ReqTooBig => {
                assert(out@ =~= old(out)@ + Seq::<u8>::empty());
            },
            StatusError::RepTooBig => {
                assert(out@ =~= old(out)@ + Seq::<u8>::empty());
            },
            StatusError::RepTooBigToCache => {
                assert(out@ =~= old(out)@ + Seq::<u8>::empty());
            },
            StatusError::RetryUncachedRep => {
                assert(out@ =~= old(out)@ + Seq::<u8>::empty());
            },
            StatusError::UnsafeCompound => {
                assert(out@ =~= old(out)@ + Seq::<u8>::empty());
            },
            StatusError::TooManyOps => {
                assert(out@ =~= old(out)@ + Seq::<u8>::empty());
            },
            StatusError::OpNotInSession => {
                assert(out@ =~= old(out)@ + Seq::<u8>::empty());
            },
            StatusError::HashAlgUnsupported => {
                assert(out@ =~= old(out)@ + Seq::<u8>::empty());
            },
            StatusError::ClientIdBusy => {
                assert(out@ =~= old(out)@ + Seq::<u8>::empty());
            },
            StatusError::PnfsIoHole => {
                assert(out@ =~= old(out)@ + Seq::<u8>::empty());
            },
            StatusError::SeqFalseRetry => {
                assert(out@ =~= old(out)@ + Seq::<u8>::empty());
            },
            StatusError::BadHighSlot => {
                assert(out@ =~= old(out)@ + Seq::<u8>::empty());
            },
            StatusError::DeadSession => {
                assert(out@ =~= old(out)@ + Seq::<u8>::empty());
            },
            StatusError::EncrAlgUnsupported => {
                assert(out@ =~= old(out)@ + Seq::<u8>::empty());
            },
            StatusError::PnfsNoLayout => {
                assert(out@ =~= old(out)@ + Seq::<u8>::empty());
            },
            StatusError::NotOnlyOp => {
                assert(out@ =~= old(out)@ + Seq::<u8>::empty());
            },
            StatusError::WrongCred => {
                assert(out@ =~= old(out)@ + Seq::<u8>::empty());
            },
            StatusError::WrongType => {
                assert(out@ =~= old(out)@ + Seq::<u8>::empty());
            },
            StatusError::DirDelegUnavail => {
                assert(out@ =~= old(out)@ + Seq::<u8>::empty());
            },
            StatusError::RejectDeleg => {
                assert(out@ =~= old(out)@ + Seq::<u8>::empty());
            },
            StatusError::ReturnConflict => {
                assert(out@ =~= old(out)@ + Seq::<u8>::empty());
            },
            StatusError::DelegRevoked => {
                assert(out@ =~= old(out)@ + Seq::<u8>::empty());
            },
        }
        Ok(())
    }

    /// Decodes the payload of the value with the discriminant `tag`.
    pub fn decode_payload<'a>(
        tag: u32,
        input: &'a [u8],
    ) -> (r: Result<(StatusError, &'a [u8]), XdrError>)
        ensures
            match r {
                Ok((v, rest)) => {
                    Self::parse_payload(tag, input@)
                        == Ok::<(StatusError, Seq<u8>), XdrError>((v.model(), rest@))
                },
                Err(e) => {
                    Self::parse_payload(tag, input@) == Err::<(StatusError, Seq<u8>), XdrError>(e)
                },
            },
    {
        proof {
            reveal(StatusError::parse_payload);
        }
        if tag == 1 {
            Ok((StatusError::Perm, input))
        } else if tag == 2 {
            Ok((StatusError::NoEnt, input))
        } else if tag == 5 {
            Ok((StatusError::Io, input))
        } else if tag == 6 {
            Ok((StatusError::NxIo, input))
        } else if tag == 13 {
            Ok((StatusError::Access, input))
        } else if tag == 17 {
            Ok((StatusError::Exist, input))
        } else if tag == 18 {
            Ok((StatusError::XDev, input))
        } else if tag == 20 {
            Ok((StatusError::NotDir, input))
        } else if tag == 21 {
            Ok((StatusError::Isdir, input))
        } else if tag == 22 {
            Ok((StatusError::Inval, input))
        } else if tag == 27 {
            Ok((StatusError::FBig, input))
        } else if tag == 28 {
            Ok((StatusError::NoSpc, input))
        } else if tag == 30 {
            Ok((StatusError::RoFs, input))
        } else if tag == 31 {
            Ok((StatusError::MLink, input))
        } else if tag == 63 {
            Ok((StatusError::NameTooLong, input))
        } else if tag == 66 {
            Ok((StatusError::NotEmpty, input))
        } else if tag == 69 {
            Ok((StatusError::DQuot, input))
        } else if tag == 70 {
            Ok((StatusError::Stale, input))
        } else if tag == 10001 {
            Ok((StatusError::BadHandle, input))
        } else if tag == 10003 {
            Ok((StatusError::BadCookie, input))
        } else if tag == 10004 {
            Ok((StatusError::NotSupported, input))
        } else if tag == 10005 {
            Ok((StatusError::TooSmall, input))
        } else if tag == 10006 {
            Ok((StatusError::ServerFault, input))
        } else if tag == 10007 {
            Ok((StatusError::BadType, input))
        } else if tag == 10008 {
            Ok((StatusError::Delay, input))
        } else if tag == 10009 {
            Ok((StatusError::Same, input))
        } else if tag == 10010 {
            Ok((StatusError::Denied, input))
        } else if tag == 10011 {
            Ok((StatusError::Expired, input))
        } else if tag == 10012 {
            Ok((StatusError::Locked, input))
        } else if tag == 10013 {
            Ok((StatusError::Grace, input))
        } else if tag == 10014 {
            Ok((StatusError::FhExpired, input))
        } else if tag == 10015 {
            Ok((StatusError::ShareDenied, input))
        } else if tag == 10016 {
            Ok((StatusError::WrongSec, input))
        } else if tag == 10017 {
            Ok((StatusError::ClidInUse, input))
        } else if tag == 10019 {
            Ok((StatusError::Moved, input))
        } else if tag == 10020 {
            Ok((StatusError::NoFileHandle, input))
        } else if tag == 10021 {
            Ok((StatusError::MinorVersMismatch, input))
        } else if tag == 10022 {
            Ok((StatusError::StaleClientId, input))
        } else if tag == 10023 {
            Ok((StatusError::StaleStateId, input))
        } else if tag == 10024 {
            Ok((StatusError::OldStateId, input))
        } else if tag == 10025 {
            Ok((StatusError::BadStateId, input))
        } else if tag == 10026 {
            Ok((StatusError::BadSeqId, input))
        } else if tag == 10027 {
            Ok((StatusError::NotSame, input))
        } else if tag == 10028 {
            Ok((StatusError::LockRange, input))
        } else if tag == 10029 {
            Ok((StatusError::Symlink, input))
        } else if tag == 10030 {
            Ok((StatusError::RestoreFh, input))
        } else if tag == 10031 {
            Ok((StatusError::LeaseMoved, input))
        } else if tag == 10032 {
            Ok((StatusError::AttrNotSupported, input))
        } else if tag == 10033 {
            Ok((StatusError::NoGrace, input))
        } else if tag == 10034 {
            Ok((StatusError::ReclaimBad, input))
        } else if tag == 10035 {
            Ok((StatusError::ReclaimConflict, input))
        } else if tag == 10036 {
            Ok((StatusError::BadXdr, input))
        } else if tag == 10037 {
            Ok((StatusError::LocksHeld, input))
        } else if tag == 10038 {
            Ok((StatusError::OpenMode, input))
        } else if tag == 10039 {
            Ok((StatusError::BadOwner, input))
        } else if tag == 10040 {
            Ok((StatusError::BadChar, input))
        } else if tag == 10041 {
            Ok((StatusError::BadName, input))
        } else if tag == 10042 {
            Ok((StatusError::BadRange, input))
        } else if tag == 10043 {
            Ok((StatusError::LockNotSupported, input))
        } else if tag == 10044 {
            Ok((StatusError::OpIllegal, input))
        } else if tag == 10045 {
            Ok((StatusError::Deadlock, input))
        } else if tag == 10046 {
            Ok((StatusError::FileOpen, input))
        } else if tag == 10047 {
            Ok((StatusError::AdminRevoked, input))
        } else if tag == 10048 {
            Ok((StatusError::CbPathDown, input))
        } else if tag == 10049 {
            Ok((StatusError::BadIoMode, input))
        } else if tag == 10050 {
            Ok((StatusError::BadLayout, input))
        } else if tag == 10051 {
            Ok((StatusError::BadSessionDigest, input))
        } else if tag == 10052 {
            Ok((StatusError::BadSession, input))
        } else if tag == 10053 {
            Ok((StatusError::BadSlot, input))
        } else if tag == 10054 {
            Ok((StatusError::CompleteAlready, input))
        } else if tag == 10055 {
            Ok((StatusError::ConnNotBoundToSession, input))
        } else if tag == 10056 {
            Ok((StatusError::DelegAlreadyWanted, input))
        } else if tag == 10057 {
            Ok((StatusError::BackChanBusy, input))
        } else if tag == 10058 {
            Ok((StatusError::LayoutTryLater, input))
        } else if tag == 10059 {
            Ok((StatusError::LayoutUnavailable, input))
        } else if tag == 10060 {
            Ok((StatusError::NoMatchingLayout, input))
        } else if tag == 10061 {
            Ok((StatusError::RecallConflict, input))
        } else if tag == 10062 {
            Ok((StatusError::UnknownLayoutType, input))
        } else if tag == 10063 {
            Ok((StatusError::SeqMisordered, input))
        } else if tag == 10064 {
            Ok((StatusError::SequencePos, input))
        } else if tag == 10065 {
            Ok((StatusError::ReqTooBig, input))
        } else if tag == 10066 {
            Ok((StatusError::RepTooBig, input))
        } else if tag == 10067 {
            Ok((StatusError::RepTooBigToCache, input))
        } else if tag == 10068 {
            Ok((StatusError::RetryUncachedRep, input))
        } else if tag == 10069 {
            Ok((StatusError::UnsafeCompound, input))
        } else if tag == 10070 {
            Ok((StatusError::TooManyOps, input))
        } else if tag == 10071 {
            Ok((StatusError::OpNotInSession, input))
        } else if tag == 10072 {
            Ok((StatusError::HashAlgUnsupported, input))
        } else if tag == 10074 {
            Ok((StatusError::ClientIdBusy, input))
        } else if tag == 10075 {
            Ok((StatusError::PnfsIoHole, input))
        } else if tag == 10076 {
            Ok((StatusError::SeqFalseRetry, input))
        } else if tag == 10077 {
            Ok((StatusError::BadHighSlot, input))
        } else if tag == 10078 {
            Ok((StatusError::DeadSession, input))
        } else if tag == 10079 {
            Ok((StatusError::EncrAlgUnsupported, input))
        } else if tag == 10080 {
            Ok((StatusError::PnfsNoLayout, input))
        } else if tag == 10081 {
            Ok((StatusError::NotOnlyOp, input))
        } else if tag == 10082 {
            Ok((StatusError::WrongCred, input))
        } else if tag == 10083 {
            Ok((StatusError::WrongType, input))
        } else if tag == 10084 {
            Ok((StatusError::DirDelegUnavail, input))
        } else if tag == 10085 {
            Ok((StatusError::RejectDeleg, input))
        } else if tag == 10086 {
            Ok((StatusError::ReturnConflict, input))
        } else if tag == 10087 {
            Ok((StatusError::DelegRevoked, input))
        } else {
            Err(XdrError::UnknownStatus(tag))
        }
    }
}

impl Xdr for StatusError {
    type Model = StatusError;

    open spec fn model(&self) -> StatusError {
        *self
    }

    open spec fn wf(m: StatusError) -> bool {
        true
    }

    #[verifier::opaque]
    open spec fn wire(m: StatusError) -> Seq<u8> {
        wire_u32(Self::tag(m)) + Self::wire_payload(m)
    }

    #[verifier::opaque]
    open spec fn parse(s: Seq<u8>) -> Result<(StatusError, Seq<u8>), XdrError> {
        match parse_u32(s) {
            Ok((tag, r)) => Self::parse_payload(tag, r),
            Err(e) => Err(e),
        }
    }

    proof fn lemma_round_trip(m: StatusError, rest: Seq<u8>) {
        reveal(<StatusError as Xdr>::wire);
        reveal(<StatusError as Xdr>::parse);
        lemma_concat_assoc(wire_u32(Self::tag(m)), Self::wire_payload(m), rest);
        lemma_u32_round_trip(Self::tag(m), Self::wire_payload(m) + rest);
        Self::lemma_payload_round_trip(m, rest);
    }

    fn encode(&self, out: &mut Vec<u8>) -> (r: Result<(), EncodeError>) {
        proof {
            reveal(<StatusError as Xdr>::wire);
        }
        let tag = self.tag_of();
        let _ = tag.encode(out);
        self.encode_payload(out)?;
        proof {
            lemma_concat_assoc(old(out)@, wire_u32(tag), Self::wire_payload(self.model()));
        }
        Ok(())
    }

    fn decode<'a>(input: &'a [u8]) -> (r: Result<(StatusError, &'a [u8]), XdrError>) {
        proof {
            reveal(<StatusError as Xdr>::parse);
        }
        let (tag, cur) = u32::decode(input)?;
        Self::decode_payload(tag, cur)
    }
}

impl StatusError {
    /// Whether `code` is the number of a status.
    pub open spec fn known(code: u32) -> bool {
        exists|e: StatusError| StatusError::tag(e) == code
    }

    /// No status has the number 0: it stands for success.
    pub proof fn lemma_tag_is_not_zero(e: StatusError)
        ensures
            StatusError::tag(e) != 0,
    {
    }

    /// The payload of a status is empty, and the status found for a number has
    /// that number.
    pub proof fn lemma_parse_payload(code: u32, s: Seq<u8>)
        ensures
            match StatusError::parse_payload(code, s) {
                Ok((e, rest)) => StatusError::tag(e) == code && rest == s,
                Err(x) => !Self::known(code) && x == XdrError::UnknownStatus(code),
            },
    {
        reveal(StatusError::parse_payload);
    }

    /// A number that belongs to no status is not decoded: it is reported.
    pub proof fn lemma_unknown_status(code: u32, rest: Seq<u8>)
        requires
            !Self::known(code),
        ensures
            <StatusError as Xdr>::parse(wire_u32(code) + rest) == Err::<
                (StatusError, Seq<u8>),
                XdrError,
            >(XdrError::UnknownStatus(code)),
    {
        reveal(<StatusError as Xdr>::parse);
        lemma_u32_round_trip(code, rest);
        Self::lemma_parse_payload(code, rest);
    }

    /// The status with the number `code`, if there is one.
    pub fn from_code(code: u32) -> (r: Option<StatusError>)
        ensures
            match r {
                Some(e) => StatusError::tag(e) == code,
                None => !Self::known(code),
            },
    {
        proof {
            Self::lemma_parse_payload(code, Seq::<u8>::empty());
        }
        let nothing: Vec<u8> = Vec::new();
        match StatusError::decode_payload(code, nothing.as_slice()) {
            Ok((e, _)) => Some(e),
            Err(_) => None,
        }
    }
}

/// The result of an operation: its value, or the status that it failed with.
///
/// It travels as the number 0 and the value, or as the number of the status
/// alone.
#[derive(Clone, Debug, PartialEq, Eq)]
pub enum StatusResult<T> {
    Success(T),
    Failure(StatusError),
}

impl<T: Xdr> Xdr for StatusResult<T> {
    type Model = StatusResult<T::Model>;

    open spec fn canonical(&self) -> bool {
        match self {
            StatusResult::Success(v) => v.canonical(),
            StatusResult::Failure(_) => true,
        }
    }

    open spec fn model(&self) -> StatusResult<T::Model> {
        match self {
            StatusResult::Success(v) => StatusResult::Success(v.model()),
            StatusResult::Failure(e) => StatusResult::Failure(*e),
        }
    }

    open spec fn wf(m: StatusResult<T::Model>) -> bool {
        match m {
            StatusResult::Success(v) => T::wf(v),
            StatusResult::Failure(_) => true,
        }
    }

    #[verifier::opaque]
    open spec fn wire(m: StatusResult<T::Model>) -> Seq<u8> {
        match m {
            StatusResult::Success(v) => wire_u32(0) + T::wire(v),
            StatusResult::Failure(e) => wire_u32(StatusError::tag(e)),
        }
    }

    #[verifier::opaque]
    open spec fn parse(s: Seq<u8>) -> Result<(StatusResult<T::Model>, Seq<u8>), XdrError> {
        match parse_u32(s) {
            Err(e) => Err(e),
            Ok((code, s1)) => if code == 0 {
                match T::parse(s1) {
                    Err(e) => Err(e),
                    Ok((v, s2)) => Ok((StatusResult::Success(v), s2)),
                }
            } else {
                match StatusError::parse_payload(code, s1) {
                    Err(e) => Err(e),
                    Ok((status, s2)) => Ok((StatusResult::Failure(status), s2)),
                }
            },
        }
    }

    proof fn lemma_round_trip(m: StatusResult<T::Model>, rest: Seq<u8>) {
        reveal(<StatusResult<_> as Xdr>::wire);
        reveal(<StatusResult<_> as Xdr>::parse);
        match m {
            StatusResult::Success(v) => {
                lemma_concat_assoc(wire_u32(0), T::wire(v), rest);
                lemma_u32_round_trip(0, T::wire(v) + rest);
                T::lemma_round_trip(v, rest);
            },
            StatusResult::Failure(e) => {
                lemma_u32_round_trip(StatusError::tag(e), rest);
                StatusError::lemma_parse_payload(StatusError::tag(e), rest);
            },
        }
    }

    fn encode(&self, out: &mut Vec<u8>) -> (r: Result<(), EncodeError>) {
        proof {
            reveal(<StatusResult<_> as Xdr>::wire);
        }
        match self {
            StatusResult::Success(v) => {
                let code: u32 = 0;
                let _ = code.encode(out);
                v.encode(out)?;
                proof {
                    lemma_concat_assoc(old(out)@, wire_u32(0), T::wire(v.model()));
                }
            },
            StatusResult::Failure(e) => {
                let code = e.tag_of();
                let _ = code.encode(out);
            },
        }
        Ok(())
    }

    fn decode<'a>(input: &'a [u8]) -> (r: Result<(StatusResult<T>, &'a [u8]), XdrError>) {
        proof {
            reveal(<StatusResult<_> as Xdr>::parse);
        }
        let (code, cur) = u32::decode(input)?;
        if code == 0 {
            let (v, cur) = T::decode(cur)?;
            Ok((StatusResult::Success(v), cur))
        } else {
            let (status, cur) = StatusError::decode_payload(code, cur)?;
            Ok((StatusResult::Failure(status), cur))
        }
    }
}

/// Why a lock operation failed: the status, and with the status `Denied` the
/// lock that stands in the way.
#[derive(Clone, Debug, PartialEq, Eq)]
pub struct LockStatusError {
    pub error: StatusError,
    pub denied: Option<LockDenied>,
}

/// What a [`LockStatusError`] stands for.
pub struct LockStatusErrorModel {
    pub error: StatusError,
    pub denied: Option<LockDeniedModel>,
}

impl LockStatusError {
    /// Whether the error holds nothing that does not travel: a lock that
    /// stands in the way if and only if its status is `Denied`.
    pub open spec fn canonical(&self) -> bool {
        self.denied is Some <==> self.error == StatusError::Denied
    }

    /// What the error stands for: its status, and the lock that stands in
    /// the way only with the status `Denied`. A lock that is held beside
    /// another status does not travel, and stands for nothing.
    pub open spec fn model(&self) -> LockStatusErrorModel {
        LockStatusErrorModel {
            error: self.error,
            denied: if self.error == StatusError::Denied {
                self.denied.model()
            } else {
                None
            },
        }
    }
}

/// Two canonical errors that stand for the same hold the same: the same
/// status, and both a lock or both none; and the locks stand for the same.
pub proof fn lemma_canonical_errors_agree(a: LockStatusError, b: LockStatusError)
    requires
        a.canonical(),
        b.canonical(),
        a.model() == b.model(),
    ensures
        a.error == b.error,
        a.denied is Some <==> b.denied is Some,
        a.denied.model() == b.denied.model(),
{
}

/// The result of a lock operation: its value, or why it failed.
///
/// It travels as a [`StatusResult`] does; after the number of the status
/// `Denied` the denied lock follows, and after no other. A failure with the
/// status `Denied` that holds no lock has no encoding.
#[derive(Clone, Debug, PartialEq, Eq)]
pub enum LockStatusResult<T> {
    Success(T),
    Failure(LockStatusError),
}

/// What a [`LockStatusResult`] stands for.
pub enum LockStatusResultModel<M> {
    Success(M),
    Failure(LockStatusErrorModel),
}

impl<T: Xdr> Xdr for LockStatusResult<T> {
    type Model = LockStatusResultModel<T::Model>;

    open spec fn model(&self) -> LockStatusResultModel<T::Model> {
        match self {
            LockStatusResult::Success(v) => LockStatusResultModel::Success(v.model()),
            LockStatusResult::Failure(e) => LockStatusResultModel::Failure(e.model()),
        }
    }

    /// A failure is canonical when it holds a denied lock if and only if
    /// its status is `Denied`.
    open spec fn canonical(&self) -> bool {
        match self {
            LockStatusResult::Success(v) => v.canonical(),
            LockStatusResult::Failure(e) => e.canonical() && (e.denied matches Some(d)
                ==> d.canonical()),
        }
    }

    /// A failure stands for a denied lock if and only if its status is
    /// `Denied`.
    open spec fn wf(m: LockStatusResultModel<T::Model>) -> bool {
        match m {
            LockStatusResultModel::Success(v) => T::wf(v),
            LockStatusResultModel::Failure(e) => match e.denied {
                Some(d) => e.error == StatusError::Denied && LockDenied::wf(d),
                None => e.error != StatusError::Denied,
            },
        }
    }

    #[verifier::opaque]
    open spec fn wire(m: LockStatusResultModel<T::Model>) -> Seq<u8> {
        match m {
            LockStatusResultModel::Success(v) => wire_u32(0) + T::wire(v),
            LockStatusResultModel::Failure(e) => match e.denied {
                Some(d) => wire_u32(StatusError::tag(e.error)) + LockDenied::wire(d),
                None => wire_u32(StatusError::tag(e.error)),
            },
        }
    }

    #[verifier::opaque]
    open spec fn parse(s: Seq<u8>) -> Result<(LockStatusResultModel<T::Model>, Seq<u8>), XdrError> {
        match parse_u32(s) {
            Err(e) => Err(e),
            Ok((code, s1)) => if code == 0 {
                match T::parse(s1) {
                    Err(e) => Err(e),
                    Ok((v, s2)) => Ok((LockStatusResultModel::Success(v), s2)),
                }
            } else {
                match StatusError::parse_payload(code, s1) {
                    Err(e) => Err(e),
                    Ok((error, s2)) => if error == StatusError::Denied {
                        match LockDenied::parse(s2) {
                            Err(e) => Err(e),
                            Ok((d, s3)) => Ok(
                                (
                                    LockStatusResultModel::Failure(
                                        LockStatusErrorModel { error, denied: Some(d) },
                                    ),
                                    s3,
                                ),
                            ),
                        }
                    } else {
                        Ok(
                            (
                                LockStatusResultModel::Failure(
                                    LockStatusErrorModel { error, denied: None },
                                ),
                                s2,
                            ),
                        )
                    },
                }
            },
        }
    }

    proof fn lemma_round_trip(m: LockStatusResultModel<T::Model>, rest: Seq<u8>) {
        reveal(<LockStatusResult<_> as Xdr>::wire);
        reveal(<LockStatusResult<_> as Xdr>::parse);
        match m {
            LockStatusResultModel::Success(v) => {
                lemma_concat_assoc(wire_u32(0), T::wire(v), rest);
                lemma_u32_round_trip(0, T::wire(v) + rest);
                T::lemma_round_trip(v, rest);
            },
            LockStatusResultModel::Failure(e) => {
                let code = StatusError::tag(e.error);
                match e.denied {
                    Some(d) => {
                        lemma_concat_assoc(wire_u32(code), LockDenied::wire(d), rest);
                        lemma_u32_round_trip(code, LockDenied::wire(d) + rest);
                        StatusError::lemma_parse_payload(code, LockDenied::wire(d) + rest);
                        LockDenied::lemma_round_trip(d, rest);
                    },
                    None => {
                        lemma_u32_round_trip(code, rest);
                        StatusError::lemma_parse_payload(code, rest);
                    },
                }
            },
        }
    }

    fn encode(&self, out: &mut Vec<u8>) -> (r: Result<(), EncodeError>) {
        proof {
            reveal(<LockStatusResult<_> as Xdr>::wire);
        }
        match self {
            LockStatusResult::Success(v) => {
                let code: u32 = 0;
                let _ = code.encode(out);
                v.encode(out)?;
                proof {
                    lemma_concat_assoc(old(out)@, wire_u32(0), T::wire(v.model()));
                }
            },
            LockStatusResult::Failure(e) => {
                let code = e.error.tag_of();
                let is_denied = matches!(e.error, StatusError::Denied);
                if is_denied {
                    match &e.denied {
                        Some(d) => {
                            let _ = code.encode(out);
                            d.encode(out)?;
                            proof {
                                lemma_concat_assoc(
                                    old(out)@,
                                    wire_u32(code),
                                    LockDenied::wire(d.model()),
                                );
                            }
                        },
                        None => {
                            return Err(EncodeError);
                        },
                    }
                } else {
                    let _ = code.encode(out);
                }
            },
        }
        Ok(())
    }

    /// After the status 0 the value is decoded; after the status `Denied`
    /// the denied lock; after any other status nothing, and the failure
    /// holds no lock.
    fn decode<'a>(input: &'a [u8]) -> (r: Result<(LockStatusResult<T>, &'a [u8]), XdrError>)
        ensures
            match r {
                Ok((LockStatusResult::Failure(f), _)) => (f.denied is Some <==> f.error
                    == StatusError::Denied),
                _ => true,
            },
    {
        proof {
            reveal(<LockStatusResult<_> as Xdr>::parse);
        }
        let (code, cur) = u32::decode(input)?;
        if code == 0 {
            let (v, cur) = T::decode(cur)?;
            Ok((LockStatusResult::Success(v), cur))
        } else {
            let (error, cur) = StatusError::decode_payload(code, cur)?;
            if matches!(error, StatusError::Denied) {
                let (d, cur) = LockDenied::decode(cur)?;
                Ok((LockStatusResult::Failure(LockStatusError { error, denied: Some(d) }), cur))
            } else {
                Ok((LockStatusResult::Failure(LockStatusError { error, denied: None }), cur))
            }
        }
    }
}

impl Tagged for StatusError {
    open spec fn discriminant(m: StatusError) -> u32 {
        Self::tag(m)
    }

    proof fn lemma_leads_with_discriminant(m: StatusError) {
        Self::lemma_wire_leads_with_tag(m);
    }
}

impl<T: Xdr> Tagged for StatusResult<T> {
    /// The status: 0 for success, and else the number of the failure.
    open spec fn discriminant(m: StatusResult<T::Model>) -> u32 {
        match m {
            StatusResult::Success(_) => 0,
            StatusResult::Failure(e) => StatusError::tag(e),
        }
    }

    proof fn lemma_leads_with_discriminant(m: StatusResult<T::Model>) {
        reveal(<StatusResult<_> as Xdr>::wire);
        reveal(wire_u32);
        match m {
            StatusResult::Success(v) => {
                assert((wire_u32(0) + T::wire(v)).take(4) =~= wire_u32(0));
            },
            StatusResult::Failure(e) => {
                assert(wire_u32(StatusError::tag(e)).take(4) =~= wire_u32(StatusError::tag(e)));
            },
        }
    }
}

impl<T: Xdr> Tagged for LockStatusResult<T> {
    /// The status: 0 for success, and else the number of the failure.
    open spec fn discriminant(m: LockStatusResultModel<T::Model>) -> u32 {
        match m {
            LockStatusResultModel::Success(_) => 0,
            LockStatusResultModel::Failure(e) => StatusError::tag(e.error),
        }
    }

    proof fn lemma_leads_with_discriminant(m: LockStatusResultModel<T::Model>) {
        reveal(<LockStatusResult<_> as Xdr>::wire);
        reveal(wire_u32);
        match m {
            LockStatusResultModel::Success(v) => {
                assert((wire_u32(0) + T::wire(v)).take(4) =~= wire_u32(0));
            },
            LockStatusResultModel::Failure(e) => {
                let code = wire_u32(StatusError::tag(e.error));
                match e.denied {
                    Some(d) => {
                        assert((code + LockDenied::wire(d)).take(4) =~= code);
                    },
                    None => {
                        assert(code.take(4) =~= code);
                    },
                }
            },
        }
    }
}

} // verus!
