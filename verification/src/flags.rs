//! Flag words: sets of named bits that travel as one 32-bit word.

use crate::xdr::{lemma_u32_round_trip, parse_u32, wire_u32, EncodeError, Xdr, XdrError};
use vstd::prelude::*;

verus! {

#[derive(Clone, Copy, Debug, PartialEq, Eq)]
pub struct Access {
    pub bits: u32,
}

impl Access {
    pub const READ: u32 = 0x00000001;

    pub const LOOKUP: u32 = 0x00000002;

    pub const MODIFY: u32 = 0x00000004;

    pub const EXTEND: u32 = 0x00000008;

    pub const DELETE: u32 = 0x00000010;

    pub const EXECUTE: u32 = 0x00000020;

    /// Every bit that has a meaning.
    pub const ALL: u32 = 0x0000003f;

    /// Whether `bits` holds no bit without a meaning.
    pub open spec fn known(bits: u32) -> bool {
        bits & !0x0000003fu32 == 0
    }

    /// No flag.
    pub fn empty() -> (r: Self)
        ensures
            r.bits == 0,
    {
        Access { bits: 0 }
    }

    /// The flags of `bits`, where every bit of it has a meaning.
    pub fn from_bits(bits: u32) -> (r: Option<Self>)
        ensures
            r == if Self::known(bits) {
                Some(Access { bits })
            } else {
                None::<Self>
            },
    {
        if bits & !0x0000003fu32 == 0 {
            Some(Access { bits })
        } else {
            None
        }
    }

    /// The flags as a word.
    pub fn bits(&self) -> (r: u32)
        ensures
            r == self.bits,
    {
        self.bits
    }

    /// Whether every bit of `flags` is set.
    pub fn contains(&self, flags: u32) -> (r: bool)
        ensures
            r == (self.bits & flags == flags),
    {
        self.bits & flags == flags
    }
}

/// Flags travel as one word; a word with a bit that has no meaning is no value.
impl Xdr for Access {
    type Model = Access;

    open spec fn model(&self) -> Access {
        *self
    }

    open spec fn wf(m: Access) -> bool {
        Self::known(m.bits)
    }

    open spec fn wire(m: Access) -> Seq<u8> {
        wire_u32(m.bits)
    }

    open spec fn parse(s: Seq<u8>) -> Result<(Access, Seq<u8>), XdrError> {
        match parse_u32(s) {
            Ok((bits, rest)) => if Self::known(bits) {
                Ok((Access { bits }, rest))
            } else {
                Err(XdrError::InvalidFlags(bits))
            },
            Err(e) => Err(e),
        }
    }

    proof fn lemma_round_trip(m: Access, rest: Seq<u8>) {
        lemma_u32_round_trip(m.bits, rest);
    }

    fn encode(&self, out: &mut Vec<u8>) -> (r: Result<(), EncodeError>) {
        if self.bits & !0x0000003fu32 != 0 {
            return Err(EncodeError);
        }
        self.bits.encode(out)
    }

    fn decode<'a>(input: &'a [u8]) -> (r: Result<(Access, &'a [u8]), XdrError>) {
        let (bits, rest) = u32::decode(input)?;
        if bits & !0x0000003fu32 != 0 {
            return Err(XdrError::InvalidFlags(bits));
        }
        Ok((Access { bits }, rest))
    }
}

#[derive(Clone, Copy, Debug, PartialEq, Eq)]
pub struct AceFlags {
    pub bits: u32,
}

impl AceFlags {
    pub const FILE_INHERIT_ACE: u32 = 0x00000001;

    pub const DIRECTORY_INHERIT_ACE: u32 = 0x00000002;

    pub const NO_PROPAGATE_INHERIT_ACE: u32 = 0x00000004;

    pub const INHERIT_ONLY_ACE: u32 = 0x00000008;

    pub const SUCCESSFUL_ACCESS_ACE_FLAG: u32 = 0x00000010;

    pub const FAILED_ACCESS_ACE_FLAG: u32 = 0x00000020;

    pub const IDENTIFIER_GROUP: u32 = 0x00000040;

    pub const INHERITED_ACE: u32 = 0x00000080;

    /// Every bit that has a meaning.
    pub const ALL: u32 = 0x000000ff;

    /// Whether `bits` holds no bit without a meaning.
    pub open spec fn known(bits: u32) -> bool {
        bits & !0x000000ffu32 == 0
    }

    /// No flag.
    pub fn empty() -> (r: Self)
        ensures
            r.bits == 0,
    {
        AceFlags { bits: 0 }
    }

    /// The flags of `bits`, where every bit of it has a meaning.
    pub fn from_bits(bits: u32) -> (r: Option<Self>)
        ensures
            r == if Self::known(bits) {
                Some(AceFlags { bits })
            } else {
                None::<Self>
            },
    {
        if bits & !0x000000ffu32 == 0 {
            Some(AceFlags { bits })
        } else {
            None
        }
    }

    /// The flags as a word.
    pub fn bits(&self) -> (r: u32)
        ensures
            r == self.bits,
    {
        self.bits
    }

    /// Whether every bit of `flags` is set.
    pub fn contains(&self, flags: u32) -> (r: bool)
        ensures
            r == (self.bits & flags == flags),
    {
        self.bits & flags == flags
    }
}

/// Flags travel as one word; a word with a bit that has no meaning is no value.
impl Xdr for AceFlags {
    type Model = AceFlags;

    open spec fn model(&self) -> AceFlags {
        *self
    }

    open spec fn wf(m: AceFlags) -> bool {
        Self::known(m.bits)
    }

    open spec fn wire(m: AceFlags) -> Seq<u8> {
        wire_u32(m.bits)
    }

    open spec fn parse(s: Seq<u8>) -> Result<(AceFlags, Seq<u8>), XdrError> {
        match parse_u32(s) {
            Ok((bits, rest)) => if Self::known(bits) {
                Ok((AceFlags { bits }, rest))
            } else {
                Err(XdrError::InvalidFlags(bits))
            },
            Err(e) => Err(e),
        }
    }

    proof fn lemma_round_trip(m: AceFlags, rest: Seq<u8>) {
        lemma_u32_round_trip(m.bits, rest);
    }

    fn encode(&self, out: &mut Vec<u8>) -> (r: Result<(), EncodeError>) {
        if self.bits & !0x000000ffu32 != 0 {
            return Err(EncodeError);
        }
        self.bits.encode(out)
    }

    fn decode<'a>(input: &'a [u8]) -> (r: Result<(AceFlags, &'a [u8]), XdrError>) {
        let (bits, rest) = u32::decode(input)?;
        if bits & !0x000000ffu32 != 0 {
            return Err(XdrError::InvalidFlags(bits));
        }
        Ok((AceFlags { bits }, rest))
    }
}

#[derive(Clone, Copy, Debug, PartialEq, Eq)]
pub struct AceMask {
    pub bits: u32,
}

impl AceMask {
    pub const READ_DATA: u32 = 0x00000001;

    pub const LIST_DIRECTORY: u32 = 0x00000001;

    pub const WRITE_DATA: u32 = 0x00000002;

    pub const ADD_FILE: u32 = 0x00000002;

    pub const APPEND_DATA: u32 = 0x00000004;

    pub const ADD_SUBDIRECTORY: u32 = 0x00000004;

    pub const READ_NAMED_ATTRS: u32 = 0x00000008;

    pub const WRITE_NAMED_ATTRS: u32 = 0x00000010;

    pub const EXECUTE: u32 = 0x00000020;

    pub const DELETE_CHILD: u32 = 0x00000040;

    pub const READ_ATTRIBUTES: u32 = 0x00000080;

    pub const WRITE_ATTRIBUTES: u32 = 0x00000100;

    pub const WRITE_RETENTION: u32 = 0x00000200;

    pub const WRITE_RETENTION_HOLD: u32 = 0x00000400;

    pub const DELETE: u32 = 0x00010000;

    pub const READ_ACL: u32 = 0x00020000;

    pub const WRITE_ACL: u32 = 0x00040000;

    pub const WRITE_OWNER: u32 = 0x00080000;

    pub const SYNCHRONIZE: u32 = 0x00100000;

    /// Every bit that has a meaning.
    pub const ALL: u32 = 0x001f07ff;

    /// Whether `bits` holds no bit without a meaning.
    pub open spec fn known(bits: u32) -> bool {
        bits & !0x001f07ffu32 == 0
    }

    /// No flag.
    pub fn empty() -> (r: Self)
        ensures
            r.bits == 0,
    {
        AceMask { bits: 0 }
    }

    /// The flags of `bits`, where every bit of it has a meaning.
    pub fn from_bits(bits: u32) -> (r: Option<Self>)
        ensures
            r == if Self::known(bits) {
                Some(AceMask { bits })
            } else {
                None::<Self>
            },
    {
        if bits & !0x001f07ffu32 == 0 {
            Some(AceMask { bits })
        } else {
            None
        }
    }

    /// The flags as a word.
    pub fn bits(&self) -> (r: u32)
        ensures
            r == self.bits,
    {
        self.bits
    }

    /// Whether every bit of `flags` is set.
    pub fn contains(&self, flags: u32) -> (r: bool)
        ensures
            r == (self.bits & flags == flags),
    {
        self.bits & flags == flags
    }
}

/// Flags travel as one word; a word with a bit that has no meaning is no value.
impl Xdr for AceMask {
    type Model = AceMask;

    open spec fn model(&self) -> AceMask {
        *self
    }

    open spec fn wf(m: AceMask) -> bool {
        Self::known(m.bits)
    }

    open spec fn wire(m: AceMask) -> Seq<u8> {
        wire_u32(m.bits)
    }

    open spec fn parse(s: Seq<u8>) -> Result<(AceMask, Seq<u8>), XdrError> {
        match parse_u32(s) {
            Ok((bits, rest)) => if Self::known(bits) {
                Ok((AceMask { bits }, rest))
            } else {
                Err(XdrError::InvalidFlags(bits))
            },
            Err(e) => Err(e),
        }
    }

    proof fn lemma_round_trip(m: AceMask, rest: Seq<u8>) {
        lemma_u32_round_trip(m.bits, rest);
    }

    fn encode(&self, out: &mut Vec<u8>) -> (r: Result<(), EncodeError>) {
        if self.bits & !0x001f07ffu32 != 0 {
            return Err(EncodeError);
        }
        self.bits.encode(out)
    }

    fn decode<'a>(input: &'a [u8]) -> (r: Result<(AceMask, &'a [u8]), XdrError>) {
        let (bits, rest) = u32::decode(input)?;
        if bits & !0x001f07ffu32 != 0 {
            return Err(XdrError::InvalidFlags(bits));
        }
        Ok((AceMask { bits }, rest))
    }
}

#[derive(Clone, Copy, Debug, PartialEq, Eq)]
pub struct AclFlags {
    pub bits: u32,
}

impl AclFlags {
    pub const AUTO_INHERIT: u32 = 0x00000001;

    pub const PROTECTED: u32 = 0x00000002;

    pub const DEFAULTED: u32 = 0x00000004;

    /// Every bit that has a meaning.
    pub const ALL: u32 = 0x00000007;

    /// Whether `bits` holds no bit without a meaning.
    pub open spec fn known(bits: u32) -> bool {
        bits & !0x00000007u32 == 0
    }

    /// No flag.
    pub fn empty() -> (r: Self)
        ensures
            r.bits == 0,
    {
        AclFlags { bits: 0 }
    }

    /// The flags of `bits`, where every bit of it has a meaning.
    pub fn from_bits(bits: u32) -> (r: Option<Self>)
        ensures
            r == if Self::known(bits) {
                Some(AclFlags { bits })
            } else {
                None::<Self>
            },
    {
        if bits & !0x00000007u32 == 0 {
            Some(AclFlags { bits })
        } else {
            None
        }
    }

    /// The flags as a word.
    pub fn bits(&self) -> (r: u32)
        ensures
            r == self.bits,
    {
        self.bits
    }

    /// Whether every bit of `flags` is set.
    pub fn contains(&self, flags: u32) -> (r: bool)
        ensures
            r == (self.bits & flags == flags),
    {
        self.bits & flags == flags
    }
}

/// Flags travel as one word; a word with a bit that has no meaning is no value.
impl Xdr for AclFlags {
    type Model = AclFlags;

    open spec fn model(&self) -> AclFlags {
        *self
    }

    open spec fn wf(m: AclFlags) -> bool {
        Self::known(m.bits)
    }

    open spec fn wire(m: AclFlags) -> Seq<u8> {
        wire_u32(m.bits)
    }

    open spec fn parse(s: Seq<u8>) -> Result<(AclFlags, Seq<u8>), XdrError> {
        match parse_u32(s) {
            Ok((bits, rest)) => if Self::known(bits) {
                Ok((AclFlags { bits }, rest))
            } else {
                Err(XdrError::InvalidFlags(bits))
            },
            Err(e) => Err(e),
        }
    }

    proof fn lemma_round_trip(m: AclFlags, rest: Seq<u8>) {
        lemma_u32_round_trip(m.bits, rest);
    }

    fn encode(&self, out: &mut Vec<u8>) -> (r: Result<(), EncodeError>) {
        if self.bits & !0x00000007u32 != 0 {
            return Err(EncodeError);
        }
        self.bits.encode(out)
    }

    fn decode<'a>(input: &'a [u8]) -> (r: Result<(AclFlags, &'a [u8]), XdrError>) {
        let (bits, rest) = u32::decode(input)?;
        if bits & !0x00000007u32 != 0 {
            return Err(XdrError::InvalidFlags(bits));
        }
        Ok((AclFlags { bits }, rest))
    }
}

#[derive(Clone, Copy, Debug, PartialEq, Eq)]
pub struct FsLocationsInfoFlags {
    pub bits: u32,
}

impl FsLocationsInfoFlags {
    pub const VAR_SUB: u32 = 0x00000001;

    /// Every bit that has a meaning.
    pub const ALL: u32 = 0x00000001;

    /// Whether `bits` holds no bit without a meaning.
    pub open spec fn known(bits: u32) -> bool {
        bits & !0x00000001u32 == 0
    }

    /// No flag.
    pub fn empty() -> (r: Self)
        ensures
            r.bits == 0,
    {
        FsLocationsInfoFlags { bits: 0 }
    }

    /// The flags of `bits`, where every bit of it has a meaning.
    pub fn from_bits(bits: u32) -> (r: Option<Self>)
        ensures
            r == if Self::known(bits) {
                Some(FsLocationsInfoFlags { bits })
            } else {
                None::<Self>
            },
    {
        if bits & !0x00000001u32 == 0 {
            Some(FsLocationsInfoFlags { bits })
        } else {
            None
        }
    }

    /// The flags as a word.
    pub fn bits(&self) -> (r: u32)
        ensures
            r == self.bits,
    {
        self.bits
    }

    /// Whether every bit of `flags` is set.
    pub fn contains(&self, flags: u32) -> (r: bool)
        ensures
            r == (self.bits & flags == flags),
    {
        self.bits & flags == flags
    }
}

/// Flags travel as one word; a word with a bit that has no meaning is no value.
impl Xdr for FsLocationsInfoFlags {
    type Model = FsLocationsInfoFlags;

    open spec fn model(&self) -> FsLocationsInfoFlags {
        *self
    }

    open spec fn wf(m: FsLocationsInfoFlags) -> bool {
        Self::known(m.bits)
    }

    open spec fn wire(m: FsLocationsInfoFlags) -> Seq<u8> {
        wire_u32(m.bits)
    }

    open spec fn parse(s: Seq<u8>) -> Result<(FsLocationsInfoFlags, Seq<u8>), XdrError> {
        match parse_u32(s) {
            Ok((bits, rest)) => if Self::known(bits) {
                Ok((FsLocationsInfoFlags { bits }, rest))
            } else {
                Err(XdrError::InvalidFlags(bits))
            },
            Err(e) => Err(e),
        }
    }

    proof fn lemma_round_trip(m: FsLocationsInfoFlags, rest: Seq<u8>) {
        lemma_u32_round_trip(m.bits, rest);
    }

    fn encode(&self, out: &mut Vec<u8>) -> (r: Result<(), EncodeError>) {
        if self.bits & !0x00000001u32 != 0 {
            return Err(EncodeError);
        }
        self.bits.encode(out)
    }

    fn decode<'a>(input: &'a [u8]) -> (r: Result<(FsLocationsInfoFlags, &'a [u8]), XdrError>) {
        let (bits, rest) = u32::decode(input)?;
        if bits & !0x00000001u32 != 0 {
            return Err(XdrError::InvalidFlags(bits));
        }
        Ok((FsLocationsInfoFlags { bits }, rest))
    }
}

#[derive(Clone, Copy, Debug, PartialEq, Eq)]
pub struct ShareAccess {
    pub bits: u32,
}

impl ShareAccess {
    pub const READ: u32 = 0x00000001;

    pub const WRITE: u32 = 0x00000002;

    pub const BOTH: u32 = 0x00000003;

    pub const WANT_DELEG_MASK: u32 = 0x0000ff00;

    pub const WANT_NO_PREFERENCE: u32 = 0x00000000;

    pub const WANT_READ_DELEG: u32 = 0x00000100;

    pub const WANT_WRITE_DELEG: u32 = 0x00000200;

    pub const WANT_ANY_DELEG: u32 = 0x00000300;

    pub const WANT_NO_DELEG: u32 = 0x00000400;

    pub const WANT_CANCEL: u32 = 0x00000500;

    pub const WANT_SIGNAL_DELEG_WHEN_RESRC_AVAIL: u32 = 0x00010000;

    pub const WANT_PUSH_DELEG_WHEN_UNCONTENDED: u32 = 0x00020000;

    /// Every bit that has a meaning.
    pub const ALL: u32 = 0x0003ff03;

    /// Whether `bits` holds no bit without a meaning.
    pub open spec fn known(bits: u32) -> bool {
        bits & !0x0003ff03u32 == 0
    }

    /// No flag.
    pub fn empty() -> (r: Self)
        ensures
            r.bits == 0,
    {
        ShareAccess { bits: 0 }
    }

    /// The flags of `bits`, where every bit of it has a meaning.
    pub fn from_bits(bits: u32) -> (r: Option<Self>)
        ensures
            r == if Self::known(bits) {
                Some(ShareAccess { bits })
            } else {
                None::<Self>
            },
    {
        if bits & !0x0003ff03u32 == 0 {
            Some(ShareAccess { bits })
        } else {
            None
        }
    }

    /// The flags as a word.
    pub fn bits(&self) -> (r: u32)
        ensures
            r == self.bits,
    {
        self.bits
    }

    /// Whether every bit of `flags` is set.
    pub fn contains(&self, flags: u32) -> (r: bool)
        ensures
            r == (self.bits & flags == flags),
    {
        self.bits & flags == flags
    }
}

/// Flags travel as one word; a word with a bit that has no meaning is no value.
impl Xdr for ShareAccess {
    type Model = ShareAccess;

    open spec fn model(&self) -> ShareAccess {
        *self
    }

    open spec fn wf(m: ShareAccess) -> bool {
        Self::known(m.bits)
    }

    open spec fn wire(m: ShareAccess) -> Seq<u8> {
        wire_u32(m.bits)
    }

    open spec fn parse(s: Seq<u8>) -> Result<(ShareAccess, Seq<u8>), XdrError> {
        match parse_u32(s) {
            Ok((bits, rest)) => if Self::known(bits) {
                Ok((ShareAccess { bits }, rest))
            } else {
                Err(XdrError::InvalidFlags(bits))
            },
            Err(e) => Err(e),
        }
    }

    proof fn lemma_round_trip(m: ShareAccess, rest: Seq<u8>) {
        lemma_u32_round_trip(m.bits, rest);
    }

    fn encode(&self, out: &mut Vec<u8>) -> (r: Result<(), EncodeError>) {
        if self.bits & !0x0003ff03u32 != 0 {
            return Err(EncodeError);
        }
        self.bits.encode(out)
    }

    fn decode<'a>(input: &'a [u8]) -> (r: Result<(ShareAccess, &'a [u8]), XdrError>) {
        let (bits, rest) = u32::decode(input)?;
        if bits & !0x0003ff03u32 != 0 {
            return Err(XdrError::InvalidFlags(bits));
        }
        Ok((ShareAccess { bits }, rest))
    }
}

#[derive(Clone, Copy, Debug, PartialEq, Eq)]
pub struct ShareDeny {
    pub bits: u32,
}

impl ShareDeny {
    pub const NONE: u32 = 0x00000000;

    pub const READ: u32 = 0x00000001;

    pub const WRITE: u32 = 0x00000002;

    pub const BOTH: u32 = 0x00000003;

    /// Every bit that has a meaning.
    pub const ALL: u32 = 0x00000003;

    /// Whether `bits` holds no bit without a meaning.
    pub open spec fn known(bits: u32) -> bool {
        bits & !0x00000003u32 == 0
    }

    /// No flag.
    pub fn empty() -> (r: Self)
        ensures
            r.bits == 0,
    {
        ShareDeny { bits: 0 }
    }

    /// The flags of `bits`, where every bit of it has a meaning.
    pub fn from_bits(bits: u32) -> (r: Option<Self>)
        ensures
            r == if Self::known(bits) {
                Some(ShareDeny { bits })
            } else {
                None::<Self>
            },
    {
        if bits & !0x00000003u32 == 0 {
            Some(ShareDeny { bits })
        } else {
            None
        }
    }

    /// The flags as a word.
    pub fn bits(&self) -> (r: u32)
        ensures
            r == self.bits,
    {
        self.bits
    }

    /// Whether every bit of `flags` is set.
    pub fn contains(&self, flags: u32) -> (r: bool)
        ensures
            r == (self.bits & flags == flags),
    {
        self.bits & flags == flags
    }
}

/// Flags travel as one word; a word with a bit that has no meaning is no value.
impl Xdr for ShareDeny {
    type Model = ShareDeny;

    open spec fn model(&self) -> ShareDeny {
        *self
    }

    open spec fn wf(m: ShareDeny) -> bool {
        Self::known(m.bits)
    }

    open spec fn wire(m: ShareDeny) -> Seq<u8> {
        wire_u32(m.bits)
    }

    open spec fn parse(s: Seq<u8>) -> Result<(ShareDeny, Seq<u8>), XdrError> {
        match parse_u32(s) {
            Ok((bits, rest)) => if Self::known(bits) {
                Ok((ShareDeny { bits }, rest))
            } else {
                Err(XdrError::InvalidFlags(bits))
            },
            Err(e) => Err(e),
        }
    }

    proof fn lemma_round_trip(m: ShareDeny, rest: Seq<u8>) {
        lemma_u32_round_trip(m.bits, rest);
    }

    fn encode(&self, out: &mut Vec<u8>) -> (r: Result<(), EncodeError>) {
        if self.bits & !0x00000003u32 != 0 {
            return Err(EncodeError);
        }
        self.bits.encode(out)
    }

    fn decode<'a>(input: &'a [u8]) -> (r: Result<(ShareDeny, &'a [u8]), XdrError>) {
        let (bits, rest) = u32::decode(input)?;
        if bits & !0x00000003u32 != 0 {
            return Err(XdrError::InvalidFlags(bits));
        }
        Ok((ShareDeny { bits }, rest))
    }
}

#[derive(Clone, Copy, Debug, PartialEq, Eq)]
pub struct ExchangeIdFlags {
    pub bits: u32,
}

impl ExchangeIdFlags {
    pub const SUPP_MOVED_REFER: u32 = 0x00000001;

    pub const SUPP_MOVED_MIGR: u32 = 0x00000002;

    pub const BIND_PRINC_STATEID: u32 = 0x00000100;

    pub const USE_NON_PNFS: u32 = 0x00010000;

    pub const USE_PNFS_MDS: u32 = 0x00020000;

    pub const USE_PNFS_DS: u32 = 0x00040000;

    pub const MASK_PNFS: u32 = 0x00070000;

    pub const UPD_CONFIRMED_REC_A: u32 = 0x40000000;

    pub const CONFIRMED_R: u32 = 0x80000000;

    /// Every bit that has a meaning.
    pub const ALL: u32 = 0xc0070103;

    /// Whether `bits` holds no bit without a meaning.
    pub open spec fn known(bits: u32) -> bool {
        bits & !0xc0070103u32 == 0
    }

    /// No flag.
    pub fn empty() -> (r: Self)
        ensures
            r.bits == 0,
    {
        ExchangeIdFlags { bits: 0 }
    }

    /// The flags of `bits`, where every bit of it has a meaning.
    pub fn from_bits(bits: u32) -> (r: Option<Self>)
        ensures
            r == if Self::known(bits) {
                Some(ExchangeIdFlags { bits })
            } else {
                None::<Self>
            },
    {
        if bits & !0xc0070103u32 == 0 {
            Some(ExchangeIdFlags { bits })
        } else {
            None
        }
    }

    /// The flags as a word.
    pub fn bits(&self) -> (r: u32)
        ensures
            r == self.bits,
    {
        self.bits
    }

    /// Whether every bit of `flags` is set.
    pub fn contains(&self, flags: u32) -> (r: bool)
        ensures
            r == (self.bits & flags == flags),
    {
        self.bits & flags == flags
    }
}

/// Flags travel as one word; a word with a bit that has no meaning is no value.
impl Xdr for ExchangeIdFlags {
    type Model = ExchangeIdFlags;

    open spec fn model(&self) -> ExchangeIdFlags {
        *self
    }

    open spec fn wf(m: ExchangeIdFlags) -> bool {
        Self::known(m.bits)
    }

    open spec fn wire(m: ExchangeIdFlags) -> Seq<u8> {
        wire_u32(m.bits)
    }

    open spec fn parse(s: Seq<u8>) -> Result<(ExchangeIdFlags, Seq<u8>), XdrError> {
        match parse_u32(s) {
            Ok((bits, rest)) => if Self::known(bits) {
                Ok((ExchangeIdFlags { bits }, rest))
            } else {
                Err(XdrError::InvalidFlags(bits))
            },
            Err(e) => Err(e),
        }
    }

    proof fn lemma_round_trip(m: ExchangeIdFlags, rest: Seq<u8>) {
        lemma_u32_round_trip(m.bits, rest);
    }

    fn encode(&self, out: &mut Vec<u8>) -> (r: Result<(), EncodeError>) {
        if self.bits & !0xc0070103u32 != 0 {
            return Err(EncodeError);
        }
        self.bits.encode(out)
    }

    fn decode<'a>(input: &'a [u8]) -> (r: Result<(ExchangeIdFlags, &'a [u8]), XdrError>) {
        let (bits, rest) = u32::decode(input)?;
        if bits & !0xc0070103u32 != 0 {
            return Err(XdrError::InvalidFlags(bits));
        }
        Ok((ExchangeIdFlags { bits }, rest))
    }
}

#[derive(Clone, Copy, Debug, PartialEq, Eq)]
pub struct CreateSessionFlags {
    pub bits: u32,
}

impl CreateSessionFlags {
    pub const PERSIST: u32 = 0x00000001;

    pub const CONN_BACK_CHAN: u32 = 0x00000002;

    pub const CONN_RDMA: u32 = 0x00000004;

    /// Every bit that has a meaning.
    pub const ALL: u32 = 0x00000007;

    /// Whether `bits` holds no bit without a meaning.
    pub open spec fn known(bits: u32) -> bool {
        bits & !0x00000007u32 == 0
    }

    /// No flag.
    pub fn empty() -> (r: Self)
        ensures
            r.bits == 0,
    {
        CreateSessionFlags { bits: 0 }
    }

    /// The flags of `bits`, where every bit of it has a meaning.
    pub fn from_bits(bits: u32) -> (r: Option<Self>)
        ensures
            r == if Self::known(bits) {
                Some(CreateSessionFlags { bits })
            } else {
                None::<Self>
            },
    {
        if bits & !0x00000007u32 == 0 {
            Some(CreateSessionFlags { bits })
        } else {
            None
        }
    }

    /// The flags as a word.
    pub fn bits(&self) -> (r: u32)
        ensures
            r == self.bits,
    {
        self.bits
    }

    /// Whether every bit of `flags` is set.
    pub fn contains(&self, flags: u32) -> (r: bool)
        ensures
            r == (self.bits & flags == flags),
    {
        self.bits & flags == flags
    }
}

/// Flags travel as one word; a word with a bit that has no meaning is no value.
impl Xdr for CreateSessionFlags {
    type Model = CreateSessionFlags;

    open spec fn model(&self) -> CreateSessionFlags {
        *self
    }

    open spec fn wf(m: CreateSessionFlags) -> bool {
        Self::known(m.bits)
    }

    open spec fn wire(m: CreateSessionFlags) -> Seq<u8> {
        wire_u32(m.bits)
    }

    open spec fn parse(s: Seq<u8>) -> Result<(CreateSessionFlags, Seq<u8>), XdrError> {
        match parse_u32(s) {
            Ok((bits, rest)) => if Self::known(bits) {
                Ok((CreateSessionFlags { bits }, rest))
            } else {
                Err(XdrError::InvalidFlags(bits))
            },
            Err(e) => Err(e),
        }
    }

    proof fn lemma_round_trip(m: CreateSessionFlags, rest: Seq<u8>) {
        lemma_u32_round_trip(m.bits, rest);
    }

    fn encode(&self, out: &mut Vec<u8>) -> (r: Result<(), EncodeError>) {
        if self.bits & !0x00000007u32 != 0 {
            return Err(EncodeError);
        }
        self.bits.encode(out)
    }

    fn decode<'a>(input: &'a [u8]) -> (r: Result<(CreateSessionFlags, &'a [u8]), XdrError>) {
        let (bits, rest) = u32::decode(input)?;
        if bits & !0x00000007u32 != 0 {
            return Err(XdrError::InvalidFlags(bits));
        }
        Ok((CreateSessionFlags { bits }, rest))
    }
}

#[derive(Clone, Copy, Debug, PartialEq, Eq)]
pub struct OpenResult {
    pub bits: u32,
}

impl OpenResult {
    pub const CONFIRM: u32 = 0x00000002;

    pub const LOCKTYPE_POSIX: u32 = 0x00000004;

    pub const PRESERVE_UNLINKED: u32 = 0x00000008;

    pub const MAY_NOTIFY_LOCK: u32 = 0x00000020;

    /// Every bit that has a meaning.
    pub const ALL: u32 = 0x0000002e;

    /// Whether `bits` holds no bit without a meaning.
    pub open spec fn known(bits: u32) -> bool {
        bits & !0x0000002eu32 == 0
    }

    /// No flag.
    pub fn empty() -> (r: Self)
        ensures
            r.bits == 0,
    {
        OpenResult { bits: 0 }
    }

    /// The flags of `bits`, where every bit of it has a meaning.
    pub fn from_bits(bits: u32) -> (r: Option<Self>)
        ensures
            r == if Self::known(bits) {
                Some(OpenResult { bits })
            } else {
                None::<Self>
            },
    {
        if bits & !0x0000002eu32 == 0 {
            Some(OpenResult { bits })
        } else {
            None
        }
    }

    /// The flags as a word.
    pub fn bits(&self) -> (r: u32)
        ensures
            r == self.bits,
    {
        self.bits
    }

    /// Whether every bit of `flags` is set.
    pub fn contains(&self, flags: u32) -> (r: bool)
        ensures
            r == (self.bits & flags == flags),
    {
        self.bits & flags == flags
    }
}

/// Flags travel as one word; a word with a bit that has no meaning is no value.
impl Xdr for OpenResult {
    type Model = OpenResult;

    open spec fn model(&self) -> OpenResult {
        *self
    }

    open spec fn wf(m: OpenResult) -> bool {
        Self::known(m.bits)
    }

    open spec fn wire(m: OpenResult) -> Seq<u8> {
        wire_u32(m.bits)
    }

    open spec fn parse(s: Seq<u8>) -> Result<(OpenResult, Seq<u8>), XdrError> {
        match parse_u32(s) {
            Ok((bits, rest)) => if Self::known(bits) {
                Ok((OpenResult { bits }, rest))
            } else {
                Err(XdrError::InvalidFlags(bits))
            },
            Err(e) => Err(e),
        }
    }

    proof fn lemma_round_trip(m: OpenResult, rest: Seq<u8>) {
        lemma_u32_round_trip(m.bits, rest);
    }

    fn encode(&self, out: &mut Vec<u8>) -> (r: Result<(), EncodeError>) {
        if self.bits & !0x0000002eu32 != 0 {
            return Err(EncodeError);
        }
        self.bits.encode(out)
    }

    fn decode<'a>(input: &'a [u8]) -> (r: Result<(OpenResult, &'a [u8]), XdrError>) {
        let (bits, rest) = u32::decode(input)?;
        if bits & !0x0000002eu32 != 0 {
            return Err(XdrError::InvalidFlags(bits));
        }
        Ok((OpenResult { bits }, rest))
    }
}

#[derive(Clone, Copy, Debug, PartialEq, Eq)]
pub struct SequenceStatusFlags {
    pub bits: u32,
}

impl SequenceStatusFlags {
    pub const CB_PATH_DOWN: u32 = 0x00000001;

    pub const CB_GSS_CONTEXTS_EXPIRING: u32 = 0x00000002;

    pub const CB_GSS_CONTEXTS_EXPIRED: u32 = 0x00000004;

    pub const EXPIRED_ALL_STATE_REVOKED: u32 = 0x00000008;

    pub const EXPIRED_SOME_STATE_REVOKED: u32 = 0x00000010;

    pub const ADMIN_STATE_REVOKED: u32 = 0x00000020;

    pub const RECALLABLE_STATE_REVOKED: u32 = 0x00000040;

    pub const LEASE_MOVED: u32 = 0x00000080;

    pub const RESTART_RECLAIM_NEEDED: u32 = 0x00000100;

    pub const CB_PATH_DOWN_SESSION: u32 = 0x00000200;

    pub const BACKCHANNEL_FAULT: u32 = 0x00000400;

    pub const DEVID_CHANGED: u32 = 0x00000800;

    pub const DEVID_DELETED: u32 = 0x00001000;

    /// Every bit that has a meaning.
    pub const ALL: u32 = 0x00001fff;

    /// Whether `bits` holds no bit without a meaning.
    pub open spec fn known(bits: u32) -> bool {
        bits & !0x00001fffu32 == 0
    }

    /// No flag.
    pub fn empty() -> (r: Self)
        ensures
            r.bits == 0,
    {
        SequenceStatusFlags { bits: 0 }
    }

    /// The flags of `bits`, where every bit of it has a meaning.
    pub fn from_bits(bits: u32) -> (r: Option<Self>)
        ensures
            r == if Self::known(bits) {
                Some(SequenceStatusFlags { bits })
            } else {
                None::<Self>
            },
    {
        if bits & !0x00001fffu32 == 0 {
            Some(SequenceStatusFlags { bits })
        } else {
            None
        }
    }

    /// The flags as a word.
    pub fn bits(&self) -> (r: u32)
        ensures
            r == self.bits,
    {
        self.bits
    }

    /// Whether every bit of `flags` is set.
    pub fn contains(&self, flags: u32) -> (r: bool)
        ensures
            r == (self.bits & flags == flags),
    {
        self.bits & flags == flags
    }
}

/// Flags travel as one word; a word with a bit that has no meaning is no value.
impl Xdr for SequenceStatusFlags {
    type Model = SequenceStatusFlags;

    open spec fn model(&self) -> SequenceStatusFlags {
        *self
    }

    open spec fn wf(m: SequenceStatusFlags) -> bool {
        Self::known(m.bits)
    }

    open spec fn wire(m: SequenceStatusFlags) -> Seq<u8> {
        wire_u32(m.bits)
    }

    open spec fn parse(s: Seq<u8>) -> Result<(SequenceStatusFlags, Seq<u8>), XdrError> {
        match parse_u32(s) {
            Ok((bits, rest)) => if Self::known(bits) {
                Ok((SequenceStatusFlags { bits }, rest))
            } else {
                Err(XdrError::InvalidFlags(bits))
            },
            Err(e) => Err(e),
        }
    }

    proof fn lemma_round_trip(m: SequenceStatusFlags, rest: Seq<u8>) {
        lemma_u32_round_trip(m.bits, rest);
    }

    fn encode(&self, out: &mut Vec<u8>) -> (r: Result<(), EncodeError>) {
        if self.bits & !0x00001fffu32 != 0 {
            return Err(EncodeError);
        }
        self.bits.encode(out)
    }

    fn decode<'a>(input: &'a [u8]) -> (r: Result<(SequenceStatusFlags, &'a [u8]), XdrError>) {
        let (bits, rest) = u32::decode(input)?;
        if bits & !0x00001fffu32 != 0 {
            return Err(XdrError::InvalidFlags(bits));
        }
        Ok((SequenceStatusFlags { bits }, rest))
    }
}

} // verus!
