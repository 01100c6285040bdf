use nfs4_client::args::{CreateHow, CreateType, Locker, ExistingLockOwner, OpenClaim, OpenFlag};
use nfs4_client::attr::{FileType, SetTime};
use nfs4_client::basic::{DeviceData, SequenceId, StableHow, StateId, Time, Verifier};
use nfs4_client::ops::{ArgOp, OperationId, ResOp};
use nfs4_client::requests::GetFh;
use nfs4_client::basic::FileHandle;
use nfs4_client::res::{GetFhRes, ModifiedLimit, SpaceLimit};
use nfs4_client::rpc::{AcceptedReplyBody, AuthFlavor, RejectedReply, AuthStat};
use nfs4_client::status::StatusResult;
use nfs4_client::xdr::{from_bytes, to_bytes, Xdr, XdrError};

fn round_trip<T: Xdr + PartialEq + std::fmt::Debug>(value: T, bytes: &[u8]) {
    assert_eq!(to_bytes(&value).unwrap(), bytes);
    assert_eq!(from_bytes::<T>(bytes), Ok(value));
}

#[test]
fn a_variant_without_fields_is_its_discriminant() {
    round_trip(FileType::Regular, &[0, 0, 0, 1]);
    round_trip(FileType::AttrDir, &[0, 0, 0, 8]);
    round_trip(StableHow::FileSync, &[0, 0, 0, 2]);
    round_trip(AuthFlavor::RpcSecGss, &[0, 0, 0, 6]);
    round_trip(OperationId::ReclaimComplete, &[0, 0, 0, 58]);
    round_trip(CreateType::Socket, &[0, 0, 0, 6]);
}

#[test]
fn a_variant_with_one_field_is_its_discriminant_and_the_field() {
    round_trip(
        CreateType::Link("hi".to_string()),
        &[0, 0, 0, 5, 0, 0, 0, 2, 0x68, 0x69, 0, 0],
    );
    round_trip(
        CreateType::Character(DeviceData { major: 7, minor: 8 }),
        &[0, 0, 0, 4, 0, 0, 0, 7, 0, 0, 0, 8],
    );
    round_trip(
        SetTime::SetToClientTime(Time { seconds: 5, nseconds: 0xff }),
        &[0, 0, 0, 0, 0, 0, 0, 0, 0, 0, 0, 5, 0, 0, 0, 0xff],
    );
    round_trip(SetTime::SetToServerTime, &[0, 0, 0, 1]);
    round_trip(AcceptedReplyBody::Success(0xffu32), &[0, 0, 0, 0, 0, 0, 0, 0xff]);
    round_trip(AcceptedReplyBody::<u32>::SystemError, &[0, 0, 0, 5]);
    round_trip(RejectedReply::AuthError(AuthStat::TooWeak), &[0, 0, 0, 1, 0, 0, 0, 5]);
}

#[test]
fn a_variant_with_named_fields_is_its_discriminant_and_the_fields_in_order() {
    round_trip(
        AcceptedReplyBody::<()>::ProgramMismatch { low: 7, high: 8 },
        &[0, 0, 0, 2, 0, 0, 0, 7, 0, 0, 0, 8],
    );
    round_trip(
        SpaceLimit::Blocks { modified_blocks: ModifiedLimit { num_blocks: 1, bytes_per_block: 512 } },
        &[0, 0, 0, 2, 0, 0, 0, 1, 0, 0, 2, 0],
    );
    round_trip(
        OpenFlag::OpenCreate(CreateHow::Exclusive { create_verifier: Verifier(9) }),
        &[0, 0, 0, 1, 0, 0, 0, 2, 0, 0, 0, 0, 0, 0, 0, 9],
    );
    round_trip(
        OpenClaim::Null { file: "a_file".to_string() },
        &[0, 0, 0, 0, 0, 0, 0, 6, b'a', b'_', b'f', b'i', b'l', b'e', 0, 0],
    );
}

#[test]
fn the_discriminants_of_a_locker_are_one_and_zero() {
    let existing = Locker::ExistingLockOwner(ExistingLockOwner {
        lock_state_id: StateId { sequence_id: 1, other: [2; 12] },
        lock_sequence_id: SequenceId(3),
    });
    let bytes = to_bytes(&existing).unwrap();
    assert_eq!(&bytes[..4], &[0, 0, 0, 0]);
    assert_eq!(bytes.len(), 4 + 4 + 12 + 4);
    assert_eq!(from_bytes::<Locker>(&bytes), Ok(existing));
}

#[test]
fn a_discriminant_that_names_no_variant_is_reported() {
    assert_eq!(from_bytes::<FileType>(&[0, 0, 0, 0]), Err(XdrError::BadDiscriminant("FileType", 0)));
    assert_eq!(from_bytes::<FileType>(&[0, 0, 0, 9]), Err(XdrError::BadDiscriminant("FileType", 9)));
    assert_eq!(
        from_bytes::<AuthFlavor>(&[0, 0, 0, 4]),
        Err(XdrError::BadDiscriminant("AuthFlavor", 4))
    );
    assert_eq!(
        from_bytes::<OperationId>(&[0, 0, 0, 20]),
        Err(XdrError::BadDiscriminant("OperationId", 20))
    );
    for gap in [20u8, 30, 35, 36, 39, 2, 59] {
        assert_eq!(
            from_bytes::<ArgOp>(&[0, 0, 0, gap]),
            Err(XdrError::BadDiscriminant("ArgOp", gap as u32))
        );
    }
    assert_eq!(from_bytes::<FileType>(&[0, 0, 1]), Err(XdrError::Truncated));
}

#[test]
fn the_encoding_of_an_operation_begins_with_its_number() {
    let get_fh = to_bytes(&ArgOp::GetFh).unwrap();
    assert_eq!(get_fh, vec![0, 0, 0, 10]);
    assert_eq!(ArgOp::GetFh.operation_id(), OperationId::GetFh);
    assert_eq!(ArgOp::GetFh.tag_of(), 10);
    let res = ResOp::GetFh(StatusResult::Success(GetFhRes { object: FileHandle(vec![1, 2, 3]) }));
    let bytes = to_bytes(&res).unwrap();
    assert_eq!(bytes, vec![0, 0, 0, 10, 0, 0, 0, 0, 0, 0, 0, 3, 1, 2, 3, 0]);
    assert_eq!(res.operation_id(), OperationId::GetFh);
    assert_eq!(from_bytes::<ResOp>(&bytes), Ok(res));
    let _ = GetFh;
    for (op, number) in [
        (ArgOp::PutRootFh, 24u8),
        (ArgOp::SaveFh, 32),
        (ArgOp::RestoreFh, 31),
        (ArgOp::LookUpP, 16),
        (ArgOp::PutPubFh, 23),
        (ArgOp::ReadLink, 27),
    ] {
        assert_eq!(to_bytes(&op).unwrap(), vec![0, 0, 0, number]);
    }
}
