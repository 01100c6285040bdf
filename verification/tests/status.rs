use nfs4_client::basic::{ClientId, LockDenied, LockType, StateOwner};
use nfs4_client::compound::{Error, TempResult};
use nfs4_client::enum_map::EnumSet;
use nfs4_client::res::{SetAttrRes, SetAttrStatusResult};
use nfs4_client::status::{LockStatusError, LockStatusResult, StatusError, StatusResult};
use nfs4_client::xdr::{from_bytes, to_bytes, XdrError};

#[test]
fn a_status_is_its_number() {
    assert_eq!(to_bytes(&StatusError::Perm).unwrap(), vec![0, 0, 0, 1]);
    assert_eq!(to_bytes(&StatusError::NoEnt).unwrap(), vec![0, 0, 0, 2]);
    assert_eq!(to_bytes(&StatusError::Stale).unwrap(), vec![0, 0, 0, 70]);
    assert_eq!(to_bytes(&StatusError::BadHandle).unwrap(), vec![0, 0, 0x27, 0x11]);
    assert_eq!(to_bytes(&StatusError::Denied).unwrap(), vec![0, 0, 0x27, 0x1a]);
    assert_eq!(to_bytes(&StatusError::DelegRevoked).unwrap(), vec![0, 0, 0x27, 0x67]);
    assert_eq!(StatusError::Denied.tag_of(), 10010);
}

#[test]
fn every_known_number_gives_its_status_back() {
    let mut known = 0;
    for code in 0..=10100u32 {
        match StatusError::from_code(code) {
            Some(status) => {
                known += 1;
                assert_eq!(status.tag_of(), code);
                assert_eq!(to_bytes(&status).unwrap(), code.to_be_bytes().to_vec());
                assert_eq!(from_bytes::<StatusError>(&code.to_be_bytes()), Ok(status));
            }
            None => {
                assert_eq!(
                    from_bytes::<StatusError>(&code.to_be_bytes()),
                    Err(XdrError::UnknownStatus(code))
                );
            }
        }
    }
    assert_eq!(known, 102);
}

#[test]
fn numbers_outside_the_known_set_are_reported() {
    for code in [0u32, 3, 4, 71, 76, 10000, 10002, 10018, 10073, 10088, u32::MAX] {
        assert_eq!(StatusError::from_code(code), None);
        assert_eq!(
            from_bytes::<StatusError>(&code.to_be_bytes()),
            Err(XdrError::UnknownStatus(code))
        );
    }
    assert_eq!(
        from_bytes::<StatusResult<()>>(&[0, 0, 0, 3]),
        Err(XdrError::UnknownStatus(3))
    );
    assert_eq!(
        from_bytes::<LockStatusResult<()>>(&[0, 0, 0x27, 0x10]),
        Err(XdrError::UnknownStatus(10000))
    );
}

#[test]
fn a_result_is_zero_and_the_value_or_the_number_of_the_status() {
    assert_eq!(to_bytes(&StatusResult::Success(7u32)).unwrap(), vec![0, 0, 0, 0, 0, 0, 0, 7]);
    assert_eq!(to_bytes(&StatusResult::Success(())).unwrap(), vec![0, 0, 0, 0]);
    assert_eq!(
        to_bytes(&StatusResult::<u32>::Failure(StatusError::NoEnt)).unwrap(),
        vec![0, 0, 0, 2]
    );
    assert_eq!(
        from_bytes::<StatusResult<u32>>(&[0, 0, 0, 0, 0, 0, 0, 7]),
        Ok(StatusResult::Success(7))
    );
    assert_eq!(
        from_bytes::<StatusResult<u32>>(&[0, 0, 0, 2]),
        Ok(StatusResult::Failure(StatusError::NoEnt))
    );
    assert_eq!(from_bytes::<StatusResult<u32>>(&[0, 0, 0, 0]), Err(XdrError::Truncated));
}

fn denied() -> LockDenied {
    LockDenied {
        offset: 1,
        length: 2,
        lock_type: LockType::Write,
        owner: StateOwner { client_id: ClientId(3), opaque: vec![4] },
    }
}

#[test]
fn a_denied_lock_follows_the_status_denied_and_no_other() {
    let failure =
        LockStatusResult::<u32>::Failure(LockStatusError { error: StatusError::Denied, denied: Some(denied()) });
    let bytes = to_bytes(&failure).unwrap();
    assert_eq!(
        bytes,
        vec![
            0, 0, 0x27, 0x1a, // Denied
            0, 0, 0, 0, 0, 0, 0, 1, // offset
            0, 0, 0, 0, 0, 0, 0, 2, // length
            0, 0, 0, 2, // a write lock
            0, 0, 0, 0, 0, 0, 0, 3, // the client
            0, 0, 0, 1, 4, 0, 0, 0, // the owner
        ]
    );
    assert_eq!(from_bytes::<LockStatusResult<u32>>(&bytes), Ok(failure));

    let other =
        LockStatusResult::<u32>::Failure(LockStatusError { error: StatusError::Locked, denied: None });
    assert_eq!(to_bytes(&other).unwrap(), vec![0, 0, 0x27, 0x1c]);
    assert_eq!(from_bytes::<LockStatusResult<u32>>(&[0, 0, 0x27, 0x1c]), Ok(other));

    assert_eq!(to_bytes(&LockStatusResult::Success(9u32)).unwrap(), vec![0, 0, 0, 0, 0, 0, 0, 9]);
    assert_eq!(
        from_bytes::<LockStatusResult<u32>>(&[0, 0, 0x27, 0x1a]),
        Err(XdrError::Truncated)
    );
}

#[test]
fn a_failure_that_the_wire_cannot_express_has_no_encoding() {
    let missing =
        LockStatusResult::<u32>::Failure(LockStatusError { error: StatusError::Denied, denied: None });
    assert!(to_bytes(&missing).is_err());
}

#[test]
fn a_lock_beside_another_status_than_denied_does_not_travel() {
    let unasked = LockStatusResult::<u32>::Failure(LockStatusError {
        error: StatusError::Locked,
        denied: Some(denied()),
    });
    let bytes = to_bytes(&unasked).unwrap();
    assert_eq!(bytes, vec![0, 0, 0x27, 0x1c]);
    assert_eq!(
        from_bytes::<LockStatusResult<u32>>(&bytes),
        Ok(LockStatusResult::Failure(LockStatusError { error: StatusError::Locked, denied: None }))
    );
    let asked = LockStatusResult::<u32>::Failure(LockStatusError {
        error: StatusError::Denied,
        denied: Some(denied()),
    });
    let bytes = to_bytes(&asked).unwrap();
    assert_eq!(bytes[..4], [0, 0, 0x27, 0x1a]);
    assert!(bytes.len() > 4);
    assert_eq!(from_bytes::<LockStatusResult<u32>>(&bytes), Ok(asked));
}

#[test]
fn results_become_the_results_of_the_caller() {
    assert!(matches!(TempResult::from(StatusResult::Success(5u32)).0, Ok(5)));
    assert!(matches!(
        TempResult::from(StatusResult::<u32>::Failure(StatusError::NoEnt)).0,
        Err(Error::Protocol(StatusError::NoEnt))
    ));
    assert!(matches!(TempResult::from(LockStatusResult::Success(5u32)).0, Ok(5)));
    let failure = LockStatusError { error: StatusError::Denied, denied: Some(denied()) };
    match TempResult::from(LockStatusResult::<u32>::Failure(failure.clone())).0 {
        Err(Error::Lock(e)) => assert_eq!(e, failure),
        _ => panic!("a lock failure was expected"),
    }
    let set = SetAttrRes { attr_set: EnumSet::new() };
    let ok = SetAttrStatusResult { status: StatusResult::Success(()), res: set.clone() };
    assert!(matches!(TempResult::from(ok).0, Ok(r) if r == set));
    let failed =
        SetAttrStatusResult { status: StatusResult::Failure(StatusError::Access), res: set };
    assert!(matches!(TempResult::from(failed).0, Err(Error::Protocol(StatusError::Access))));
}
