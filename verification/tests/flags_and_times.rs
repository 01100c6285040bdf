use nfs4_client::args::AccessArgs;
use nfs4_client::basic::{SequenceId, StateId, Time, Cookie};
use nfs4_client::flags::{Access, AceMask, ExchangeIdFlags, ShareAccess, ShareDeny};
use nfs4_client::rpc_client::{Error, Link, RpcClient, Transport};
use nfs4_client::status::{LockStatusError, LockStatusResult, StatusError};
use nfs4_client::xdr::{from_bytes, to_bytes, XdrError};

#[test]
fn flags_travel_as_one_word() {
    let access = Access { bits: Access::READ | Access::EXECUTE };
    assert_eq!(to_bytes(&access).unwrap(), vec![0, 0, 0, 0x21]);
    assert_eq!(from_bytes::<Access>(&[0, 0, 0, 0x21]), Ok(access));
    assert_eq!(to_bytes(&AccessArgs { access }).unwrap(), vec![0, 0, 0, 0x21]);
    assert_eq!(
        to_bytes(&ExchangeIdFlags { bits: ExchangeIdFlags::CONFIRMED_R }).unwrap(),
        vec![0x80, 0, 0, 0]
    );
    assert_eq!(to_bytes(&ShareDeny { bits: ShareDeny::NONE }).unwrap(), vec![0, 0, 0, 0]);
}

#[test]
fn a_word_with_a_bit_without_a_meaning_is_no_flags() {
    assert_eq!(from_bytes::<Access>(&[0, 0, 0, 0x40]), Err(XdrError::InvalidFlags(0x40)));
    assert_eq!(from_bytes::<ShareDeny>(&[0, 0, 0, 4]), Err(XdrError::InvalidFlags(4)));
    assert_eq!(
        from_bytes::<AceMask>(&[0, 0, 0x08, 0]),
        Err(XdrError::InvalidFlags(0x0800))
    );
    assert!(to_bytes(&Access { bits: 0x40 }).is_err());
    assert_eq!(Access::from_bits(0x40), None);
    assert_eq!(Access::from_bits(0x3f), Some(Access { bits: 0x3f }));
    assert_eq!(Access::ALL, 0x3f);
    assert_eq!(ShareAccess::ALL, 0x3ff03);
    assert_eq!(ExchangeIdFlags::ALL, 0xc007_0103);
}

#[test]
fn flags_know_their_bits() {
    let share = ShareAccess { bits: ShareAccess::BOTH | ShareAccess::WANT_READ_DELEG };
    assert_eq!(share.bits(), 0x103);
    assert!(share.contains(ShareAccess::READ));
    assert!(share.contains(ShareAccess::WRITE));
    assert!(share.contains(ShareAccess::READ | ShareAccess::WANT_READ_DELEG));
    assert!(!share.contains(ShareAccess::WANT_WRITE_DELEG));
    assert_eq!(ShareAccess::empty().bits(), 0);
    assert!(ShareAccess::empty().contains(0));
}

#[test]
fn small_values_have_their_beginnings() {
    assert_eq!(StateId::anonymous(), StateId { sequence_id: 0, other: [0; 12] });
    assert_eq!(to_bytes(&StateId::anonymous()).unwrap(), vec![0; 16]);
    assert_eq!(Cookie::initial(), Cookie(0));
    let mut sequence = SequenceId(7);
    sequence.incr();
    assert_eq!(sequence, SequenceId(8));
}

#[test]
fn a_time_is_a_date_and_a_time_of_day() {
    let time = Time { seconds: 86_400 + 3_600, nseconds: 5 };
    let date_time = time.to_date_time().unwrap();
    assert_eq!(date_time.and_utc().timestamp(), 90_000);
    assert_eq!(date_time.and_utc().timestamp_subsec_nanos(), 5);
    assert_eq!(date_time.to_string(), "1970-01-02 01:00:00.000000005");
    assert_eq!(Time { seconds: i64::MAX, nseconds: 0 }.to_date_time(), None);
    assert_eq!(Time { seconds: 0, nseconds: 2_000_000_000 }.to_date_time(), None);
    assert_eq!(Time { seconds: 0, nseconds: u32::MAX }.to_date_time(), None);
    assert_eq!(Time { seconds: 0, nseconds: 1_000_000_000 }.to_date_time(), None);
    assert_eq!(Time { seconds: -2, nseconds: 1_999_999_999 }.to_date_time(), None);
    assert!(Time { seconds: 59, nseconds: 1_500_000_000 }.to_date_time().is_some());
    assert!(Time { seconds: -1, nseconds: 1_000_000_000 }.to_date_time().is_some());
    assert_eq!(
        to_bytes(&time).unwrap(),
        vec![0, 0, 0, 0, 0, 1, 0x5f, 0x90, 0, 0, 0, 5]
    );
}

struct Nowhere;

impl Transport for Nowhere {
    fn write_all(&mut self, _: &[u8]) -> Result<(), std::io::Error> {
        panic!("nothing is to be sent");
    }

    fn read_exact(&mut self, _: usize) -> Result<Vec<u8>, std::io::Error> {
        panic!("nothing is to be read");
    }
}

#[test]
fn a_call_without_an_encoding_is_not_sent() {
    let unsayable = LockStatusResult::<u32>::Failure(LockStatusError {
        error: StatusError::Denied,
        denied: None,
    });
    let mut client = RpcClient::new(1);
    assert!(matches!(
        client.send_request(&mut Link::new(Nowhere), 0, unsayable.clone()),
        Err(Error::Serialization(_))
    ));
    assert!(matches!(client.request_record(0, unsayable), Err(Error::Serialization(_))));
    assert_eq!(&client.request_record(0, 0u32).unwrap()[4..8], &[0, 0, 0, 1]);
}
