use nfs4_client::rpc::{
    AcceptedReply, AcceptedReplyBody, AuthFlavor, AuthStat, AuthSysParameters, CallBody, Gid,
    Message, MessageBody, OpaqueAuth, RejectedReply, ReplyBody, Uid, Xid,
};
use nfs4_client::rpc_client::{
    accepted_result, caller, decode_fragment, decode_header, encode_fragment, fragment_header,
    reply_from_payload, Error, Link, RpcClient, Transport, MAX_FRAGMENT, NULL_PROCEDURE,
    PORT_MAPPER,
};
use nfs4_client::xdr::{from_bytes, to_bytes, XdrError};
use std::collections::VecDeque;

#[derive(Default)]
struct Pipe {
    written: Vec<u8>,
    incoming: VecDeque<u8>,
    fail_writes: bool,
}

impl Transport for Pipe {
    fn write_all(&mut self, bytes: &[u8]) -> Result<(), std::io::Error> {
        if self.fail_writes {
            return Err(std::io::Error::new(std::io::ErrorKind::BrokenPipe, "closed"));
        }
        self.written.extend_from_slice(bytes);
        Ok(())
    }

    fn read_exact(&mut self, len: usize) -> Result<Vec<u8>, std::io::Error> {
        if self.incoming.len() < len {
            return Err(std::io::Error::new(std::io::ErrorKind::UnexpectedEof, "short"));
        }
        Ok(self.incoming.drain(..len).collect())
    }
}

#[test]
fn the_header_of_a_record_has_the_high_bit_and_the_length() {
    assert_eq!(fragment_header(0), Some(0x8000_0000));
    assert_eq!(fragment_header(5), Some(0x8000_0005));
    assert_eq!(fragment_header(MAX_FRAGMENT as usize), Some(0xffff_ffff));
    assert_eq!(fragment_header(MAX_FRAGMENT as usize + 1), None);
    for len in [0usize, 1, 4, 1000, 0x7fff_ffff] {
        let header = fragment_header(len).unwrap();
        assert_eq!(header >> 31, 1);
        assert_eq!((header & 0x7fff_ffff) as usize, len);
        assert_eq!(decode_header(header).unwrap(), len);
    }
}

#[test]
fn a_record_is_its_header_and_its_payload() {
    assert_eq!(encode_fragment(&[1, 2, 3]).unwrap(), vec![0x80, 0, 0, 3, 1, 2, 3]);
    assert_eq!(encode_fragment(&[]).unwrap(), vec![0x80, 0, 0, 0]);
}

#[test]
fn taking_a_record_apart_gives_its_payload_back() {
    for len in [0usize, 1, 3, 4, 5, 100, 70000] {
        let payload: Vec<u8> = (0..len).map(|i| (i % 251) as u8).collect();
        let mut record = encode_fragment(&payload).unwrap();
        record.extend_from_slice(&[9, 9]);
        let (got, rest) = decode_fragment(&record).unwrap();
        assert_eq!(got.to_vec(), payload);
        assert_eq!(rest.to_vec(), vec![9u8, 9]);
    }
}

#[test]
fn a_fragment_that_is_not_the_last_or_is_cut_short_is_reported() {
    assert!(matches!(decode_fragment(&[0, 0, 0, 1, 7]), Err(Error::Framing)));
    assert!(matches!(decode_header(0x7fff_ffff), Err(Error::Framing)));
    assert!(matches!(
        decode_fragment(&[0x80, 0, 0, 2, 7]),
        Err(Error::Deseralization(XdrError::Truncated))
    ));
    assert!(matches!(
        decode_fragment(&[0x80, 0, 0]),
        Err(Error::Deseralization(XdrError::Truncated))
    ));
}

#[test]
fn the_caller_of_every_call_is_the_test_machine() {
    assert_eq!(
        caller(),
        AuthSysParameters {
            stamp: 0,
            machine_name: "test-machine".to_string(),
            uid: Uid(0),
            gid: Gid(0),
            gids: vec![Gid(0)],
        }
    );
    assert_eq!(OpaqueAuth::none(), OpaqueAuth { flavor: AuthFlavor::Null, body: vec![] });
    let sys = OpaqueAuth::auth_sys(caller()).unwrap();
    assert_eq!(sys.flavor, AuthFlavor::Sys);
    assert_eq!(
        sys.body,
        vec![
            0, 0, 0, 0, // stamp
            0, 0, 0, 12, b't', b'e', b's', b't', b'-', b'm', b'a', b'c', b'h', b'i', b'n', b'e',
            0, 0, 0, 0, // uid
            0, 0, 0, 0, // gid
            0, 0, 0, 1, 0, 0, 0, 0, // gids
        ]
    );
}

#[test]
fn a_call_is_framed_as_one_final_fragment() {
    let client = RpcClient::new(PORT_MAPPER);
    let record = client.request_record(NULL_PROCEDURE, ()).unwrap();
    let mut expected = vec![
        0, 0, 0, 1, // xid
        0, 0, 0, 0, // a call
        0, 0, 0, 2, // of RPC version 2
        0, 1, 0x86, 0xa0, // to program 100000
        0, 0, 0, 4, // version 4
        0, 0, 0, 0, // procedure 0
        0, 0, 0, 1, // credential: flavor Sys
        0, 0, 0, 36, // and its body
    ];
    expected.extend_from_slice(&OpaqueAuth::auth_sys(caller()).unwrap().body);
    expected.extend_from_slice(&[0, 0, 0, 0, 0, 0, 0, 0]); // verifier: flavor Null, no body
    assert_eq!(record[..4], [0x80, 0, 0, expected.len() as u8]);
    assert_eq!(record[4..], expected[..]);

    let (payload, rest) = decode_fragment(&record).unwrap();
    assert!(rest.is_empty());
    let message: Message<()> = from_bytes(payload).unwrap();
    assert_eq!(message.xid, Xid(1));
    match message.body {
        MessageBody::Call(CallBody { rpc_version, program, version, procedure, verifier, .. }) => {
            assert_eq!((rpc_version, program, version, procedure), (2, 100000, 4, 0));
            assert_eq!(verifier, OpaqueAuth::none());
        }
        _ => panic!("a call was expected"),
    }
}

#[test]
fn each_call_that_is_sent_takes_the_next_transaction_identifier() {
    let mut client = RpcClient::new(100003);
    let mut pipe = Link::new(Pipe::default());
    for xid in 1u8..=3 {
        client.send_request(&mut pipe, 1, 7u32).unwrap();
        let (payload, _) = decode_fragment(&pipe.transport().written).unwrap();
        assert_eq!(&payload[..4], &[0, 0, 0, xid]);
        assert_eq!(&payload[payload.len() - 4..], &[0, 0, 0, 7]);
        pipe.transport_mut().written.clear();
    }
    pipe.transport_mut().fail_writes = true;
    assert!(matches!(client.send_request(&mut pipe, 1, 7u32), Err(Error::Io(_))));
    pipe.transport_mut().fail_writes = false;
    client.send_request(&mut pipe, 1, 7u32).unwrap();
    let (payload, _) = decode_fragment(&pipe.transport().written).unwrap();
    assert_eq!(&payload[..4], &[0, 0, 0, 4]);
}

fn reply<T>(body: ReplyBody<T>) -> Message<T> {
    Message { xid: Xid(1), body: MessageBody::Reply(body) }
}

fn accepted<T>(body: AcceptedReplyBody<T>) -> Message<T> {
    reply(ReplyBody::Accepted(AcceptedReply { verifier: OpaqueAuth::none(), body }))
}

#[test]
fn the_result_of_an_accepted_and_successful_call_is_given() {
    assert!(matches!(accepted_result(accepted(AcceptedReplyBody::Success(5u32))), Ok(5)));
    assert!(matches!(
        accepted_result(accepted(AcceptedReplyBody::<u32>::ProgramUnavailable)),
        Err(Error::ProgramUnavailable)
    ));
    assert!(matches!(
        accepted_result(accepted(AcceptedReplyBody::<u32>::ProgramMismatch { low: 1, high: 2 })),
        Err(Error::ProgramMismatch)
    ));
    assert!(matches!(
        accepted_result(accepted(AcceptedReplyBody::<u32>::ProcedureUnavailable)),
        Err(Error::ProcedureUnavailable)
    ));
    assert!(matches!(
        accepted_result(accepted(AcceptedReplyBody::<u32>::GarbageArguments)),
        Err(Error::GarbageArguments)
    ));
    assert!(matches!(
        accepted_result(accepted(AcceptedReplyBody::<u32>::SystemError)),
        Err(Error::SystemError)
    ));
    assert!(matches!(
        accepted_result(reply::<u32>(ReplyBody::Denied(RejectedReply::AuthError(AuthStat::BadCred)))),
        Err(Error::UnexpectedReply)
    ));
    assert!(matches!(
        accepted_result(reply::<u32>(ReplyBody::Denied(RejectedReply::RpcMismatch {
            low: 2,
            high: 2
        }))),
        Err(Error::UnexpectedReply)
    ));
}

#[test]
fn a_reply_is_read_from_the_record_that_carries_it() {
    let payload = to_bytes(&accepted(AcceptedReplyBody::Success(0x0a0b_0c0du32))).unwrap();
    assert_eq!(
        payload,
        vec![0, 0, 0, 1, 0, 0, 0, 1, 0, 0, 0, 0, 0, 0, 0, 0, 0, 0, 0, 0, 0, 0, 0, 0, 0x0a, 0x0b, 0x0c, 0x0d]
    );
    assert!(matches!(reply_from_payload::<u32>(&payload), Ok(0x0a0b_0c0d)));
    assert!(matches!(
        reply_from_payload::<u32>(&payload[..payload.len() - 1]),
        Err(Error::Deseralization(XdrError::Truncated))
    ));

    let mut client = RpcClient::new(100003);
    let mut pipe = Link::new(Pipe::default());
    pipe.transport_mut().incoming.extend(encode_fragment(&payload).unwrap());
    assert!(matches!(client.receive_reply::<u32, Pipe>(&mut pipe), Ok(0x0a0b_0c0d)));

    pipe.transport_mut().incoming.extend([0u8, 0, 0, 4, 1, 2, 3, 4]);
    assert!(matches!(client.receive_reply::<u32, Pipe>(&mut pipe), Err(Error::Framing)));
    pipe.transport_mut().incoming.clear();
    pipe.transport_mut().incoming.extend([0x80u8, 0, 0, 9, 1]);
    assert!(matches!(client.receive_reply::<u32, Pipe>(&mut pipe), Err(Error::Io(_))));
}

#[test]
fn a_call_message_of_the_other_side_is_no_reply() {
    let call: Message<u32> = Message {
        xid: Xid(3),
        body: MessageBody::Call(CallBody {
            rpc_version: 2,
            program: 1,
            version: 4,
            procedure: 0,
            credential: OpaqueAuth::none(),
            verifier: OpaqueAuth::none(),
            call_args: 1,
        }),
    };
    let bytes = to_bytes(&call).unwrap();
    assert_eq!(from_bytes::<Message<u32>>(&bytes), Ok(call.clone()));
    assert!(matches!(accepted_result(call), Err(Error::UnexpectedReply)));
}

#[test]
fn the_records_of_calls_follow_one_another_on_the_transport() {
    let payload = to_bytes(&accepted(AcceptedReplyBody::Success(9u32))).unwrap();
    let mut link = Link::new(Pipe::default());
    link.transport_mut().incoming.extend(encode_fragment(&payload).unwrap());
    let mut client = RpcClient::new(7);
    client.send_request(&mut link, 3, true).unwrap();
    assert_eq!(link.transport().written, client_record(1, 7, 3));
    assert!(matches!(client.receive_reply::<u32, Pipe>(&mut link), Ok(9)));
    assert!(link.transport().incoming.is_empty());
    assert!(matches!(client.receive_reply::<u32, Pipe>(&mut link), Err(Error::Io(_))));
    assert_eq!(link.read_exact(0).unwrap(), Vec::<u8>::new());
    assert!(link.read_exact(1).is_err());
    client.send_request(&mut link, 3, true).unwrap();
    let mut both = client_record(1, 7, 3);
    both.extend(client_record(2, 7, 3));
    assert_eq!(link.transport().written, both);
    link.write_all(&[1, 2]).unwrap();
    assert_eq!(link.transport().written[both.len()..], [1, 2]);
}

fn client_record(xid: u32, program: u32, procedure: u32) -> Vec<u8> {
    let message = Message {
        xid: Xid(xid),
        body: MessageBody::Call(CallBody {
            rpc_version: 2,
            program,
            version: 4,
            procedure,
            credential: OpaqueAuth::auth_sys(caller()).unwrap(),
            verifier: OpaqueAuth::none(),
            call_args: true,
        }),
    };
    encode_fragment(&to_bytes(&message).unwrap()).unwrap()
}
