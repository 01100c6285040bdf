use nfs4_client::args::{LookUpArgs, PutFhArgs, ReadArgs, SetAttrArgs};
use nfs4_client::basic::{FileHandle, StateId};
use nfs4_client::compound::{
    compound_args, finish_compound, CompoundRequest, Error, Mismatch, ReturnSecond,
};
use nfs4_client::enum_map::{EnumMap, EnumSet};
use nfs4_client::ops::{ArgOp, CompoundRes, OperationId, ResOp};
use nfs4_client::requests::{GetFh, PutRootFh, SaveFh};
use nfs4_client::res::{GetFhRes, ReadRes, SetAttrRes, SetAttrStatusResult};
use nfs4_client::status::{StatusError, StatusResult};
use std::collections::VecDeque;

fn put_fh(bytes: &[u8]) -> PutFhArgs {
    PutFhArgs { object: FileHandle(bytes.to_vec()) }
}

fn read(offset: u64) -> ReadArgs {
    ReadArgs { state_id: StateId::anonymous(), offset, count: 10 }
}

fn ok() -> StatusResult<()> {
    StatusResult::Success(())
}

fn handle_res(bytes: &[u8]) -> ResOp {
    ResOp::GetFh(StatusResult::Success(GetFhRes { object: FileHandle(bytes.to_vec()) }))
}

fn read_res(data: &[u8]) -> ResOp {
    ResOp::Read(StatusResult::Success(ReadRes { eof: true, data: data.to_vec() }))
}

fn reply(res_array: Vec<ResOp>) -> CompoundRes {
    CompoundRes { status: ok(), tag: String::new(), res_array }
}

fn kinds(ops: &[ArgOp]) -> Vec<OperationId> {
    ops.iter().map(|op| op.operation_id()).collect()
}

type Triple = (PutFhArgs, ReadArgs, GetFh);

#[test]
fn a_tuple_sends_the_operations_of_its_requests_in_order() {
    let (ops, _) = (put_fh(&[1]), read(5), GetFh).into_arg_array();
    assert_eq!(
        ops,
        vec![ArgOp::PutFh(put_fh(&[1])), ArgOp::Read(read(5)), ArgOp::GetFh]
    );
    let (ops, _) = (PutRootFh, SaveFh).into_arg_array();
    assert_eq!(kinds(&ops), vec![OperationId::PutRootFh, OperationId::SaveFh]);
    let (ops, _) = (PutRootFh, SaveFh, GetFh, read(1)).into_arg_array();
    assert_eq!(
        kinds(&ops),
        vec![OperationId::PutRootFh, OperationId::SaveFh, OperationId::GetFh, OperationId::Read]
    );
}

#[test]
fn a_tuple_gives_the_results_of_its_requests_in_order() {
    let (_, geometry) = (put_fh(&[1]), read(5), GetFh).into_arg_array();
    let results = reply(vec![ResOp::PutFh(ok()), read_res(&[7, 8]), handle_res(&[9])]);
    let ((), read, handle) = finish_compound::<Triple>(results, &geometry).unwrap();
    assert_eq!(read, ReadRes { eof: true, data: vec![7, 8] });
    assert_eq!(handle.object, FileHandle(vec![9]));
}

#[test]
fn a_missing_result_is_a_mismatch() {
    let (_, geometry) = (put_fh(&[1]), read(5), GetFh).into_arg_array();
    let results = reply(vec![ResOp::PutFh(ok()), read_res(&[])]);
    assert!(matches!(
        finish_compound::<Triple>(results, &geometry),
        Err(Error::CompoundResponseMismatch(Mismatch::TooFewReplies))
    ));
    assert!(matches!(
        finish_compound::<Triple>(reply(vec![]), &geometry),
        Err(Error::CompoundResponseMismatch(Mismatch::TooFewReplies))
    ));
}

#[test]
fn a_result_of_another_operation_is_a_mismatch() {
    let (_, geometry) = (put_fh(&[1]), read(5), GetFh).into_arg_array();
    let results = reply(vec![ResOp::PutFh(ok()), handle_res(&[9]), read_res(&[])]);
    assert!(matches!(
        finish_compound::<Triple>(results, &geometry),
        Err(Error::CompoundResponseMismatch(Mismatch::Unexpected {
            expected: OperationId::Read,
            found: OperationId::GetFh
        }))
    ));
}

#[test]
fn results_that_are_left_over_are_a_mismatch() {
    let (_, geometry) = (put_fh(&[1]), GetFh).into_arg_array();
    let results = reply(vec![ResOp::PutFh(ok()), handle_res(&[9]), ResOp::SaveFh(ok())]);
    assert!(matches!(
        finish_compound::<(PutFhArgs, GetFh)>(results, &geometry),
        Err(Error::CompoundResponseMismatch(Mismatch::TrailingReplies))
    ));
}

#[test]
fn the_failure_of_an_operation_is_the_failure_of_the_request() {
    let (_, geometry) = (put_fh(&[1]), read(5), GetFh).into_arg_array();
    let results = reply(vec![
        ResOp::PutFh(ok()),
        ResOp::Read(StatusResult::Failure(StatusError::Access)),
    ]);
    assert!(matches!(
        finish_compound::<Triple>(results, &geometry),
        Err(Error::Protocol(StatusError::Access))
    ));
}

#[test]
fn the_status_of_the_whole_comes_before_the_results() {
    let (_, geometry) = (put_fh(&[1]), GetFh).into_arg_array();
    let results = CompoundRes {
        status: StatusResult::Failure(StatusError::Stale),
        tag: String::new(),
        res_array: vec![ResOp::SaveFh(ok())],
    };
    assert!(matches!(
        finish_compound::<(PutFhArgs, GetFh)>(results, &geometry),
        Err(Error::Protocol(StatusError::Stale))
    ));
}

#[test]
fn a_vector_sends_and_takes_as_many_as_it_holds() {
    let look_ups: Vec<LookUpArgs> = ["a", "b", "c"]
        .iter()
        .map(|n| LookUpArgs { object_name: n.to_string() })
        .collect();
    let (ops, geometry) = (PutRootFh, look_ups).into_arg_array();
    assert_eq!(
        kinds(&ops),
        vec![
            OperationId::PutRootFh,
            OperationId::LookUp,
            OperationId::LookUp,
            OperationId::LookUp
        ]
    );
    assert_eq!(ops[2], ArgOp::LookUp(LookUpArgs { object_name: "b".to_string() }));
    let mut queue: VecDeque<ResOp> = vec![
        ResOp::PutRootFh(ok()),
        ResOp::LookUp(ok()),
        ResOp::LookUp(ok()),
        ResOp::LookUp(ok()),
        ResOp::GetFh(StatusResult::Failure(StatusError::NoEnt)),
    ]
    .into();
    let ((), found) =
        <(PutRootFh, Vec<LookUpArgs>)>::process_reply(&mut queue, &geometry).unwrap();
    assert_eq!(found.len(), 3);
    assert_eq!(queue.len(), 1);

    let (ops, geometry) = Vec::<LookUpArgs>::new().into_arg_array();
    assert!(ops.is_empty());
    let mut queue: VecDeque<ResOp> = vec![ResOp::GetFh(ok_handle())].into();
    assert_eq!(Vec::<LookUpArgs>::process_reply(&mut queue, &geometry).unwrap().len(), 0);
    assert_eq!(queue.len(), 1);
}

fn ok_handle() -> StatusResult<GetFhRes> {
    StatusResult::Success(GetFhRes { object: FileHandle(vec![]) })
}

#[test]
fn the_second_look_up_that_fails_is_the_failure_of_the_vector() {
    let look_ups: Vec<LookUpArgs> =
        ["a", "b", "c"].iter().map(|n| LookUpArgs { object_name: n.to_string() }).collect();
    let (_, geometry) = look_ups.into_arg_array();
    let mut queue: VecDeque<ResOp> =
        vec![ResOp::LookUp(ok()), ResOp::LookUp(StatusResult::Failure(StatusError::NoEnt))].into();
    assert!(matches!(
        Vec::<LookUpArgs>::process_reply(&mut queue, &geometry),
        Err(Error::Protocol(StatusError::NoEnt))
    ));
}

#[test]
fn a_prologue_gives_the_result_of_what_follows_it() {
    let request = ReturnSecond((PutRootFh, put_fh(&[1])), GetFh);
    let (ops, geometry) = request.into_arg_array();
    assert_eq!(kinds(&ops), vec![OperationId::PutRootFh, OperationId::PutFh, OperationId::GetFh]);
    let results = reply(vec![ResOp::PutRootFh(ok()), ResOp::PutFh(ok()), handle_res(&[4, 2])]);
    let handle =
        finish_compound::<ReturnSecond<(PutRootFh, PutFhArgs), GetFh>>(results, &geometry).unwrap();
    assert_eq!(handle.object, FileHandle(vec![4, 2]));

    let failed = reply(vec![ResOp::PutRootFh(StatusResult::Failure(StatusError::ServerFault))]);
    assert!(matches!(
        finish_compound::<ReturnSecond<(PutRootFh, PutFhArgs), GetFh>>(failed, &geometry),
        Err(Error::Protocol(StatusError::ServerFault))
    ));
}

#[test]
fn the_result_of_setting_attributes_carries_its_status_apart() {
    let request = SetAttrArgs { state_id: StateId::anonymous(), object_attributes: EnumMap::new() };
    let (ops, geometry) = request.into_arg_array();
    assert_eq!(kinds(&ops), vec![OperationId::SetAttr]);
    let set = SetAttrRes { attr_set: EnumSet::new() };
    let good = reply(vec![ResOp::SetAttr(SetAttrStatusResult { status: ok(), res: set.clone() })]);
    assert_eq!(finish_compound::<SetAttrArgs>(good, &geometry).unwrap(), set);
    let bad = reply(vec![ResOp::SetAttr(SetAttrStatusResult {
        status: StatusResult::Failure(StatusError::Perm),
        res: set,
    })]);
    assert!(matches!(
        finish_compound::<SetAttrArgs>(bad, &geometry),
        Err(Error::Protocol(StatusError::Perm))
    ));
}

#[test]
fn every_compound_carries_the_tag_and_the_minor_version_of_the_client() {
    let args = compound_args(vec![ArgOp::PutRootFh]);
    assert_eq!(args.tag, "Test Client");
    assert_eq!(args.minor_version, 1);
    assert_eq!(args.arg_array, vec![ArgOp::PutRootFh]);
}

#[test]
fn five_requests_in_a_row_are_sent_and_answered_in_order() {
    type Five = (PutRootFh, SaveFh, PutFhArgs, ReadArgs, GetFh);
    let (ops, geometry) = (PutRootFh, SaveFh, put_fh(&[1]), read(5), GetFh).into_arg_array();
    assert_eq!(
        kinds(&ops),
        vec![
            OperationId::PutRootFh,
            OperationId::SaveFh,
            OperationId::PutFh,
            OperationId::Read,
            OperationId::GetFh,
        ]
    );
    let results = reply(vec![
        ResOp::PutRootFh(ok()),
        ResOp::SaveFh(ok()),
        ResOp::PutFh(ok()),
        read_res(&[7, 8]),
        handle_res(&[9]),
    ]);
    let ((), (), (), read, handle) = finish_compound::<Five>(results, &geometry).unwrap();
    assert_eq!(read, ReadRes { eof: true, data: vec![7, 8] });
    assert_eq!(handle.object, FileHandle(vec![9]));
    let failed = reply(vec![
        ResOp::PutRootFh(ok()),
        ResOp::SaveFh(ok()),
        ResOp::PutFh(StatusResult::Failure(StatusError::Stale)),
    ]);
    assert!(matches!(
        finish_compound::<Five>(failed, &geometry),
        Err(Error::Protocol(StatusError::Stale))
    ));
}

#[test]
fn seventeen_requests_in_a_row_are_sent_and_answered_in_order() {
    type Seventeen = (
        PutRootFh, SaveFh, PutRootFh, SaveFh, PutRootFh, SaveFh, PutRootFh, SaveFh, PutRootFh,
        SaveFh, PutRootFh, SaveFh, PutRootFh, SaveFh, PutRootFh, ReadArgs, GetFh,
    );
    let request: Seventeen = (
        PutRootFh, SaveFh, PutRootFh, SaveFh, PutRootFh, SaveFh, PutRootFh, SaveFh, PutRootFh,
        SaveFh, PutRootFh, SaveFh, PutRootFh, SaveFh, PutRootFh, read(3), GetFh,
    );
    let (ops, geometry) = request.into_arg_array();
    assert_eq!(ops.len(), 17);
    assert_eq!(kinds(&ops)[14..], [OperationId::PutRootFh, OperationId::Read, OperationId::GetFh]);
    let mut results = vec![];
    for i in 0..15 {
        results.push(if i % 2 == 0 { ResOp::PutRootFh(ok()) } else { ResOp::SaveFh(ok()) });
    }
    results.push(read_res(&[4]));
    results.push(handle_res(&[5, 6]));
    let got = finish_compound::<Seventeen>(reply(results.clone()), &geometry).unwrap();
    assert_eq!(got.15, ReadRes { eof: true, data: vec![4] });
    assert_eq!(got.16.object, FileHandle(vec![5, 6]));
    results.pop();
    assert!(matches!(
        finish_compound::<Seventeen>(reply(results), &geometry),
        Err(Error::CompoundResponseMismatch(_))
    ));
}
