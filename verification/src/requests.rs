//! The operations of NFSv4.1 as requests: each sends one call and takes the
//! result of the same operation.

use crate::args::{
    BackchannelCtlArgs, BindConnToSessionArgs, CloseArgs, CommitArgs, CreateArgs, CreateSessionArgs,
    DelegPurgeArgs, DelegReturnArgs, DestroyClientIdArgs, DestroySessionArgs, ExchangeIdArgs,
    FreeStateidArgs, GetAttrArgs, GetDeviceInfoArgs, GetDeviceListArgs, GetDirDelegationArgs,
    LayoutCommitArgs, LayoutGetArgs, LayoutReturn, LayoutReturnArgs, LinkArgs, LockArgs, LockTArgs,
    LockUArgs, LookUpArgs, NVerifyArgs, OpenArgs, OpenAttrArgs, OpenDowngradeArgs, PutFhArgs,
    ReadArgs, ReadDirArgs, ReclaimCompleteArgs, RemoveArgs, RenameArgs, SecInfoArgs,
    SecInfoNoNameArgs, SequenceArgs, SetAttrArgs, SetSsvArgs, TestStateIdArgs, VerifyArgs,
    WantDelegationArgs, WriteArgs,
};
use crate::compound::{
    lemma_first_failure_of_one, one_failure, CompoundRequest, Error, Mismatch, TempResult,
};
use crate::ops::{ArgOp, OperationId, ResOp};
use crate::res::{
    BindConnToSessionRes, CloseRes, CommitRes, CreateRes, CreateSessionRes, ExchangeIdRes,
    GetAttrRes, GetDeviceInfoRes, GetDeviceListRes, GetDirDelegationRes, GetFhRes, LayoutCommitRes,
    LayoutGetRes, LayoutReturnRes, LinkRes, LockRes, LockURes, OpenDowngradeRes, OpenRes,
    ReadDirRes, ReadLinkRes, ReadRes, RemoveRes, RenameRes, SecInfoRes, SequenceRes, SetAttrRes,
    SetSsvRes, TestStateIdRes, WantDelegationRes, WriteRes,
};
use crate::status::{LockStatusResult, StatusResult};
use std::collections::VecDeque;
use vstd::prelude::*;

verus! {

impl CompoundRequest for CloseArgs {
    type Response = CloseRes;

    type Geometry = ();

    open spec fn arg_ops(self) -> Seq<ArgOp> {
        seq![ArgOp::Close(self)]
    }

    open spec fn is_geometry(self, g: ()) -> bool {
        true
    }

    open spec fn expected(g: ()) -> Seq<OperationId> {
        seq![OperationId::Close]
    }

    open spec fn failure(g: (), res: Seq<ResOp>) -> Option<Error> {
        one_failure(OperationId::Close, res)
    }

    open spec fn yields(g: (), res: Seq<ResOp>, v: CloseRes) -> bool {
        res.len() > 0 && res[0] == ResOp::Close(StatusResult::Success(v))
    }

    proof fn lemma_expected(self, g: ()) {
    }

    proof fn lemma_failure(g: (), res: Seq<ResOp>) {
        lemma_first_failure_of_one(OperationId::Close, res);
    }

    fn into_arg_array(self) -> (r: (Vec<ArgOp>, ())) {
        let mut ops: Vec<ArgOp> = Vec::new();
        ops.push(ArgOp::Close(self));
        (ops, ())
    }

    fn process_reply(
        res_array: &mut VecDeque<ResOp>,
        geometry: &(),
    ) -> (r: Result<CloseRes, Error>) {
        match res_array.pop_front() {
            None => Err(Error::CompoundResponseMismatch(Mismatch::TooFewReplies)),
            Some(ResOp::Close(res)) => {
                assert(old(res_array)@.skip(1) =~= old(res_array)@.subrange(
                    1,
                    old(res_array)@.len() as int,
                ));
                TempResult::from(res).0
            },
            Some(op) => Err(
                Error::CompoundResponseMismatch(
                    Mismatch::Unexpected { expected: OperationId::Close, found: op.operation_id() },
                ),
            ),
        }
    }
}

impl CompoundRequest for CommitArgs {
    type Response = CommitRes;

    type Geometry = ();

    open spec fn arg_ops(self) -> Seq<ArgOp> {
        seq![ArgOp::Commit(self)]
    }

    open spec fn is_geometry(self, g: ()) -> bool {
        true
    }

    open spec fn expected(g: ()) -> Seq<OperationId> {
        seq![OperationId::Commit]
    }

    open spec fn failure(g: (), res: Seq<ResOp>) -> Option<Error> {
        one_failure(OperationId::Commit, res)
    }

    open spec fn yields(g: (), res: Seq<ResOp>, v: CommitRes) -> bool {
        res.len() > 0 && res[0] == ResOp::Commit(StatusResult::Success(v))
    }

    proof fn lemma_expected(self, g: ()) {
    }

    proof fn lemma_failure(g: (), res: Seq<ResOp>) {
        lemma_first_failure_of_one(OperationId::Commit, res);
    }

    fn into_arg_array(self) -> (r: (Vec<ArgOp>, ())) {
        let mut ops: Vec<ArgOp> = Vec::new();
        ops.push(ArgOp::Commit(self));
        (ops, ())
    }

    fn process_reply(
        res_array: &mut VecDeque<ResOp>,
        geometry: &(),
    ) -> (r: Result<CommitRes, Error>) {
        match res_array.pop_front() {
            None => Err(Error::CompoundResponseMismatch(Mismatch::TooFewReplies)),
            Some(ResOp::Commit(res)) => {
                assert(old(res_array)@.skip(1) =~= old(res_array)@.subrange(
                    1,
                    old(res_array)@.len() as int,
                ));
                TempResult::from(res).0
            },
            Some(op) => Err(
                Error::CompoundResponseMismatch(
                    Mismatch::Unexpected {
                        expected: OperationId::Commit,
                        found: op.operation_id(),
                    },
                ),
            ),
        }
    }
}

impl CompoundRequest for CreateArgs {
    type Response = CreateRes;

    type Geometry = ();

    open spec fn arg_ops(self) -> Seq<ArgOp> {
        seq![ArgOp::Create(self)]
    }

    open spec fn is_geometry(self, g: ()) -> bool {
        true
    }

    open spec fn expected(g: ()) -> Seq<OperationId> {
        seq![OperationId::Create]
    }

    open spec fn failure(g: (), res: Seq<ResOp>) -> Option<Error> {
        one_failure(OperationId::Create, res)
    }

    open spec fn yields(g: (), res: Seq<ResOp>, v: CreateRes) -> bool {
        res.len() > 0 && res[0] == ResOp::Create(StatusResult::Success(v))
    }

    proof fn lemma_expected(self, g: ()) {
    }

    proof fn lemma_failure(g: (), res: Seq<ResOp>) {
        lemma_first_failure_of_one(OperationId::Create, res);
    }

    fn into_arg_array(self) -> (r: (Vec<ArgOp>, ())) {
        let mut ops: Vec<ArgOp> = Vec::new();
        ops.push(ArgOp::Create(self));
        (ops, ())
    }

    fn process_reply(
        res_array: &mut VecDeque<ResOp>,
        geometry: &(),
    ) -> (r: Result<CreateRes, Error>) {
        match res_array.pop_front() {
            None => Err(Error::CompoundResponseMismatch(Mismatch::TooFewReplies)),
            Some(ResOp::Create(res)) => {
                assert(old(res_array)@.skip(1) =~= old(res_array)@.subrange(
                    1,
                    old(res_array)@.len() as int,
                ));
                TempResult::from(res).0
            },
            Some(op) => Err(
                Error::CompoundResponseMismatch(
                    Mismatch::Unexpected {
                        expected: OperationId::Create,
                        found: op.operation_id(),
                    },
                ),
            ),
        }
    }
}

impl CompoundRequest for GetAttrArgs {
    type Response = GetAttrRes;

    type Geometry = ();

    open spec fn arg_ops(self) -> Seq<ArgOp> {
        seq![ArgOp::GetAttr(self)]
    }

    open spec fn is_geometry(self, g: ()) -> bool {
        true
    }

    open spec fn expected(g: ()) -> Seq<OperationId> {
        seq![OperationId::GetAttr]
    }

    open spec fn failure(g: (), res: Seq<ResOp>) -> Option<Error> {
        one_failure(OperationId::GetAttr, res)
    }

    open spec fn yields(g: (), res: Seq<ResOp>, v: GetAttrRes) -> bool {
        res.len() > 0 && res[0] == ResOp::GetAttr(StatusResult::Success(v))
    }

    proof fn lemma_expected(self, g: ()) {
    }

    proof fn lemma_failure(g: (), res: Seq<ResOp>) {
        lemma_first_failure_of_one(OperationId::GetAttr, res);
    }

    fn into_arg_array(self) -> (r: (Vec<ArgOp>, ())) {
        let mut ops: Vec<ArgOp> = Vec::new();
        ops.push(ArgOp::GetAttr(self));
        (ops, ())
    }

    fn process_reply(
        res_array: &mut VecDeque<ResOp>,
        geometry: &(),
    ) -> (r: Result<GetAttrRes, Error>) {
        match res_array.pop_front() {
            None => Err(Error::CompoundResponseMismatch(Mismatch::TooFewReplies)),
            Some(ResOp::GetAttr(res)) => {
                assert(old(res_array)@.skip(1) =~= old(res_array)@.subrange(
                    1,
                    old(res_array)@.len() as int,
                ));
                TempResult::from(res).0
            },
            Some(op) => Err(
                Error::CompoundResponseMismatch(
                    Mismatch::Unexpected {
                        expected: OperationId::GetAttr,
                        found: op.operation_id(),
                    },
                ),
            ),
        }
    }
}

impl CompoundRequest for LinkArgs {
    type Response = LinkRes;

    type Geometry = ();

    open spec fn arg_ops(self) -> Seq<ArgOp> {
        seq![ArgOp::Link(self)]
    }

    open spec fn is_geometry(self, g: ()) -> bool {
        true
    }

    open spec fn expected(g: ()) -> Seq<OperationId> {
        seq![OperationId::Link]
    }

    open spec fn failure(g: (), res: Seq<ResOp>) -> Option<Error> {
        one_failure(OperationId::Link, res)
    }

    open spec fn yields(g: (), res: Seq<ResOp>, v: LinkRes) -> bool {
        res.len() > 0 && res[0] == ResOp::Link(LockStatusResult::Success(v))
    }

    proof fn lemma_expected(self, g: ()) {
    }

    proof fn lemma_failure(g: (), res: Seq<ResOp>) {
        lemma_first_failure_of_one(OperationId::Link, res);
    }

    fn into_arg_array(self) -> (r: (Vec<ArgOp>, ())) {
        let mut ops: Vec<ArgOp> = Vec::new();
        ops.push(ArgOp::Link(self));
        (ops, ())
    }

    fn process_reply(
        res_array: &mut VecDeque<ResOp>,
        geometry: &(),
    ) -> (r: Result<LinkRes, Error>) {
        match res_array.pop_front() {
            None => Err(Error::CompoundResponseMismatch(Mismatch::TooFewReplies)),
            Some(ResOp::Link(res)) => {
                assert(old(res_array)@.skip(1) =~= old(res_array)@.subrange(
                    1,
                    old(res_array)@.len() as int,
                ));
                TempResult::from(res).0
            },
            Some(op) => Err(
                Error::CompoundResponseMismatch(
                    Mismatch::Unexpected { expected: OperationId::Link, found: op.operation_id() },
                ),
            ),
        }
    }
}

impl CompoundRequest for LockArgs {
    type Response = LockRes;

    type Geometry = ();

    open spec fn arg_ops(self) -> Seq<ArgOp> {
        seq![ArgOp::Lock(self)]
    }

    open spec fn is_geometry(self, g: ()) -> bool {
        true
    }

    open spec fn expected(g: ()) -> Seq<OperationId> {
        seq![OperationId::Lock]
    }

    open spec fn failure(g: (), res: Seq<ResOp>) -> Option<Error> {
        one_failure(OperationId::Lock, res)
    }

    open spec fn yields(g: (), res: Seq<ResOp>, v: LockRes) -> bool {
        res.len() > 0 && res[0] == ResOp::Lock(LockStatusResult::Success(v))
    }

    proof fn lemma_expected(self, g: ()) {
    }

    proof fn lemma_failure(g: (), res: Seq<ResOp>) {
        lemma_first_failure_of_one(OperationId::Lock, res);
    }

    fn into_arg_array(self) -> (r: (Vec<ArgOp>, ())) {
        let mut ops: Vec<ArgOp> = Vec::new();
        ops.push(ArgOp::Lock(self));
        (ops, ())
    }

    fn process_reply(
        res_array: &mut VecDeque<ResOp>,
        geometry: &(),
    ) -> (r: Result<LockRes, Error>) {
        match res_array.pop_front() {
            None => Err(Error::CompoundResponseMismatch(Mismatch::TooFewReplies)),
            Some(ResOp::Lock(res)) => {
                assert(old(res_array)@.skip(1) =~= old(res_array)@.subrange(
                    1,
                    old(res_array)@.len() as int,
                ));
                TempResult::from(res).0
            },
            Some(op) => Err(
                Error::CompoundResponseMismatch(
                    Mismatch::Unexpected { expected: OperationId::Lock, found: op.operation_id() },
                ),
            ),
        }
    }
}

impl CompoundRequest for LockUArgs {
    type Response = LockURes;

    type Geometry = ();

    open spec fn arg_ops(self) -> Seq<ArgOp> {
        seq![ArgOp::LockU(self)]
    }

    open spec fn is_geometry(self, g: ()) -> bool {
        true
    }

    open spec fn expected(g: ()) -> Seq<OperationId> {
        seq![OperationId::LockU]
    }

    open spec fn failure(g: (), res: Seq<ResOp>) -> Option<Error> {
        one_failure(OperationId::LockU, res)
    }

    open spec fn yields(g: (), res: Seq<ResOp>, v: LockURes) -> bool {
        res.len() > 0 && res[0] == ResOp::LockU(StatusResult::Success(v))
    }

    proof fn lemma_expected(self, g: ()) {
    }

    proof fn lemma_failure(g: (), res: Seq<ResOp>) {
        lemma_first_failure_of_one(OperationId::LockU, res);
    }

    fn into_arg_array(self) -> (r: (Vec<ArgOp>, ())) {
        let mut ops: Vec<ArgOp> = Vec::new();
        ops.push(ArgOp::LockU(self));
        (ops, ())
    }

    fn process_reply(
        res_array: &mut VecDeque<ResOp>,
        geometry: &(),
    ) -> (r: Result<LockURes, Error>) {
        match res_array.pop_front() {
            None => Err(Error::CompoundResponseMismatch(Mismatch::TooFewReplies)),
            Some(ResOp::LockU(res)) => {
                assert(old(res_array)@.skip(1) =~= old(res_array)@.subrange(
                    1,
                    old(res_array)@.len() as int,
                ));
                TempResult::from(res).0
            },
            Some(op) => Err(
                Error::CompoundResponseMismatch(
                    Mismatch::Unexpected { expected: OperationId::LockU, found: op.operation_id() },
                ),
            ),
        }
    }
}

impl CompoundRequest for OpenArgs {
    type Response = OpenRes;

    type Geometry = ();

    open spec fn arg_ops(self) -> Seq<ArgOp> {
        seq![ArgOp::Open(self)]
    }

    open spec fn is_geometry(self, g: ()) -> bool {
        true
    }

    open spec fn expected(g: ()) -> Seq<OperationId> {
        seq![OperationId::Open]
    }

    open spec fn failure(g: (), res: Seq<ResOp>) -> Option<Error> {
        one_failure(OperationId::Open, res)
    }

    open spec fn yields(g: (), res: Seq<ResOp>, v: OpenRes) -> bool {
        res.len() > 0 && res[0] == ResOp::Open(StatusResult::Success(v))
    }

    proof fn lemma_expected(self, g: ()) {
    }

    proof fn lemma_failure(g: (), res: Seq<ResOp>) {
        lemma_first_failure_of_one(OperationId::Open, res);
    }

    fn into_arg_array(self) -> (r: (Vec<ArgOp>, ())) {
        let mut ops: Vec<ArgOp> = Vec::new();
        ops.push(ArgOp::Open(self));
        (ops, ())
    }

    fn process_reply(
        res_array: &mut VecDeque<ResOp>,
        geometry: &(),
    ) -> (r: Result<OpenRes, Error>) {
        match res_array.pop_front() {
            None => Err(Error::CompoundResponseMismatch(Mismatch::TooFewReplies)),
            Some(ResOp::Open(res)) => {
                assert(old(res_array)@.skip(1) =~= old(res_array)@.subrange(
                    1,
                    old(res_array)@.len() as int,
                ));
                TempResult::from(res).0
            },
            Some(op) => Err(
                Error::CompoundResponseMismatch(
                    Mismatch::Unexpected { expected: OperationId::Open, found: op.operation_id() },
                ),
            ),
        }
    }
}

impl CompoundRequest for OpenDowngradeArgs {
    type Response = OpenDowngradeRes;

    type Geometry = ();

    open spec fn arg_ops(self) -> Seq<ArgOp> {
        seq![ArgOp::OpenDowngrade(self)]
    }

    open spec fn is_geometry(self, g: ()) -> bool {
        true
    }

    open spec fn expected(g: ()) -> Seq<OperationId> {
        seq![OperationId::OpenDowngrade]
    }

    open spec fn failure(g: (), res: Seq<ResOp>) -> Option<Error> {
        one_failure(OperationId::OpenDowngrade, res)
    }

    open spec fn yields(g: (), res: Seq<ResOp>, v: OpenDowngradeRes) -> bool {
        res.len() > 0 && res[0] == ResOp::OpenDowngrade(StatusResult::Success(v))
    }

    proof fn lemma_expected(self, g: ()) {
    }

    proof fn lemma_failure(g: (), res: Seq<ResOp>) {
        lemma_first_failure_of_one(OperationId::OpenDowngrade, res);
    }

    fn into_arg_array(self) -> (r: (Vec<ArgOp>, ())) {
        let mut ops: Vec<ArgOp> = Vec::new();
        ops.push(ArgOp::OpenDowngrade(self));
        (ops, ())
    }

    fn process_reply(
        res_array: &mut VecDeque<ResOp>,
        geometry: &(),
    ) -> (r: Result<OpenDowngradeRes, Error>) {
        match res_array.pop_front() {
            None => Err(Error::CompoundResponseMismatch(Mismatch::TooFewReplies)),
            Some(ResOp::OpenDowngrade(res)) => {
                assert(old(res_array)@.skip(1) =~= old(res_array)@.subrange(
                    1,
                    old(res_array)@.len() as int,
                ));
                TempResult::from(res).0
            },
            Some(op) => Err(
                Error::CompoundResponseMismatch(
                    Mismatch::Unexpected {
                        expected: OperationId::OpenDowngrade,
                        found: op.operation_id(),
                    },
                ),
            ),
        }
    }
}

impl CompoundRequest for ReadArgs {
    type Response = ReadRes;

    type Geometry = ();

    open spec fn arg_ops(self) -> Seq<ArgOp> {
        seq![ArgOp::Read(self)]
    }

    open spec fn is_geometry(self, g: ()) -> bool {
        true
    }

    open spec fn expected(g: ()) -> Seq<OperationId> {
        seq![OperationId::Read]
    }

    open spec fn failure(g: (), res: Seq<ResOp>) -> Option<Error> {
        one_failure(OperationId::Read, res)
    }

    open spec fn yields(g: (), res: Seq<ResOp>, v: ReadRes) -> bool {
        res.len() > 0 && res[0] == ResOp::Read(StatusResult::Success(v))
    }

    proof fn lemma_expected(self, g: ()) {
    }

    proof fn lemma_failure(g: (), res: Seq<ResOp>) {
        lemma_first_failure_of_one(OperationId::Read, res);
    }

    fn into_arg_array(self) -> (r: (Vec<ArgOp>, ())) {
        let mut ops: Vec<ArgOp> = Vec::new();
        ops.push(ArgOp::Read(self));
        (ops, ())
    }

    fn process_reply(
        res_array: &mut VecDeque<ResOp>,
        geometry: &(),
    ) -> (r: Result<ReadRes, Error>) {
        match res_array.pop_front() {
            None => Err(Error::CompoundResponseMismatch(Mismatch::TooFewReplies)),
            Some(ResOp::Read(res)) => {
                assert(old(res_array)@.skip(1) =~= old(res_array)@.subrange(
                    1,
                    old(res_array)@.len() as int,
                ));
                TempResult::from(res).0
            },
            Some(op) => Err(
                Error::CompoundResponseMismatch(
                    Mismatch::Unexpected { expected: OperationId::Read, found: op.operation_id() },
                ),
            ),
        }
    }
}

impl CompoundRequest for ReadDirArgs {
    type Response = ReadDirRes;

    type Geometry = ();

    open spec fn arg_ops(self) -> Seq<ArgOp> {
        seq![ArgOp::ReadDir(self)]
    }

    open spec fn is_geometry(self, g: ()) -> bool {
        true
    }

    open spec fn expected(g: ()) -> Seq<OperationId> {
        seq![OperationId::ReadDir]
    }

    open spec fn failure(g: (), res: Seq<ResOp>) -> Option<Error> {
        one_failure(OperationId::ReadDir, res)
    }

    open spec fn yields(g: (), res: Seq<ResOp>, v: ReadDirRes) -> bool {
        res.len() > 0 && res[0] == ResOp::ReadDir(StatusResult::Success(v))
    }

    proof fn lemma_expected(self, g: ()) {
    }

    proof fn lemma_failure(g: (), res: Seq<ResOp>) {
        lemma_first_failure_of_one(OperationId::ReadDir, res);
    }

    fn into_arg_array(self) -> (r: (Vec<ArgOp>, ())) {
        let mut ops: Vec<ArgOp> = Vec::new();
        ops.push(ArgOp::ReadDir(self));
        (ops, ())
    }

    fn process_reply(
        res_array: &mut VecDeque<ResOp>,
        geometry: &(),
    ) -> (r: Result<ReadDirRes, Error>) {
        match res_array.pop_front() {
            None => Err(Error::CompoundResponseMismatch(Mismatch::TooFewReplies)),
            Some(ResOp::ReadDir(res)) => {
                assert(old(res_array)@.skip(1) =~= old(res_array)@.subrange(
                    1,
                    old(res_array)@.len() as int,
                ));
                TempResult::from(res).0
            },
            Some(op) => Err(
                Error::CompoundResponseMismatch(
                    Mismatch::Unexpected {
                        expected: OperationId::ReadDir,
                        found: op.operation_id(),
                    },
                ),
            ),
        }
    }
}

impl CompoundRequest for RemoveArgs {
    type Response = RemoveRes;

    type Geometry = ();

    open spec fn arg_ops(self) -> Seq<ArgOp> {
        seq![ArgOp::Remove(self)]
    }

    open spec fn is_geometry(self, g: ()) -> bool {
        true
    }

    open spec fn expected(g: ()) -> Seq<OperationId> {
        seq![OperationId::Remove]
    }

    open spec fn failure(g: (), res: Seq<ResOp>) -> Option<Error> {
        one_failure(OperationId::Remove, res)
    }

    open spec fn yields(g: (), res: Seq<ResOp>, v: RemoveRes) -> bool {
        res.len() > 0 && res[0] == ResOp::Remove(StatusResult::Success(v))
    }

    proof fn lemma_expected(self, g: ()) {
    }

    proof fn lemma_failure(g: (), res: Seq<ResOp>) {
        lemma_first_failure_of_one(OperationId::Remove, res);
    }

    fn into_arg_array(self) -> (r: (Vec<ArgOp>, ())) {
        let mut ops: Vec<ArgOp> = Vec::new();
        ops.push(ArgOp::Remove(self));
        (ops, ())
    }

    fn process_reply(
        res_array: &mut VecDeque<ResOp>,
        geometry: &(),
    ) -> (r: Result<RemoveRes, Error>) {
        match res_array.pop_front() {
            None => Err(Error::CompoundResponseMismatch(Mismatch::TooFewReplies)),
            Some(ResOp::Remove(res)) => {
                assert(old(res_array)@.skip(1) =~= old(res_array)@.subrange(
                    1,
                    old(res_array)@.len() as int,
                ));
                TempResult::from(res).0
            },
            Some(op) => Err(
                Error::CompoundResponseMismatch(
                    Mismatch::Unexpected {
                        expected: OperationId::Remove,
                        found: op.operation_id(),
                    },
                ),
            ),
        }
    }
}

impl CompoundRequest for RenameArgs {
    type Response = RenameRes;

    type Geometry = ();

    open spec fn arg_ops(self) -> Seq<ArgOp> {
        seq![ArgOp::Rename(self)]
    }

    open spec fn is_geometry(self, g: ()) -> bool {
        true
    }

    open spec fn expected(g: ()) -> Seq<OperationId> {
        seq![OperationId::Rename]
    }

    open spec fn failure(g: (), res: Seq<ResOp>) -> Option<Error> {
        one_failure(OperationId::Rename, res)
    }

    open spec fn yields(g: (), res: Seq<ResOp>, v: RenameRes) -> bool {
        res.len() > 0 && res[0] == ResOp::Rename(StatusResult::Success(v))
    }

    proof fn lemma_expected(self, g: ()) {
    }

    proof fn lemma_failure(g: (), res: Seq<ResOp>) {
        lemma_first_failure_of_one(OperationId::Rename, res);
    }

    fn into_arg_array(self) -> (r: (Vec<ArgOp>, ())) {
        let mut ops: Vec<ArgOp> = Vec::new();
        ops.push(ArgOp::Rename(self));
        (ops, ())
    }

    fn process_reply(
        res_array: &mut VecDeque<ResOp>,
        geometry: &(),
    ) -> (r: Result<RenameRes, Error>) {
        match res_array.pop_front() {
            None => Err(Error::CompoundResponseMismatch(Mismatch::TooFewReplies)),
            Some(ResOp::Rename(res)) => {
                assert(old(res_array)@.skip(1) =~= old(res_array)@.subrange(
                    1,
                    old(res_array)@.len() as int,
                ));
                TempResult::from(res).0
            },
            Some(op) => Err(
                Error::CompoundResponseMismatch(
                    Mismatch::Unexpected {
                        expected: OperationId::Rename,
                        found: op.operation_id(),
                    },
                ),
            ),
        }
    }
}

impl CompoundRequest for SecInfoArgs {
    type Response = SecInfoRes;

    type Geometry = ();

    open spec fn arg_ops(self) -> Seq<ArgOp> {
        seq![ArgOp::SecInfo(self)]
    }

    open spec fn is_geometry(self, g: ()) -> bool {
        true
    }

    open spec fn expected(g: ()) -> Seq<OperationId> {
        seq![OperationId::SecInfo]
    }

    open spec fn failure(g: (), res: Seq<ResOp>) -> Option<Error> {
        one_failure(OperationId::SecInfo, res)
    }

    open spec fn yields(g: (), res: Seq<ResOp>, v: SecInfoRes) -> bool {
        res.len() > 0 && res[0] == ResOp::SecInfo(StatusResult::Success(v))
    }

    proof fn lemma_expected(self, g: ()) {
    }

    proof fn lemma_failure(g: (), res: Seq<ResOp>) {
        lemma_first_failure_of_one(OperationId::SecInfo, res);
    }

    fn into_arg_array(self) -> (r: (Vec<ArgOp>, ())) {
        let mut ops: Vec<ArgOp> = Vec::new();
        ops.push(ArgOp::SecInfo(self));
        (ops, ())
    }

    fn process_reply(
        res_array: &mut VecDeque<ResOp>,
        geometry: &(),
    ) -> (r: Result<SecInfoRes, Error>) {
        match res_array.pop_front() {
            None => Err(Error::CompoundResponseMismatch(Mismatch::TooFewReplies)),
            Some(ResOp::SecInfo(res)) => {
                assert(old(res_array)@.skip(1) =~= old(res_array)@.subrange(
                    1,
                    old(res_array)@.len() as int,
                ));
                TempResult::from(res).0
            },
            Some(op) => Err(
                Error::CompoundResponseMismatch(
                    Mismatch::Unexpected {
                        expected: OperationId::SecInfo,
                        found: op.operation_id(),
                    },
                ),
            ),
        }
    }
}

impl CompoundRequest for SetAttrArgs {
    type Response = SetAttrRes;

    type Geometry = ();

    open spec fn arg_ops(self) -> Seq<ArgOp> {
        seq![ArgOp::SetAttr(self)]
    }

    open spec fn is_geometry(self, g: ()) -> bool {
        true
    }

    open spec fn expected(g: ()) -> Seq<OperationId> {
        seq![OperationId::SetAttr]
    }

    open spec fn failure(g: (), res: Seq<ResOp>) -> Option<Error> {
        one_failure(OperationId::SetAttr, res)
    }

    open spec fn yields(g: (), res: Seq<ResOp>, v: SetAttrRes) -> bool {
        res.len() > 0 && (res[0] matches ResOp::SetAttr(s) && s.status is Success && s.res == v)
    }

    proof fn lemma_expected(self, g: ()) {
    }

    proof fn lemma_failure(g: (), res: Seq<ResOp>) {
        lemma_first_failure_of_one(OperationId::SetAttr, res);
    }

    fn into_arg_array(self) -> (r: (Vec<ArgOp>, ())) {
        let mut ops: Vec<ArgOp> = Vec::new();
        ops.push(ArgOp::SetAttr(self));
        (ops, ())
    }

    fn process_reply(
        res_array: &mut VecDeque<ResOp>,
        geometry: &(),
    ) -> (r: Result<SetAttrRes, Error>) {
        match res_array.pop_front() {
            None => Err(Error::CompoundResponseMismatch(Mismatch::TooFewReplies)),
            Some(ResOp::SetAttr(res)) => {
                assert(old(res_array)@.skip(1) =~= old(res_array)@.subrange(
                    1,
                    old(res_array)@.len() as int,
                ));
                TempResult::from(res).0
            },
            Some(op) => Err(
                Error::CompoundResponseMismatch(
                    Mismatch::Unexpected {
                        expected: OperationId::SetAttr,
                        found: op.operation_id(),
                    },
                ),
            ),
        }
    }
}

impl CompoundRequest for WriteArgs {
    type Response = WriteRes;

    type Geometry = ();

    open spec fn arg_ops(self) -> Seq<ArgOp> {
        seq![ArgOp::Write(self)]
    }

    open spec fn is_geometry(self, g: ()) -> bool {
        true
    }

    open spec fn expected(g: ()) -> Seq<OperationId> {
        seq![OperationId::Write]
    }

    open spec fn failure(g: (), res: Seq<ResOp>) -> Option<Error> {
        one_failure(OperationId::Write, res)
    }

    open spec fn yields(g: (), res: Seq<ResOp>, v: WriteRes) -> bool {
        res.len() > 0 && res[0] == ResOp::Write(StatusResult::Success(v))
    }

    proof fn lemma_expected(self, g: ()) {
    }

    proof fn lemma_failure(g: (), res: Seq<ResOp>) {
        lemma_first_failure_of_one(OperationId::Write, res);
    }

    fn into_arg_array(self) -> (r: (Vec<ArgOp>, ())) {
        let mut ops: Vec<ArgOp> = Vec::new();
        ops.push(ArgOp::Write(self));
        (ops, ())
    }

    fn process_reply(
        res_array: &mut VecDeque<ResOp>,
        geometry: &(),
    ) -> (r: Result<WriteRes, Error>) {
        match res_array.pop_front() {
            None => Err(Error::CompoundResponseMismatch(Mismatch::TooFewReplies)),
            Some(ResOp::Write(res)) => {
                assert(old(res_array)@.skip(1) =~= old(res_array)@.subrange(
                    1,
                    old(res_array)@.len() as int,
                ));
                TempResult::from(res).0
            },
            Some(op) => Err(
                Error::CompoundResponseMismatch(
                    Mismatch::Unexpected { expected: OperationId::Write, found: op.operation_id() },
                ),
            ),
        }
    }
}

impl CompoundRequest for BindConnToSessionArgs {
    type Response = BindConnToSessionRes;

    type Geometry = ();

    open spec fn arg_ops(self) -> Seq<ArgOp> {
        seq![ArgOp::BindConnToSession(self)]
    }

    open spec fn is_geometry(self, g: ()) -> bool {
        true
    }

    open spec fn expected(g: ()) -> Seq<OperationId> {
        seq![OperationId::BindConnToSession]
    }

    open spec fn failure(g: (), res: Seq<ResOp>) -> Option<Error> {
        one_failure(OperationId::BindConnToSession, res)
    }

    open spec fn yields(g: (), res: Seq<ResOp>, v: BindConnToSessionRes) -> bool {
        res.len() > 0 && res[0] == ResOp::BindConnToSession(StatusResult::Success(v))
    }

    proof fn lemma_expected(self, g: ()) {
    }

    proof fn lemma_failure(g: (), res: Seq<ResOp>) {
        lemma_first_failure_of_one(OperationId::BindConnToSession, res);
    }

    fn into_arg_array(self) -> (r: (Vec<ArgOp>, ())) {
        let mut ops: Vec<ArgOp> = Vec::new();
        ops.push(ArgOp::BindConnToSession(self));
        (ops, ())
    }

    fn process_reply(
        res_array: &mut VecDeque<ResOp>,
        geometry: &(),
    ) -> (r: Result<BindConnToSessionRes, Error>) {
        match res_array.pop_front() {
            None => Err(Error::CompoundResponseMismatch(Mismatch::TooFewReplies)),
            Some(ResOp::BindConnToSession(res)) => {
                assert(old(res_array)@.skip(1) =~= old(res_array)@.subrange(
                    1,
                    old(res_array)@.len() as int,
                ));
                TempResult::from(res).0
            },
            Some(op) => Err(
                Error::CompoundResponseMismatch(
                    Mismatch::Unexpected {
                        expected: OperationId::BindConnToSession,
                        found: op.operation_id(),
                    },
                ),
            ),
        }
    }
}

impl CompoundRequest for ExchangeIdArgs {
    type Response = ExchangeIdRes;

    type Geometry = ();

    open spec fn arg_ops(self) -> Seq<ArgOp> {
        seq![ArgOp::ExchangeId(self)]
    }

    open spec fn is_geometry(self, g: ()) -> bool {
        true
    }

    open spec fn expected(g: ()) -> Seq<OperationId> {
        seq![OperationId::ExchangeId]
    }

    open spec fn failure(g: (), res: Seq<ResOp>) -> Option<Error> {
        one_failure(OperationId::ExchangeId, res)
    }

    open spec fn yields(g: (), res: Seq<ResOp>, v: ExchangeIdRes) -> bool {
        res.len() > 0 && res[0] == ResOp::ExchangeId(StatusResult::Success(v))
    }

    proof fn lemma_expected(self, g: ()) {
    }

    proof fn lemma_failure(g: (), res: Seq<ResOp>) {
        lemma_first_failure_of_one(OperationId::ExchangeId, res);
    }

    fn into_arg_array(self) -> (r: (Vec<ArgOp>, ())) {
        let mut ops: Vec<ArgOp> = Vec::new();
        ops.push(ArgOp::ExchangeId(self));
        (ops, ())
    }

    fn process_reply(
        res_array: &mut VecDeque<ResOp>,
        geometry: &(),
    ) -> (r: Result<ExchangeIdRes, Error>) {
        match res_array.pop_front() {
            None => Err(Error::CompoundResponseMismatch(Mismatch::TooFewReplies)),
            Some(ResOp::ExchangeId(res)) => {
                assert(old(res_array)@.skip(1) =~= old(res_array)@.subrange(
                    1,
                    old(res_array)@.len() as int,
                ));
                TempResult::from(res).0
            },
            Some(op) => Err(
                Error::CompoundResponseMismatch(
                    Mismatch::Unexpected {
                        expected: OperationId::ExchangeId,
                        found: op.operation_id(),
                    },
                ),
            ),
        }
    }
}

impl CompoundRequest for CreateSessionArgs {
    type Response = CreateSessionRes;

    type Geometry = ();

    open spec fn arg_ops(self) -> Seq<ArgOp> {
        seq![ArgOp::CreateSession(self)]
    }

    open spec fn is_geometry(self, g: ()) -> bool {
        true
    }

    open spec fn expected(g: ()) -> Seq<OperationId> {
        seq![OperationId::CreateSession]
    }

    open spec fn failure(g: (), res: Seq<ResOp>) -> Option<Error> {
        one_failure(OperationId::CreateSession, res)
    }

    open spec fn yields(g: (), res: Seq<ResOp>, v: CreateSessionRes) -> bool {
        res.len() > 0 && res[0] == ResOp::CreateSession(StatusResult::Success(v))
    }

    proof fn lemma_expected(self, g: ()) {
    }

    proof fn lemma_failure(g: (), res: Seq<ResOp>) {
        lemma_first_failure_of_one(OperationId::CreateSession, res);
    }

    fn into_arg_array(self) -> (r: (Vec<ArgOp>, ())) {
        let mut ops: Vec<ArgOp> = Vec::new();
        ops.push(ArgOp::CreateSession(self));
        (ops, ())
    }

    fn process_reply(
        res_array: &mut VecDeque<ResOp>,
        geometry: &(),
    ) -> (r: Result<CreateSessionRes, Error>) {
        match res_array.pop_front() {
            None => Err(Error::CompoundResponseMismatch(Mismatch::TooFewReplies)),
            Some(ResOp::CreateSession(res)) => {
                assert(old(res_array)@.skip(1) =~= old(res_array)@.subrange(
                    1,
                    old(res_array)@.len() as int,
                ));
                TempResult::from(res).0
            },
            Some(op) => Err(
                Error::CompoundResponseMismatch(
                    Mismatch::Unexpected {
                        expected: OperationId::CreateSession,
                        found: op.operation_id(),
                    },
                ),
            ),
        }
    }
}

impl CompoundRequest for GetDirDelegationArgs {
    type Response = GetDirDelegationRes;

    type Geometry = ();

    open spec fn arg_ops(self) -> Seq<ArgOp> {
        seq![ArgOp::GetDirDelegation(self)]
    }

    open spec fn is_geometry(self, g: ()) -> bool {
        true
    }

    open spec fn expected(g: ()) -> Seq<OperationId> {
        seq![OperationId::GetDirDelegation]
    }

    open spec fn failure(g: (), res: Seq<ResOp>) -> Option<Error> {
        one_failure(OperationId::GetDirDelegation, res)
    }

    open spec fn yields(g: (), res: Seq<ResOp>, v: GetDirDelegationRes) -> bool {
        res.len() > 0 && res[0] == ResOp::GetDirDelegation(StatusResult::Success(v))
    }

    proof fn lemma_expected(self, g: ()) {
    }

    proof fn lemma_failure(g: (), res: Seq<ResOp>) {
        lemma_first_failure_of_one(OperationId::GetDirDelegation, res);
    }

    fn into_arg_array(self) -> (r: (Vec<ArgOp>, ())) {
        let mut ops: Vec<ArgOp> = Vec::new();
        ops.push(ArgOp::GetDirDelegation(self));
        (ops, ())
    }

    fn process_reply(
        res_array: &mut VecDeque<ResOp>,
        geometry: &(),
    ) -> (r: Result<GetDirDelegationRes, Error>) {
        match res_array.pop_front() {
            None => Err(Error::CompoundResponseMismatch(Mismatch::TooFewReplies)),
            Some(ResOp::GetDirDelegation(res)) => {
                assert(old(res_array)@.skip(1) =~= old(res_array)@.subrange(
                    1,
                    old(res_array)@.len() as int,
                ));
                TempResult::from(res).0
            },
            Some(op) => Err(
                Error::CompoundResponseMismatch(
                    Mismatch::Unexpected {
                        expected: OperationId::GetDirDelegation,
                        found: op.operation_id(),
                    },
                ),
            ),
        }
    }
}

impl CompoundRequest for GetDeviceInfoArgs {
    type Response = GetDeviceInfoRes;

    type Geometry = ();

    open spec fn arg_ops(self) -> Seq<ArgOp> {
        seq![ArgOp::GetDeviceInfo(self)]
    }

    open spec fn is_geometry(self, g: ()) -> bool {
        true
    }

    open spec fn expected(g: ()) -> Seq<OperationId> {
        seq![OperationId::GetDeviceInfo]
    }

    open spec fn failure(g: (), res: Seq<ResOp>) -> Option<Error> {
        one_failure(OperationId::GetDeviceInfo, res)
    }

    open spec fn yields(g: (), res: Seq<ResOp>, v: GetDeviceInfoRes) -> bool {
        res.len() > 0 && res[0] == ResOp::GetDeviceInfo(StatusResult::Success(v))
    }

    proof fn lemma_expected(self, g: ()) {
    }

    proof fn lemma_failure(g: (), res: Seq<ResOp>) {
        lemma_first_failure_of_one(OperationId::GetDeviceInfo, res);
    }

    fn into_arg_array(self) -> (r: (Vec<ArgOp>, ())) {
        let mut ops: Vec<ArgOp> = Vec::new();
        ops.push(ArgOp::GetDeviceInfo(self));
        (ops, ())
    }

    fn process_reply(
        res_array: &mut VecDeque<ResOp>,
        geometry: &(),
    ) -> (r: Result<GetDeviceInfoRes, Error>) {
        match res_array.pop_front() {
            None => Err(Error::CompoundResponseMismatch(Mismatch::TooFewReplies)),
            Some(ResOp::GetDeviceInfo(res)) => {
                assert(old(res_array)@.skip(1) =~= old(res_array)@.subrange(
                    1,
                    old(res_array)@.len() as int,
                ));
                TempResult::from(res).0
            },
            Some(op) => Err(
                Error::CompoundResponseMismatch(
                    Mismatch::Unexpected {
                        expected: OperationId::GetDeviceInfo,
                        found: op.operation_id(),
                    },
                ),
            ),
        }
    }
}

impl CompoundRequest for GetDeviceListArgs {
    type Response = GetDeviceListRes;

    type Geometry = ();

    open spec fn arg_ops(self) -> Seq<ArgOp> {
        seq![ArgOp::GetDeviceList(self)]
    }

    open spec fn is_geometry(self, g: ()) -> bool {
        true
    }

    open spec fn expected(g: ()) -> Seq<OperationId> {
        seq![OperationId::GetDeviceList]
    }

    open spec fn failure(g: (), res: Seq<ResOp>) -> Option<Error> {
        one_failure(OperationId::GetDeviceList, res)
    }

    open spec fn yields(g: (), res: Seq<ResOp>, v: GetDeviceListRes) -> bool {
        res.len() > 0 && res[0] == ResOp::GetDeviceList(StatusResult::Success(v))
    }

    proof fn lemma_expected(self, g: ()) {
    }

    proof fn lemma_failure(g: (), res: Seq<ResOp>) {
        lemma_first_failure_of_one(OperationId::GetDeviceList, res);
    }

    fn into_arg_array(self) -> (r: (Vec<ArgOp>, ())) {
        let mut ops: Vec<ArgOp> = Vec::new();
        ops.push(ArgOp::GetDeviceList(self));
        (ops, ())
    }

    fn process_reply(
        res_array: &mut VecDeque<ResOp>,
        geometry: &(),
    ) -> (r: Result<GetDeviceListRes, Error>) {
        match res_array.pop_front() {
            None => Err(Error::CompoundResponseMismatch(Mismatch::TooFewReplies)),
            Some(ResOp::GetDeviceList(res)) => {
                assert(old(res_array)@.skip(1) =~= old(res_array)@.subrange(
                    1,
                    old(res_array)@.len() as int,
                ));
                TempResult::from(res).0
            },
            Some(op) => Err(
                Error::CompoundResponseMismatch(
                    Mismatch::Unexpected {
                        expected: OperationId::GetDeviceList,
                        found: op.operation_id(),
                    },
                ),
            ),
        }
    }
}

impl CompoundRequest for LayoutCommitArgs {
    type Response = LayoutCommitRes;

    type Geometry = ();

    open spec fn arg_ops(self) -> Seq<ArgOp> {
        seq![ArgOp::LayoutCommit(self)]
    }

    open spec fn is_geometry(self, g: ()) -> bool {
        true
    }

    open spec fn expected(g: ()) -> Seq<OperationId> {
        seq![OperationId::LayoutCommit]
    }

    open spec fn failure(g: (), res: Seq<ResOp>) -> Option<Error> {
        one_failure(OperationId::LayoutCommit, res)
    }

    open spec fn yields(g: (), res: Seq<ResOp>, v: LayoutCommitRes) -> bool {
        res.len() > 0 && res[0] == ResOp::LayoutCommit(StatusResult::Success(v))
    }

    proof fn lemma_expected(self, g: ()) {
    }

    proof fn lemma_failure(g: (), res: Seq<ResOp>) {
        lemma_first_failure_of_one(OperationId::LayoutCommit, res);
    }

    fn into_arg_array(self) -> (r: (Vec<ArgOp>, ())) {
        let mut ops: Vec<ArgOp> = Vec::new();
        ops.push(ArgOp::LayoutCommit(self));
        (ops, ())
    }

    fn process_reply(
        res_array: &mut VecDeque<ResOp>,
        geometry: &(),
    ) -> (r: Result<LayoutCommitRes, Error>) {
        match res_array.pop_front() {
            None => Err(Error::CompoundResponseMismatch(Mismatch::TooFewReplies)),
            Some(ResOp::LayoutCommit(res)) => {
                assert(old(res_array)@.skip(1) =~= old(res_array)@.subrange(
                    1,
                    old(res_array)@.len() as int,
                ));
                TempResult::from(res).0
            },
            Some(op) => Err(
                Error::CompoundResponseMismatch(
                    Mismatch::Unexpected {
                        expected: OperationId::LayoutCommit,
                        found: op.operation_id(),
                    },
                ),
            ),
        }
    }
}

impl CompoundRequest for LayoutGetArgs {
    type Response = LayoutGetRes;

    type Geometry = ();

    open spec fn arg_ops(self) -> Seq<ArgOp> {
        seq![ArgOp::LayoutGet(self)]
    }

    open spec fn is_geometry(self, g: ()) -> bool {
        true
    }

    open spec fn expected(g: ()) -> Seq<OperationId> {
        seq![OperationId::LayoutGet]
    }

    open spec fn failure(g: (), res: Seq<ResOp>) -> Option<Error> {
        one_failure(OperationId::LayoutGet, res)
    }

    open spec fn yields(g: (), res: Seq<ResOp>, v: LayoutGetRes) -> bool {
        res.len() > 0 && res[0] == ResOp::LayoutGet(StatusResult::Success(v))
    }

    proof fn lemma_expected(self, g: ()) {
    }

    proof fn lemma_failure(g: (), res: Seq<ResOp>) {
        lemma_first_failure_of_one(OperationId::LayoutGet, res);
    }

    fn into_arg_array(self) -> (r: (Vec<ArgOp>, ())) {
        let mut ops: Vec<ArgOp> = Vec::new();
        ops.push(ArgOp::LayoutGet(self));
        (ops, ())
    }

    fn process_reply(
        res_array: &mut VecDeque<ResOp>,
        geometry: &(),
    ) -> (r: Result<LayoutGetRes, Error>) {
        match res_array.pop_front() {
            None => Err(Error::CompoundResponseMismatch(Mismatch::TooFewReplies)),
            Some(ResOp::LayoutGet(res)) => {
                assert(old(res_array)@.skip(1) =~= old(res_array)@.subrange(
                    1,
                    old(res_array)@.len() as int,
                ));
                TempResult::from(res).0
            },
            Some(op) => Err(
                Error::CompoundResponseMismatch(
                    Mismatch::Unexpected {
                        expected: OperationId::LayoutGet,
                        found: op.operation_id(),
                    },
                ),
            ),
        }
    }
}

impl CompoundRequest for LayoutReturnArgs {
    type Response = LayoutReturnRes;

    type Geometry = ();

    open spec fn arg_ops(self) -> Seq<ArgOp> {
        seq![ArgOp::LayoutReturn(self)]
    }

    open spec fn is_geometry(self, g: ()) -> bool {
        true
    }

    open spec fn expected(g: ()) -> Seq<OperationId> {
        seq![OperationId::LayoutReturn]
    }

    open spec fn failure(g: (), res: Seq<ResOp>) -> Option<Error> {
        one_failure(OperationId::LayoutReturn, res)
    }

    open spec fn yields(g: (), res: Seq<ResOp>, v: LayoutReturnRes) -> bool {
        res.len() > 0 && res[0] == ResOp::LayoutReturn(StatusResult::Success(v))
    }

    proof fn lemma_expected(self, g: ()) {
    }

    proof fn lemma_failure(g: (), res: Seq<ResOp>) {
        lemma_first_failure_of_one(OperationId::LayoutReturn, res);
    }

    fn into_arg_array(self) -> (r: (Vec<ArgOp>, ())) {
        let mut ops: Vec<ArgOp> = Vec::new();
        ops.push(ArgOp::LayoutReturn(self));
        (ops, ())
    }

    fn process_reply(
        res_array: &mut VecDeque<ResOp>,
        geometry: &(),
    ) -> (r: Result<LayoutReturnRes, Error>) {
        match res_array.pop_front() {
            None => Err(Error::CompoundResponseMismatch(Mismatch::TooFewReplies)),
            Some(ResOp::LayoutReturn(res)) => {
                assert(old(res_array)@.skip(1) =~= old(res_array)@.subrange(
                    1,
                    old(res_array)@.len() as int,
                ));
                TempResult::from(res).0
            },
            Some(op) => Err(
                Error::CompoundResponseMismatch(
                    Mismatch::Unexpected {
                        expected: OperationId::LayoutReturn,
                        found: op.operation_id(),
                    },
                ),
            ),
        }
    }
}

impl CompoundRequest for SecInfoNoNameArgs {
    type Response = SecInfoRes;

    type Geometry = ();

    open spec fn arg_ops(self) -> Seq<ArgOp> {
        seq![ArgOp::SecInfoNoName(self)]
    }

    open spec fn is_geometry(self, g: ()) -> bool {
        true
    }

    open spec fn expected(g: ()) -> Seq<OperationId> {
        seq![OperationId::SecInfoNoName]
    }

    open spec fn failure(g: (), res: Seq<ResOp>) -> Option<Error> {
        one_failure(OperationId::SecInfoNoName, res)
    }

    open spec fn yields(g: (), res: Seq<ResOp>, v: SecInfoRes) -> bool {
        res.len() > 0 && res[0] == ResOp::SecInfoNoName(StatusResult::Success(v))
    }

    proof fn lemma_expected(self, g: ()) {
    }

    proof fn lemma_failure(g: (), res: Seq<ResOp>) {
        lemma_first_failure_of_one(OperationId::SecInfoNoName, res);
    }

    fn into_arg_array(self) -> (r: (Vec<ArgOp>, ())) {
        let mut ops: Vec<ArgOp> = Vec::new();
        ops.push(ArgOp::SecInfoNoName(self));
        (ops, ())
    }

    fn process_reply(
        res_array: &mut VecDeque<ResOp>,
        geometry: &(),
    ) -> (r: Result<SecInfoRes, Error>) {
        match res_array.pop_front() {
            None => Err(Error::CompoundResponseMismatch(Mismatch::TooFewReplies)),
            Some(ResOp::SecInfoNoName(res)) => {
                assert(old(res_array)@.skip(1) =~= old(res_array)@.subrange(
                    1,
                    old(res_array)@.len() as int,
                ));
                TempResult::from(res).0
            },
            Some(op) => Err(
                Error::CompoundResponseMismatch(
                    Mismatch::Unexpected {
                        expected: OperationId::SecInfoNoName,
                        found: op.operation_id(),
                    },
                ),
            ),
        }
    }
}

impl CompoundRequest for SequenceArgs {
    type Response = SequenceRes;

    type Geometry = ();

    open spec fn arg_ops(self) -> Seq<ArgOp> {
        seq![ArgOp::Sequence(self)]
    }

    open spec fn is_geometry(self, g: ()) -> bool {
        true
    }

    open spec fn expected(g: ()) -> Seq<OperationId> {
        seq![OperationId::Sequence]
    }

    open spec fn failure(g: (), res: Seq<ResOp>) -> Option<Error> {
        one_failure(OperationId::Sequence, res)
    }

    open spec fn yields(g: (), res: Seq<ResOp>, v: SequenceRes) -> bool {
        res.len() > 0 && res[0] == ResOp::Sequence(StatusResult::Success(v))
    }

    proof fn lemma_expected(self, g: ()) {
    }

    proof fn lemma_failure(g: (), res: Seq<ResOp>) {
        lemma_first_failure_of_one(OperationId::Sequence, res);
    }

    fn into_arg_array(self) -> (r: (Vec<ArgOp>, ())) {
        let mut ops: Vec<ArgOp> = Vec::new();
        ops.push(ArgOp::Sequence(self));
        (ops, ())
    }

    fn process_reply(
        res_array: &mut VecDeque<ResOp>,
        geometry: &(),
    ) -> (r: Result<SequenceRes, Error>) {
        match res_array.pop_front() {
            None => Err(Error::CompoundResponseMismatch(Mismatch::TooFewReplies)),
            Some(ResOp::Sequence(res)) => {
                assert(old(res_array)@.skip(1) =~= old(res_array)@.subrange(
                    1,
                    old(res_array)@.len() as int,
                ));
                TempResult::from(res).0
            },
            Some(op) => Err(
                Error::CompoundResponseMismatch(
                    Mismatch::Unexpected {
                        expected: OperationId::Sequence,
                        found: op.operation_id(),
                    },
                ),
            ),
        }
    }
}

impl CompoundRequest for SetSsvArgs {
    type Response = SetSsvRes;

    type Geometry = ();

    open spec fn arg_ops(self) -> Seq<ArgOp> {
        seq![ArgOp::SetSsv(self)]
    }

    open spec fn is_geometry(self, g: ()) -> bool {
        true
    }

    open spec fn expected(g: ()) -> Seq<OperationId> {
        seq![OperationId::SetSsv]
    }

    open spec fn failure(g: (), res: Seq<ResOp>) -> Option<Error> {
        one_failure(OperationId::SetSsv, res)
    }

    open spec fn yields(g: (), res: Seq<ResOp>, v: SetSsvRes) -> bool {
        res.len() > 0 && res[0] == ResOp::SetSsv(StatusResult::Success(v))
    }

    proof fn lemma_expected(self, g: ()) {
    }

    proof fn lemma_failure(g: (), res: Seq<ResOp>) {
        lemma_first_failure_of_one(OperationId::SetSsv, res);
    }

    fn into_arg_array(self) -> (r: (Vec<ArgOp>, ())) {
        let mut ops: Vec<ArgOp> = Vec::new();
        ops.push(ArgOp::SetSsv(self));
        (ops, ())
    }

    fn process_reply(
        res_array: &mut VecDeque<ResOp>,
        geometry: &(),
    ) -> (r: Result<SetSsvRes, Error>) {
        match res_array.pop_front() {
            None => Err(Error::CompoundResponseMismatch(Mismatch::TooFewReplies)),
            Some(ResOp::SetSsv(res)) => {
                assert(old(res_array)@.skip(1) =~= old(res_array)@.subrange(
                    1,
                    old(res_array)@.len() as int,
                ));
                TempResult::from(res).0
            },
            Some(op) => Err(
                Error::CompoundResponseMismatch(
                    Mismatch::Unexpected {
                        expected: OperationId::SetSsv,
                        found: op.operation_id(),
                    },
                ),
            ),
        }
    }
}

impl CompoundRequest for TestStateIdArgs {
    type Response = TestStateIdRes;

    type Geometry = ();

    open spec fn arg_ops(self) -> Seq<ArgOp> {
        seq![ArgOp::TestStateId(self)]
    }

    open spec fn is_geometry(self, g: ()) -> bool {
        true
    }

    open spec fn expected(g: ()) -> Seq<OperationId> {
        seq![OperationId::TestStateId]
    }

    open spec fn failure(g: (), res: Seq<ResOp>) -> Option<Error> {
        one_failure(OperationId::TestStateId, res)
    }

    open spec fn yields(g: (), res: Seq<ResOp>, v: TestStateIdRes) -> bool {
        res.len() > 0 && res[0] == ResOp::TestStateId(StatusResult::Success(v))
    }

    proof fn lemma_expected(self, g: ()) {
    }

    proof fn lemma_failure(g: (), res: Seq<ResOp>) {
        lemma_first_failure_of_one(OperationId::TestStateId, res);
    }

    fn into_arg_array(self) -> (r: (Vec<ArgOp>, ())) {
        let mut ops: Vec<ArgOp> = Vec::new();
        ops.push(ArgOp::TestStateId(self));
        (ops, ())
    }

    fn process_reply(
        res_array: &mut VecDeque<ResOp>,
        geometry: &(),
    ) -> (r: Result<TestStateIdRes, Error>) {
        match res_array.pop_front() {
            None => Err(Error::CompoundResponseMismatch(Mismatch::TooFewReplies)),
            Some(ResOp::TestStateId(res)) => {
                assert(old(res_array)@.skip(1) =~= old(res_array)@.subrange(
                    1,
                    old(res_array)@.len() as int,
                ));
                TempResult::from(res).0
            },
            Some(op) => Err(
                Error::CompoundResponseMismatch(
                    Mismatch::Unexpected {
                        expected: OperationId::TestStateId,
                        found: op.operation_id(),
                    },
                ),
            ),
        }
    }
}

impl CompoundRequest for WantDelegationArgs {
    type Response = WantDelegationRes;

    type Geometry = ();

    open spec fn arg_ops(self) -> Seq<ArgOp> {
        seq![ArgOp::WantDelegation(self)]
    }

    open spec fn is_geometry(self, g: ()) -> bool {
        true
    }

    open spec fn expected(g: ()) -> Seq<OperationId> {
        seq![OperationId::WantDelegation]
    }

    open spec fn failure(g: (), res: Seq<ResOp>) -> Option<Error> {
        one_failure(OperationId::WantDelegation, res)
    }

    open spec fn yields(g: (), res: Seq<ResOp>, v: WantDelegationRes) -> bool {
        res.len() > 0 && res[0] == ResOp::WantDelegation(StatusResult::Success(v))
    }

    proof fn lemma_expected(self, g: ()) {
    }

    proof fn lemma_failure(g: (), res: Seq<ResOp>) {
        lemma_first_failure_of_one(OperationId::WantDelegation, res);
    }

    fn into_arg_array(self) -> (r: (Vec<ArgOp>, ())) {
        let mut ops: Vec<ArgOp> = Vec::new();
        ops.push(ArgOp::WantDelegation(self));
        (ops, ())
    }

    fn process_reply(
        res_array: &mut VecDeque<ResOp>,
        geometry: &(),
    ) -> (r: Result<WantDelegationRes, Error>) {
        match res_array.pop_front() {
            None => Err(Error::CompoundResponseMismatch(Mismatch::TooFewReplies)),
            Some(ResOp::WantDelegation(res)) => {
                assert(old(res_array)@.skip(1) =~= old(res_array)@.subrange(
                    1,
                    old(res_array)@.len() as int,
                ));
                TempResult::from(res).0
            },
            Some(op) => Err(
                Error::CompoundResponseMismatch(
                    Mismatch::Unexpected {
                        expected: OperationId::WantDelegation,
                        found: op.operation_id(),
                    },
                ),
            ),
        }
    }
}

impl CompoundRequest for DelegPurgeArgs {
    type Response = ();

    type Geometry = ();

    open spec fn arg_ops(self) -> Seq<ArgOp> {
        seq![ArgOp::DelegPurge(self)]
    }

    open spec fn is_geometry(self, g: ()) -> bool {
        true
    }

    open spec fn expected(g: ()) -> Seq<OperationId> {
        seq![OperationId::DelegPurge]
    }

    open spec fn failure(g: (), res: Seq<ResOp>) -> Option<Error> {
        one_failure(OperationId::DelegPurge, res)
    }

    open spec fn yields(g: (), res: Seq<ResOp>, v: ()) -> bool {
        res.len() > 0 && res[0] == ResOp::DelegPurge(StatusResult::Success(v))
    }

    proof fn lemma_expected(self, g: ()) {
    }

    proof fn lemma_failure(g: (), res: Seq<ResOp>) {
        lemma_first_failure_of_one(OperationId::DelegPurge, res);
    }

    fn into_arg_array(self) -> (r: (Vec<ArgOp>, ())) {
        let mut ops: Vec<ArgOp> = Vec::new();
        ops.push(ArgOp::DelegPurge(self));
        (ops, ())
    }

    fn process_reply(res_array: &mut VecDeque<ResOp>, geometry: &()) -> (r: Result<(), Error>) {
        match res_array.pop_front() {
            None => Err(Error::CompoundResponseMismatch(Mismatch::TooFewReplies)),
            Some(ResOp::DelegPurge(res)) => {
                assert(old(res_array)@.skip(1) =~= old(res_array)@.subrange(
                    1,
                    old(res_array)@.len() as int,
                ));
                TempResult::from(res).0
            },
            Some(op) => Err(
                Error::CompoundResponseMismatch(
                    Mismatch::Unexpected {
                        expected: OperationId::DelegPurge,
                        found: op.operation_id(),
                    },
                ),
            ),
        }
    }
}

impl CompoundRequest for DelegReturnArgs {
    type Response = ();

    type Geometry = ();

    open spec fn arg_ops(self) -> Seq<ArgOp> {
        seq![ArgOp::DelegReturn(self)]
    }

    open spec fn is_geometry(self, g: ()) -> bool {
        true
    }

    open spec fn expected(g: ()) -> Seq<OperationId> {
        seq![OperationId::DelegReturn]
    }

    open spec fn failure(g: (), res: Seq<ResOp>) -> Option<Error> {
        one_failure(OperationId::DelegReturn, res)
    }

    open spec fn yields(g: (), res: Seq<ResOp>, v: ()) -> bool {
        res.len() > 0 && res[0] == ResOp::DelegReturn(StatusResult::Success(v))
    }

    proof fn lemma_expected(self, g: ()) {
    }

    proof fn lemma_failure(g: (), res: Seq<ResOp>) {
        lemma_first_failure_of_one(OperationId::DelegReturn, res);
    }

    fn into_arg_array(self) -> (r: (Vec<ArgOp>, ())) {
        let mut ops: Vec<ArgOp> = Vec::new();
        ops.push(ArgOp::DelegReturn(self));
        (ops, ())
    }

    fn process_reply(res_array: &mut VecDeque<ResOp>, geometry: &()) -> (r: Result<(), Error>) {
        match res_array.pop_front() {
            None => Err(Error::CompoundResponseMismatch(Mismatch::TooFewReplies)),
            Some(ResOp::DelegReturn(res)) => {
                assert(old(res_array)@.skip(1) =~= old(res_array)@.subrange(
                    1,
                    old(res_array)@.len() as int,
                ));
                TempResult::from(res).0
            },
            Some(op) => Err(
                Error::CompoundResponseMismatch(
                    Mismatch::Unexpected {
                        expected: OperationId::DelegReturn,
                        found: op.operation_id(),
                    },
                ),
            ),
        }
    }
}

impl CompoundRequest for LockTArgs {
    type Response = ();

    type Geometry = ();

    open spec fn arg_ops(self) -> Seq<ArgOp> {
        seq![ArgOp::LockT(self)]
    }

    open spec fn is_geometry(self, g: ()) -> bool {
        true
    }

    open spec fn expected(g: ()) -> Seq<OperationId> {
        seq![OperationId::LockT]
    }

    open spec fn failure(g: (), res: Seq<ResOp>) -> Option<Error> {
        one_failure(OperationId::LockT, res)
    }

    open spec fn yields(g: (), res: Seq<ResOp>, v: ()) -> bool {
        res.len() > 0 && res[0] == ResOp::LockT(StatusResult::Success(v))
    }

    proof fn lemma_expected(self, g: ()) {
    }

    proof fn lemma_failure(g: (), res: Seq<ResOp>) {
        lemma_first_failure_of_one(OperationId::LockT, res);
    }

    fn into_arg_array(self) -> (r: (Vec<ArgOp>, ())) {
        let mut ops: Vec<ArgOp> = Vec::new();
        ops.push(ArgOp::LockT(self));
        (ops, ())
    }

    fn process_reply(res_array: &mut VecDeque<ResOp>, geometry: &()) -> (r: Result<(), Error>) {
        match res_array.pop_front() {
            None => Err(Error::CompoundResponseMismatch(Mismatch::TooFewReplies)),
            Some(ResOp::LockT(res)) => {
                assert(old(res_array)@.skip(1) =~= old(res_array)@.subrange(
                    1,
                    old(res_array)@.len() as int,
                ));
                TempResult::from(res).0
            },
            Some(op) => Err(
                Error::CompoundResponseMismatch(
                    Mismatch::Unexpected { expected: OperationId::LockT, found: op.operation_id() },
                ),
            ),
        }
    }
}

impl CompoundRequest for LookUpArgs {
    type Response = ();

    type Geometry = ();

    open spec fn arg_ops(self) -> Seq<ArgOp> {
        seq![ArgOp::LookUp(self)]
    }

    open spec fn is_geometry(self, g: ()) -> bool {
        true
    }

    open spec fn expected(g: ()) -> Seq<OperationId> {
        seq![OperationId::LookUp]
    }

    open spec fn failure(g: (), res: Seq<ResOp>) -> Option<Error> {
        one_failure(OperationId::LookUp, res)
    }

    open spec fn yields(g: (), res: Seq<ResOp>, v: ()) -> bool {
        res.len() > 0 && res[0] == ResOp::LookUp(StatusResult::Success(v))
    }

    proof fn lemma_expected(self, g: ()) {
    }

    proof fn lemma_failure(g: (), res: Seq<ResOp>) {
        lemma_first_failure_of_one(OperationId::LookUp, res);
    }

    fn into_arg_array(self) -> (r: (Vec<ArgOp>, ())) {
        let mut ops: Vec<ArgOp> = Vec::new();
        ops.push(ArgOp::LookUp(self));
        (ops, ())
    }

    fn process_reply(res_array: &mut VecDeque<ResOp>, geometry: &()) -> (r: Result<(), Error>) {
        match res_array.pop_front() {
            None => Err(Error::CompoundResponseMismatch(Mismatch::TooFewReplies)),
            Some(ResOp::LookUp(res)) => {
                assert(old(res_array)@.skip(1) =~= old(res_array)@.subrange(
                    1,
                    old(res_array)@.len() as int,
                ));
                TempResult::from(res).0
            },
            Some(op) => Err(
                Error::CompoundResponseMismatch(
                    Mismatch::Unexpected {
                        expected: OperationId::LookUp,
                        found: op.operation_id(),
                    },
                ),
            ),
        }
    }
}

impl CompoundRequest for NVerifyArgs {
    type Response = ();

    type Geometry = ();

    open spec fn arg_ops(self) -> Seq<ArgOp> {
        seq![ArgOp::NVerify(self)]
    }

    open spec fn is_geometry(self, g: ()) -> bool {
        true
    }

    open spec fn expected(g: ()) -> Seq<OperationId> {
        seq![OperationId::NVerify]
    }

    open spec fn failure(g: (), res: Seq<ResOp>) -> Option<Error> {
        one_failure(OperationId::NVerify, res)
    }

    open spec fn yields(g: (), res: Seq<ResOp>, v: ()) -> bool {
        res.len() > 0 && res[0] == ResOp::NVerify(StatusResult::Success(v))
    }

    proof fn lemma_expected(self, g: ()) {
    }

    proof fn lemma_failure(g: (), res: Seq<ResOp>) {
        lemma_first_failure_of_one(OperationId::NVerify, res);
    }

    fn into_arg_array(self) -> (r: (Vec<ArgOp>, ())) {
        let mut ops: Vec<ArgOp> = Vec::new();
        ops.push(ArgOp::NVerify(self));
        (ops, ())
    }

    fn process_reply(res_array: &mut VecDeque<ResOp>, geometry: &()) -> (r: Result<(), Error>) {
        match res_array.pop_front() {
            None => Err(Error::CompoundResponseMismatch(Mismatch::TooFewReplies)),
            Some(ResOp::NVerify(res)) => {
                assert(old(res_array)@.skip(1) =~= old(res_array)@.subrange(
                    1,
                    old(res_array)@.len() as int,
                ));
                TempResult::from(res).0
            },
            Some(op) => Err(
                Error::CompoundResponseMismatch(
                    Mismatch::Unexpected {
                        expected: OperationId::NVerify,
                        found: op.operation_id(),
                    },
                ),
            ),
        }
    }
}

impl CompoundRequest for OpenAttrArgs {
    type Response = ();

    type Geometry = ();

    open spec fn arg_ops(self) -> Seq<ArgOp> {
        seq![ArgOp::OpenAttr(self)]
    }

    open spec fn is_geometry(self, g: ()) -> bool {
        true
    }

    open spec fn expected(g: ()) -> Seq<OperationId> {
        seq![OperationId::OpenAttr]
    }

    open spec fn failure(g: (), res: Seq<ResOp>) -> Option<Error> {
        one_failure(OperationId::OpenAttr, res)
    }

    open spec fn yields(g: (), res: Seq<ResOp>, v: ()) -> bool {
        res.len() > 0 && res[0] == ResOp::OpenAttr(StatusResult::Success(v))
    }

    proof fn lemma_expected(self, g: ()) {
    }

    proof fn lemma_failure(g: (), res: Seq<ResOp>) {
        lemma_first_failure_of_one(OperationId::OpenAttr, res);
    }

    fn into_arg_array(self) -> (r: (Vec<ArgOp>, ())) {
        let mut ops: Vec<ArgOp> = Vec::new();
        ops.push(ArgOp::OpenAttr(self));
        (ops, ())
    }

    fn process_reply(res_array: &mut VecDeque<ResOp>, geometry: &()) -> (r: Result<(), Error>) {
        match res_array.pop_front() {
            None => Err(Error::CompoundResponseMismatch(Mismatch::TooFewReplies)),
            Some(ResOp::OpenAttr(res)) => {
                assert(old(res_array)@.skip(1) =~= old(res_array)@.subrange(
                    1,
                    old(res_array)@.len() as int,
                ));
                TempResult::from(res).0
            },
            Some(op) => Err(
                Error::CompoundResponseMismatch(
                    Mismatch::Unexpected {
                        expected: OperationId::OpenAttr,
                        found: op.operation_id(),
                    },
                ),
            ),
        }
    }
}

impl CompoundRequest for PutFhArgs {
    type Response = ();

    type Geometry = ();

    open spec fn arg_ops(self) -> Seq<ArgOp> {
        seq![ArgOp::PutFh(self)]
    }

    open spec fn is_geometry(self, g: ()) -> bool {
        true
    }

    open spec fn expected(g: ()) -> Seq<OperationId> {
        seq![OperationId::PutFh]
    }

    open spec fn failure(g: (), res: Seq<ResOp>) -> Option<Error> {
        one_failure(OperationId::PutFh, res)
    }

    open spec fn yields(g: (), res: Seq<ResOp>, v: ()) -> bool {
        res.len() > 0 && res[0] == ResOp::PutFh(StatusResult::Success(v))
    }

    proof fn lemma_expected(self, g: ()) {
    }

    proof fn lemma_failure(g: (), res: Seq<ResOp>) {
        lemma_first_failure_of_one(OperationId::PutFh, res);
    }

    fn into_arg_array(self) -> (r: (Vec<ArgOp>, ())) {
        let mut ops: Vec<ArgOp> = Vec::new();
        ops.push(ArgOp::PutFh(self));
        (ops, ())
    }

    fn process_reply(res_array: &mut VecDeque<ResOp>, geometry: &()) -> (r: Result<(), Error>) {
        match res_array.pop_front() {
            None => Err(Error::CompoundResponseMismatch(Mismatch::TooFewReplies)),
            Some(ResOp::PutFh(res)) => {
                assert(old(res_array)@.skip(1) =~= old(res_array)@.subrange(
                    1,
                    old(res_array)@.len() as int,
                ));
                TempResult::from(res).0
            },
            Some(op) => Err(
                Error::CompoundResponseMismatch(
                    Mismatch::Unexpected { expected: OperationId::PutFh, found: op.operation_id() },
                ),
            ),
        }
    }
}

impl CompoundRequest for VerifyArgs {
    type Response = ();

    type Geometry = ();

    open spec fn arg_ops(self) -> Seq<ArgOp> {
        seq![ArgOp::Verify(self)]
    }

    open spec fn is_geometry(self, g: ()) -> bool {
        true
    }

    open spec fn expected(g: ()) -> Seq<OperationId> {
        seq![OperationId::Verify]
    }

    open spec fn failure(g: (), res: Seq<ResOp>) -> Option<Error> {
        one_failure(OperationId::Verify, res)
    }

    open spec fn yields(g: (), res: Seq<ResOp>, v: ()) -> bool {
        res.len() > 0 && res[0] == ResOp::Verify(StatusResult::Success(v))
    }

    proof fn lemma_expected(self, g: ()) {
    }

    proof fn lemma_failure(g: (), res: Seq<ResOp>) {
        lemma_first_failure_of_one(OperationId::Verify, res);
    }

    fn into_arg_array(self) -> (r: (Vec<ArgOp>, ())) {
        let mut ops: Vec<ArgOp> = Vec::new();
        ops.push(ArgOp::Verify(self));
        (ops, ())
    }

    fn process_reply(res_array: &mut VecDeque<ResOp>, geometry: &()) -> (r: Result<(), Error>) {
        match res_array.pop_front() {
            None => Err(Error::CompoundResponseMismatch(Mismatch::TooFewReplies)),
            Some(ResOp::Verify(res)) => {
                assert(old(res_array)@.skip(1) =~= old(res_array)@.subrange(
                    1,
                    old(res_array)@.len() as int,
                ));
                TempResult::from(res).0
            },
            Some(op) => Err(
                Error::CompoundResponseMismatch(
                    Mismatch::Unexpected {
                        expected: OperationId::Verify,
                        found: op.operation_id(),
                    },
                ),
            ),
        }
    }
}

impl CompoundRequest for BackchannelCtlArgs {
    type Response = ();

    type Geometry = ();

    open spec fn arg_ops(self) -> Seq<ArgOp> {
        seq![ArgOp::BackchannelCtl(self)]
    }

    open spec fn is_geometry(self, g: ()) -> bool {
        true
    }

    open spec fn expected(g: ()) -> Seq<OperationId> {
        seq![OperationId::BackchannelCtl]
    }

    open spec fn failure(g: (), res: Seq<ResOp>) -> Option<Error> {
        one_failure(OperationId::BackchannelCtl, res)
    }

    open spec fn yields(g: (), res: Seq<ResOp>, v: ()) -> bool {
        res.len() > 0 && res[0] == ResOp::BackchannelCtl(StatusResult::Success(v))
    }

    proof fn lemma_expected(self, g: ()) {
    }

    proof fn lemma_failure(g: (), res: Seq<ResOp>) {
        lemma_first_failure_of_one(OperationId::BackchannelCtl, res);
    }

    fn into_arg_array(self) -> (r: (Vec<ArgOp>, ())) {
        let mut ops: Vec<ArgOp> = Vec::new();
        ops.push(ArgOp::BackchannelCtl(self));
        (ops, ())
    }

    fn process_reply(res_array: &mut VecDeque<ResOp>, geometry: &()) -> (r: Result<(), Error>) {
        match res_array.pop_front() {
            None => Err(Error::CompoundResponseMismatch(Mismatch::TooFewReplies)),
            Some(ResOp::BackchannelCtl(res)) => {
                assert(old(res_array)@.skip(1) =~= old(res_array)@.subrange(
                    1,
                    old(res_array)@.len() as int,
                ));
                TempResult::from(res).0
            },
            Some(op) => Err(
                Error::CompoundResponseMismatch(
                    Mismatch::Unexpected {
                        expected: OperationId::BackchannelCtl,
                        found: op.operation_id(),
                    },
                ),
            ),
        }
    }
}

impl CompoundRequest for DestroySessionArgs {
    type Response = ();

    type Geometry = ();

    open spec fn arg_ops(self) -> Seq<ArgOp> {
        seq![ArgOp::DestroySession(self)]
    }

    open spec fn is_geometry(self, g: ()) -> bool {
        true
    }

    open spec fn expected(g: ()) -> Seq<OperationId> {
        seq![OperationId::DestroySession]
    }

    open spec fn failure(g: (), res: Seq<ResOp>) -> Option<Error> {
        one_failure(OperationId::DestroySession, res)
    }

    open spec fn yields(g: (), res: Seq<ResOp>, v: ()) -> bool {
        res.len() > 0 && res[0] == ResOp::DestroySession(StatusResult::Success(v))
    }

    proof fn lemma_expected(self, g: ()) {
    }

    proof fn lemma_failure(g: (), res: Seq<ResOp>) {
        lemma_first_failure_of_one(OperationId::DestroySession, res);
    }

    fn into_arg_array(self) -> (r: (Vec<ArgOp>, ())) {
        let mut ops: Vec<ArgOp> = Vec::new();
        ops.push(ArgOp::DestroySession(self));
        (ops, ())
    }

    fn process_reply(res_array: &mut VecDeque<ResOp>, geometry: &()) -> (r: Result<(), Error>) {
        match res_array.pop_front() {
            None => Err(Error::CompoundResponseMismatch(Mismatch::TooFewReplies)),
            Some(ResOp::DestroySession(res)) => {
                assert(old(res_array)@.skip(1) =~= old(res_array)@.subrange(
                    1,
                    old(res_array)@.len() as int,
                ));
                TempResult::from(res).0
            },
            Some(op) => Err(
                Error::CompoundResponseMismatch(
                    Mismatch::Unexpected {
                        expected: OperationId::DestroySession,
                        found: op.operation_id(),
                    },
                ),
            ),
        }
    }
}

impl CompoundRequest for FreeStateidArgs {
    type Response = ();

    type Geometry = ();

    open spec fn arg_ops(self) -> Seq<ArgOp> {
        seq![ArgOp::FreeStateid(self)]
    }

    open spec fn is_geometry(self, g: ()) -> bool {
        true
    }

    open spec fn expected(g: ()) -> Seq<OperationId> {
        seq![OperationId::FreeStateid]
    }

    open spec fn failure(g: (), res: Seq<ResOp>) -> Option<Error> {
        one_failure(OperationId::FreeStateid, res)
    }

    open spec fn yields(g: (), res: Seq<ResOp>, v: ()) -> bool {
        res.len() > 0 && res[0] == ResOp::FreeStateid(StatusResult::Success(v))
    }

    proof fn lemma_expected(self, g: ()) {
    }

    proof fn lemma_failure(g: (), res: Seq<ResOp>) {
        lemma_first_failure_of_one(OperationId::FreeStateid, res);
    }

    fn into_arg_array(self) -> (r: (Vec<ArgOp>, ())) {
        let mut ops: Vec<ArgOp> = Vec::new();
        ops.push(ArgOp::FreeStateid(self));
        (ops, ())
    }

    fn process_reply(res_array: &mut VecDeque<ResOp>, geometry: &()) -> (r: Result<(), Error>) {
        match res_array.pop_front() {
            None => Err(Error::CompoundResponseMismatch(Mismatch::TooFewReplies)),
            Some(ResOp::FreeStateid(res)) => {
                assert(old(res_array)@.skip(1) =~= old(res_array)@.subrange(
                    1,
                    old(res_array)@.len() as int,
                ));
                TempResult::from(res).0
            },
            Some(op) => Err(
                Error::CompoundResponseMismatch(
                    Mismatch::Unexpected {
                        expected: OperationId::FreeStateid,
                        found: op.operation_id(),
                    },
                ),
            ),
        }
    }
}

impl CompoundRequest for DestroyClientIdArgs {
    type Response = ();

    type Geometry = ();

    open spec fn arg_ops(self) -> Seq<ArgOp> {
        seq![ArgOp::DestroyClientId(self)]
    }

    open spec fn is_geometry(self, g: ()) -> bool {
        true
    }

    open spec fn expected(g: ()) -> Seq<OperationId> {
        seq![OperationId::DestroyClientId]
    }

    open spec fn failure(g: (), res: Seq<ResOp>) -> Option<Error> {
        one_failure(OperationId::DestroyClientId, res)
    }

    open spec fn yields(g: (), res: Seq<ResOp>, v: ()) -> bool {
        res.len() > 0 && res[0] == ResOp::DestroyClientId(StatusResult::Success(v))
    }

    proof fn lemma_expected(self, g: ()) {
    }

    proof fn lemma_failure(g: (), res: Seq<ResOp>) {
        lemma_first_failure_of_one(OperationId::DestroyClientId, res);
    }

    fn into_arg_array(self) -> (r: (Vec<ArgOp>, ())) {
        let mut ops: Vec<ArgOp> = Vec::new();
        ops.push(ArgOp::DestroyClientId(self));
        (ops, ())
    }

    fn process_reply(res_array: &mut VecDeque<ResOp>, geometry: &()) -> (r: Result<(), Error>) {
        match res_array.pop_front() {
            None => Err(Error::CompoundResponseMismatch(Mismatch::TooFewReplies)),
            Some(ResOp::DestroyClientId(res)) => {
                assert(old(res_array)@.skip(1) =~= old(res_array)@.subrange(
                    1,
                    old(res_array)@.len() as int,
                ));
                TempResult::from(res).0
            },
            Some(op) => Err(
                Error::CompoundResponseMismatch(
                    Mismatch::Unexpected {
                        expected: OperationId::DestroyClientId,
                        found: op.operation_id(),
                    },
                ),
            ),
        }
    }
}

impl CompoundRequest for ReclaimCompleteArgs {
    type Response = ();

    type Geometry = ();

    open spec fn arg_ops(self) -> Seq<ArgOp> {
        seq![ArgOp::ReclaimComplete(self)]
    }

    open spec fn is_geometry(self, g: ()) -> bool {
        true
    }

    open spec fn expected(g: ()) -> Seq<OperationId> {
        seq![OperationId::ReclaimComplete]
    }

    open spec fn failure(g: (), res: Seq<ResOp>) -> Option<Error> {
        one_failure(OperationId::ReclaimComplete, res)
    }

    open spec fn yields(g: (), res: Seq<ResOp>, v: ()) -> bool {
        res.len() > 0 && res[0] == ResOp::ReclaimComplete(StatusResult::Success(v))
    }

    proof fn lemma_expected(self, g: ()) {
    }

    proof fn lemma_failure(g: (), res: Seq<ResOp>) {
        lemma_first_failure_of_one(OperationId::ReclaimComplete, res);
    }

    fn into_arg_array(self) -> (r: (Vec<ArgOp>, ())) {
        let mut ops: Vec<ArgOp> = Vec::new();
        ops.push(ArgOp::ReclaimComplete(self));
        (ops, ())
    }

    fn process_reply(res_array: &mut VecDeque<ResOp>, geometry: &()) -> (r: Result<(), Error>) {
        match res_array.pop_front() {
            None => Err(Error::CompoundResponseMismatch(Mismatch::TooFewReplies)),
            Some(ResOp::ReclaimComplete(res)) => {
                assert(old(res_array)@.skip(1) =~= old(res_array)@.subrange(
                    1,
                    old(res_array)@.len() as int,
                ));
                TempResult::from(res).0
            },
            Some(op) => Err(
                Error::CompoundResponseMismatch(
                    Mismatch::Unexpected {
                        expected: OperationId::ReclaimComplete,
                        found: op.operation_id(),
                    },
                ),
            ),
        }
    }
}

/// The operation `GetFh`, which takes no arguments.
#[derive(Clone, Copy, Debug, PartialEq, Eq)]
pub struct GetFh;

impl CompoundRequest for GetFh {
    type Response = GetFhRes;

    type Geometry = ();

    open spec fn arg_ops(self) -> Seq<ArgOp> {
        seq![ArgOp::GetFh]
    }

    open spec fn is_geometry(self, g: ()) -> bool {
        true
    }

    open spec fn expected(g: ()) -> Seq<OperationId> {
        seq![OperationId::GetFh]
    }

    open spec fn failure(g: (), res: Seq<ResOp>) -> Option<Error> {
        one_failure(OperationId::GetFh, res)
    }

    open spec fn yields(g: (), res: Seq<ResOp>, v: GetFhRes) -> bool {
        res.len() > 0 && res[0] == ResOp::GetFh(StatusResult::Success(v))
    }

    proof fn lemma_expected(self, g: ()) {
    }

    proof fn lemma_failure(g: (), res: Seq<ResOp>) {
        lemma_first_failure_of_one(OperationId::GetFh, res);
    }

    fn into_arg_array(self) -> (r: (Vec<ArgOp>, ())) {
        let mut ops: Vec<ArgOp> = Vec::new();
        ops.push(ArgOp::GetFh);
        (ops, ())
    }

    fn process_reply(
        res_array: &mut VecDeque<ResOp>,
        geometry: &(),
    ) -> (r: Result<GetFhRes, Error>) {
        match res_array.pop_front() {
            None => Err(Error::CompoundResponseMismatch(Mismatch::TooFewReplies)),
            Some(ResOp::GetFh(res)) => {
                assert(old(res_array)@.skip(1) =~= old(res_array)@.subrange(
                    1,
                    old(res_array)@.len() as int,
                ));
                TempResult::from(res).0
            },
            Some(op) => Err(
                Error::CompoundResponseMismatch(
                    Mismatch::Unexpected { expected: OperationId::GetFh, found: op.operation_id() },
                ),
            ),
        }
    }
}

/// The operation `ReadLink`, which takes no arguments.
#[derive(Clone, Copy, Debug, PartialEq, Eq)]
pub struct ReadLink;

impl CompoundRequest for ReadLink {
    type Response = ReadLinkRes;

    type Geometry = ();

    open spec fn arg_ops(self) -> Seq<ArgOp> {
        seq![ArgOp::ReadLink]
    }

    open spec fn is_geometry(self, g: ()) -> bool {
        true
    }

    open spec fn expected(g: ()) -> Seq<OperationId> {
        seq![OperationId::ReadLink]
    }

    open spec fn failure(g: (), res: Seq<ResOp>) -> Option<Error> {
        one_failure(OperationId::ReadLink, res)
    }

    open spec fn yields(g: (), res: Seq<ResOp>, v: ReadLinkRes) -> bool {
        res.len() > 0 && res[0] == ResOp::ReadLink(StatusResult::Success(v))
    }

    proof fn lemma_expected(self, g: ()) {
    }

    proof fn lemma_failure(g: (), res: Seq<ResOp>) {
        lemma_first_failure_of_one(OperationId::ReadLink, res);
    }

    fn into_arg_array(self) -> (r: (Vec<ArgOp>, ())) {
        let mut ops: Vec<ArgOp> = Vec::new();
        ops.push(ArgOp::ReadLink);
        (ops, ())
    }

    fn process_reply(
        res_array: &mut VecDeque<ResOp>,
        geometry: &(),
    ) -> (r: Result<ReadLinkRes, Error>) {
        match res_array.pop_front() {
            None => Err(Error::CompoundResponseMismatch(Mismatch::TooFewReplies)),
            Some(ResOp::ReadLink(res)) => {
                assert(old(res_array)@.skip(1) =~= old(res_array)@.subrange(
                    1,
                    old(res_array)@.len() as int,
                ));
                TempResult::from(res).0
            },
            Some(op) => Err(
                Error::CompoundResponseMismatch(
                    Mismatch::Unexpected {
                        expected: OperationId::ReadLink,
                        found: op.operation_id(),
                    },
                ),
            ),
        }
    }
}

/// The operation `PutPubFh`, which takes no arguments.
#[derive(Clone, Copy, Debug, PartialEq, Eq)]
pub struct PutPubFh;

impl CompoundRequest for PutPubFh {
    type Response = ();

    type Geometry = ();

    open spec fn arg_ops(self) -> Seq<ArgOp> {
        seq![ArgOp::PutPubFh]
    }

    open spec fn is_geometry(self, g: ()) -> bool {
        true
    }

    open spec fn expected(g: ()) -> Seq<OperationId> {
        seq![OperationId::PutPubFh]
    }

    open spec fn failure(g: (), res: Seq<ResOp>) -> Option<Error> {
        one_failure(OperationId::PutPubFh, res)
    }

    open spec fn yields(g: (), res: Seq<ResOp>, v: ()) -> bool {
        res.len() > 0 && res[0] == ResOp::PutPubFh(StatusResult::Success(v))
    }

    proof fn lemma_expected(self, g: ()) {
    }

    proof fn lemma_failure(g: (), res: Seq<ResOp>) {
        lemma_first_failure_of_one(OperationId::PutPubFh, res);
    }

    fn into_arg_array(self) -> (r: (Vec<ArgOp>, ())) {
        let mut ops: Vec<ArgOp> = Vec::new();
        ops.push(ArgOp::PutPubFh);
        (ops, ())
    }

    fn process_reply(res_array: &mut VecDeque<ResOp>, geometry: &()) -> (r: Result<(), Error>) {
        match res_array.pop_front() {
            None => Err(Error::CompoundResponseMismatch(Mismatch::TooFewReplies)),
            Some(ResOp::PutPubFh(res)) => {
                assert(old(res_array)@.skip(1) =~= old(res_array)@.subrange(
                    1,
                    old(res_array)@.len() as int,
                ));
                TempResult::from(res).0
            },
            Some(op) => Err(
                Error::CompoundResponseMismatch(
                    Mismatch::Unexpected {
                        expected: OperationId::PutPubFh,
                        found: op.operation_id(),
                    },
                ),
            ),
        }
    }
}

/// The operation `LookUpP`, which takes no arguments.
#[derive(Clone, Copy, Debug, PartialEq, Eq)]
pub struct LookUpP;

impl CompoundRequest for LookUpP {
    type Response = ();

    type Geometry = ();

    open spec fn arg_ops(self) -> Seq<ArgOp> {
        seq![ArgOp::LookUpP]
    }

    open spec fn is_geometry(self, g: ()) -> bool {
        true
    }

    open spec fn expected(g: ()) -> Seq<OperationId> {
        seq![OperationId::LookUpP]
    }

    open spec fn failure(g: (), res: Seq<ResOp>) -> Option<Error> {
        one_failure(OperationId::LookUpP, res)
    }

    open spec fn yields(g: (), res: Seq<ResOp>, v: ()) -> bool {
        res.len() > 0 && res[0] == ResOp::LookUpP(StatusResult::Success(v))
    }

    proof fn lemma_expected(self, g: ()) {
    }

    proof fn lemma_failure(g: (), res: Seq<ResOp>) {
        lemma_first_failure_of_one(OperationId::LookUpP, res);
    }

    fn into_arg_array(self) -> (r: (Vec<ArgOp>, ())) {
        let mut ops: Vec<ArgOp> = Vec::new();
        ops.push(ArgOp::LookUpP);
        (ops, ())
    }

    fn process_reply(res_array: &mut VecDeque<ResOp>, geometry: &()) -> (r: Result<(), Error>) {
        match res_array.pop_front() {
            None => Err(Error::CompoundResponseMismatch(Mismatch::TooFewReplies)),
            Some(ResOp::LookUpP(res)) => {
                assert(old(res_array)@.skip(1) =~= old(res_array)@.subrange(
                    1,
                    old(res_array)@.len() as int,
                ));
                TempResult::from(res).0
            },
            Some(op) => Err(
                Error::CompoundResponseMismatch(
                    Mismatch::Unexpected {
                        expected: OperationId::LookUpP,
                        found: op.operation_id(),
                    },
                ),
            ),
        }
    }
}

/// The operation `PutRootFh`, which takes no arguments.
#[derive(Clone, Copy, Debug, PartialEq, Eq)]
pub struct PutRootFh;

impl CompoundRequest for PutRootFh {
    type Response = ();

    type Geometry = ();

    open spec fn arg_ops(self) -> Seq<ArgOp> {
        seq![ArgOp::PutRootFh]
    }

    open spec fn is_geometry(self, g: ()) -> bool {
        true
    }

    open spec fn expected(g: ()) -> Seq<OperationId> {
        seq![OperationId::PutRootFh]
    }

    open spec fn failure(g: (), res: Seq<ResOp>) -> Option<Error> {
        one_failure(OperationId::PutRootFh, res)
    }

    open spec fn yields(g: (), res: Seq<ResOp>, v: ()) -> bool {
        res.len() > 0 && res[0] == ResOp::PutRootFh(StatusResult::Success(v))
    }

    proof fn lemma_expected(self, g: ()) {
    }

    proof fn lemma_failure(g: (), res: Seq<ResOp>) {
        lemma_first_failure_of_one(OperationId::PutRootFh, res);
    }

    fn into_arg_array(self) -> (r: (Vec<ArgOp>, ())) {
        let mut ops: Vec<ArgOp> = Vec::new();
        ops.push(ArgOp::PutRootFh);
        (ops, ())
    }

    fn process_reply(res_array: &mut VecDeque<ResOp>, geometry: &()) -> (r: Result<(), Error>) {
        match res_array.pop_front() {
            None => Err(Error::CompoundResponseMismatch(Mismatch::TooFewReplies)),
            Some(ResOp::PutRootFh(res)) => {
                assert(old(res_array)@.skip(1) =~= old(res_array)@.subrange(
                    1,
                    old(res_array)@.len() as int,
                ));
                TempResult::from(res).0
            },
            Some(op) => Err(
                Error::CompoundResponseMismatch(
                    Mismatch::Unexpected {
                        expected: OperationId::PutRootFh,
                        found: op.operation_id(),
                    },
                ),
            ),
        }
    }
}

/// The operation `RestoreFh`, which takes no arguments.
#[derive(Clone, Copy, Debug, PartialEq, Eq)]
pub struct RestoreFh;

impl CompoundRequest for RestoreFh {
    type Response = ();

    type Geometry = ();

    open spec fn arg_ops(self) -> Seq<ArgOp> {
        seq![ArgOp::RestoreFh]
    }

    open spec fn is_geometry(self, g: ()) -> bool {
        true
    }

    open spec fn expected(g: ()) -> Seq<OperationId> {
        seq![OperationId::RestoreFh]
    }

    open spec fn failure(g: (), res: Seq<ResOp>) -> Option<Error> {
        one_failure(OperationId::RestoreFh, res)
    }

    open spec fn yields(g: (), res: Seq<ResOp>, v: ()) -> bool {
        res.len() > 0 && res[0] == ResOp::RestoreFh(StatusResult::Success(v))
    }

    proof fn lemma_expected(self, g: ()) {
    }

    proof fn lemma_failure(g: (), res: Seq<ResOp>) {
        lemma_first_failure_of_one(OperationId::RestoreFh, res);
    }

    fn into_arg_array(self) -> (r: (Vec<ArgOp>, ())) {
        let mut ops: Vec<ArgOp> = Vec::new();
        ops.push(ArgOp::RestoreFh);
        (ops, ())
    }

    fn process_reply(res_array: &mut VecDeque<ResOp>, geometry: &()) -> (r: Result<(), Error>) {
        match res_array.pop_front() {
            None => Err(Error::CompoundResponseMismatch(Mismatch::TooFewReplies)),
            Some(ResOp::RestoreFh(res)) => {
                assert(old(res_array)@.skip(1) =~= old(res_array)@.subrange(
                    1,
                    old(res_array)@.len() as int,
                ));
                TempResult::from(res).0
            },
            Some(op) => Err(
                Error::CompoundResponseMismatch(
                    Mismatch::Unexpected {
                        expected: OperationId::RestoreFh,
                        found: op.operation_id(),
                    },
                ),
            ),
        }
    }
}

/// The operation `SaveFh`, which takes no arguments.
#[derive(Clone, Copy, Debug, PartialEq, Eq)]
pub struct SaveFh;

impl CompoundRequest for SaveFh {
    type Response = ();

    type Geometry = ();

    open spec fn arg_ops(self) -> Seq<ArgOp> {
        seq![ArgOp::SaveFh]
    }

    open spec fn is_geometry(self, g: ()) -> bool {
        true
    }

    open spec fn expected(g: ()) -> Seq<OperationId> {
        seq![OperationId::SaveFh]
    }

    open spec fn failure(g: (), res: Seq<ResOp>) -> Option<Error> {
        one_failure(OperationId::SaveFh, res)
    }

    open spec fn yields(g: (), res: Seq<ResOp>, v: ()) -> bool {
        res.len() > 0 && res[0] == ResOp::SaveFh(StatusResult::Success(v))
    }

    proof fn lemma_expected(self, g: ()) {
    }

    proof fn lemma_failure(g: (), res: Seq<ResOp>) {
        lemma_first_failure_of_one(OperationId::SaveFh, res);
    }

    fn into_arg_array(self) -> (r: (Vec<ArgOp>, ())) {
        let mut ops: Vec<ArgOp> = Vec::new();
        ops.push(ArgOp::SaveFh);
        (ops, ())
    }

    fn process_reply(res_array: &mut VecDeque<ResOp>, geometry: &()) -> (r: Result<(), Error>) {
        match res_array.pop_front() {
            None => Err(Error::CompoundResponseMismatch(Mismatch::TooFewReplies)),
            Some(ResOp::SaveFh(res)) => {
                assert(old(res_array)@.skip(1) =~= old(res_array)@.subrange(
                    1,
                    old(res_array)@.len() as int,
                ));
                TempResult::from(res).0
            },
            Some(op) => Err(
                Error::CompoundResponseMismatch(
                    Mismatch::Unexpected {
                        expected: OperationId::SaveFh,
                        found: op.operation_id(),
                    },
                ),
            ),
        }
    }
}

} // verus!
