//! The COMPOUND engine: a request knows the operations it is made of and how
//! to take its result from the front of the results that come back; requests
//! are put together as tuples, vectors and prologues.

use crate::ops::{ArgOp, CompoundArgs, CompoundRes, OperationId, ResOp};
use crate::res::{SetAttrRes, SetAttrStatusResult};
use crate::status::{LockStatusError, LockStatusResult, StatusError, StatusResult};
use crate::xdr::{canonical_each, Xdr};
use std::collections::VecDeque;
use vstd::prelude::*;

verus! {

/// How the results of a COMPOUND fail to be the results of its request.
#[derive(Clone, Copy, Debug, PartialEq, Eq)]
pub enum Mismatch {
    /// The results end before the request does.
    TooFewReplies,
    /// A result of another operation than the request has at its place.
    Unexpected { expected: OperationId, found: OperationId },
    /// Results are left over after the last one of the request.
    TrailingReplies,
}

/// Why a request did not give a result.
#[derive(Debug)]
pub enum Error {
    /// The call failed below the COMPOUND.
    SunRpc(crate::rpc_client::Error),
    /// The server answered with a status other than success.
    Protocol(StatusError),
    /// The server denied a lock.
    Lock(LockStatusError),
    /// The results are not those of the request.
    CompoundResponseMismatch(Mismatch),
    /// Every sequence number of the session has been used.
    SequenceExhausted,
    /// The server makes no progress: it read or wrote nothing, or listed
    /// nothing, and yet says that more is to come.
    Stalled,
    /// The server answered what the request did not ask for: attributes that
    /// are missing, or more octets written than were sent.
    Unanswered,
}

/// A result as the caller of the library sees it.
pub struct TempResult<T>(pub Result<T, Error>);

impl<T> From<StatusResult<T>> for TempResult<T> {
    fn from(res: StatusResult<T>) -> (r: Self) {
        TempResult(
            match res {
                StatusResult::Success(v) => Ok(v),
                StatusResult::Failure(e) => Err(Error::Protocol(e)),
            },
        )
    }
}

impl<T> vstd::std_specs::convert::FromSpecImpl<StatusResult<T>> for TempResult<T> {
    open spec fn obeys_from_spec() -> bool {
        true
    }

    open spec fn from_spec(res: StatusResult<T>) -> Self {
        TempResult(
            match res {
                StatusResult::Success(v) => Ok(v),
                StatusResult::Failure(e) => Err(Error::Protocol(e)),
            },
        )
    }
}

impl From<SetAttrStatusResult> for TempResult<SetAttrRes> {
    fn from(res: SetAttrStatusResult) -> (r: Self) {
        TempResult(
            match res.status {
                StatusResult::Success(_) => Ok(res.res),
                StatusResult::Failure(e) => Err(Error::Protocol(e)),
            },
        )
    }
}

impl vstd::std_specs::convert::FromSpecImpl<SetAttrStatusResult> for TempResult<SetAttrRes> {
    open spec fn obeys_from_spec() -> bool {
        true
    }

    open spec fn from_spec(res: SetAttrStatusResult) -> Self {
        TempResult(
            match res.status {
                StatusResult::Success(_) => Ok(res.res),
                StatusResult::Failure(e) => Err(Error::Protocol(e)),
            },
        )
    }
}

impl<T> From<LockStatusResult<T>> for TempResult<T> {
    fn from(res: LockStatusResult<T>) -> (r: Self) {
        TempResult(
            match res {
                LockStatusResult::Success(v) => Ok(v),
                LockStatusResult::Failure(e) => Err(Error::Lock(e)),
            },
        )
    }
}

impl<T> vstd::std_specs::convert::FromSpecImpl<LockStatusResult<T>> for TempResult<T> {
    open spec fn obeys_from_spec() -> bool {
        true
    }

    open spec fn from_spec(res: LockStatusResult<T>) -> Self {
        TempResult(
            match res {
                LockStatusResult::Success(v) => Ok(v),
                LockStatusResult::Failure(e) => Err(Error::Lock(e)),
            },
        )
    }
}

/// The failure that the result of an operation reports, if it reports one.
pub open spec fn status_error(op: ResOp) -> Option<Error> {
    match op {
        ResOp::Access(StatusResult::Failure(e)) => Some(Error::Protocol(e)),
        ResOp::Close(StatusResult::Failure(e)) => Some(Error::Protocol(e)),
        ResOp::Commit(StatusResult::Failure(e)) => Some(Error::Protocol(e)),
        ResOp::Create(StatusResult::Failure(e)) => Some(Error::Protocol(e)),
        ResOp::DelegPurge(StatusResult::Failure(e)) => Some(Error::Protocol(e)),
        ResOp::DelegReturn(StatusResult::Failure(e)) => Some(Error::Protocol(e)),
        ResOp::GetAttr(StatusResult::Failure(e)) => Some(Error::Protocol(e)),
        ResOp::GetFh(StatusResult::Failure(e)) => Some(Error::Protocol(e)),
        ResOp::Link(LockStatusResult::Failure(e)) => Some(Error::Lock(e)),
        ResOp::Lock(LockStatusResult::Failure(e)) => Some(Error::Lock(e)),
        ResOp::LockT(StatusResult::Failure(e)) => Some(Error::Protocol(e)),
        ResOp::LockU(StatusResult::Failure(e)) => Some(Error::Protocol(e)),
        ResOp::LookUp(StatusResult::Failure(e)) => Some(Error::Protocol(e)),
        ResOp::LookUpP(StatusResult::Failure(e)) => Some(Error::Protocol(e)),
        ResOp::NVerify(StatusResult::Failure(e)) => Some(Error::Protocol(e)),
        ResOp::Open(StatusResult::Failure(e)) => Some(Error::Protocol(e)),
        ResOp::OpenAttr(StatusResult::Failure(e)) => Some(Error::Protocol(e)),
        ResOp::OpenDowngrade(StatusResult::Failure(e)) => Some(Error::Protocol(e)),
        ResOp::PutFh(StatusResult::Failure(e)) => Some(Error::Protocol(e)),
        ResOp::PutPubFh(StatusResult::Failure(e)) => Some(Error::Protocol(e)),
        ResOp::PutRootFh(StatusResult::Failure(e)) => Some(Error::Protocol(e)),
        ResOp::Read(StatusResult::Failure(e)) => Some(Error::Protocol(e)),
        ResOp::ReadDir(StatusResult::Failure(e)) => Some(Error::Protocol(e)),
        ResOp::ReadLink(StatusResult::Failure(e)) => Some(Error::Protocol(e)),
        ResOp::Remove(StatusResult::Failure(e)) => Some(Error::Protocol(e)),
        ResOp::Rename(StatusResult::Failure(e)) => Some(Error::Protocol(e)),
        ResOp::RestoreFh(StatusResult::Failure(e)) => Some(Error::Protocol(e)),
        ResOp::SaveFh(StatusResult::Failure(e)) => Some(Error::Protocol(e)),
        ResOp::SecInfo(StatusResult::Failure(e)) => Some(Error::Protocol(e)),
        ResOp::SetAttr(SetAttrStatusResult { status: StatusResult::Failure(e), .. }) => Some(
            Error::Protocol(e),
        ),
        ResOp::Verify(StatusResult::Failure(e)) => Some(Error::Protocol(e)),
        ResOp::Write(StatusResult::Failure(e)) => Some(Error::Protocol(e)),
        ResOp::BackchannelCtl(StatusResult::Failure(e)) => Some(Error::Protocol(e)),
        ResOp::BindConnToSession(StatusResult::Failure(e)) => Some(Error::Protocol(e)),
        ResOp::ExchangeId(StatusResult::Failure(e)) => Some(Error::Protocol(e)),
        ResOp::CreateSession(StatusResult::Failure(e)) => Some(Error::Protocol(e)),
        ResOp::DestroySession(StatusResult::Failure(e)) => Some(Error::Protocol(e)),
        ResOp::FreeStateid(StatusResult::Failure(e)) => Some(Error::Protocol(e)),
        ResOp::GetDirDelegation(StatusResult::Failure(e)) => Some(Error::Protocol(e)),
        ResOp::GetDeviceInfo(StatusResult::Failure(e)) => Some(Error::Protocol(e)),
        ResOp::GetDeviceList(StatusResult::Failure(e)) => Some(Error::Protocol(e)),
        ResOp::LayoutCommit(StatusResult::Failure(e)) => Some(Error::Protocol(e)),
        ResOp::LayoutGet(StatusResult::Failure(e)) => Some(Error::Protocol(e)),
        ResOp::LayoutReturn(StatusResult::Failure(e)) => Some(Error::Protocol(e)),
        ResOp::SecInfoNoName(StatusResult::Failure(e)) => Some(Error::Protocol(e)),
        ResOp::Sequence(StatusResult::Failure(e)) => Some(Error::Protocol(e)),
        ResOp::SetSsv(StatusResult::Failure(e)) => Some(Error::Protocol(e)),
        ResOp::TestStateId(StatusResult::Failure(e)) => Some(Error::Protocol(e)),
        ResOp::WantDelegation(StatusResult::Failure(e)) => Some(Error::Protocol(e)),
        ResOp::DestroyClientId(StatusResult::Failure(e)) => Some(Error::Protocol(e)),
        ResOp::ReclaimComplete(StatusResult::Failure(e)) => Some(Error::Protocol(e)),
        _ => None,
    }
}


/// The operations that a sequence of calls is made of.
pub open spec fn kinds(ops: Seq<ArgOp>) -> Seq<OperationId> {
    Seq::new(ops.len(), |i: int| ops[i].kind())
}

/// Whether `op` is the result of the operation `kind` and reports success.
pub open spec fn is_success_of(op: ResOp, kind: OperationId) -> bool {
    op.kind() == kind && status_error(op) is None
}

/// Why the first of the results `res` is not a successful result of the
/// operation `kind`, if it is not: it is missing, belongs to another
/// operation, or reports a failure.
pub open spec fn one_failure(kind: OperationId, res: Seq<ResOp>) -> Option<Error> {
    if res.len() == 0 {
        Some(Error::CompoundResponseMismatch(Mismatch::TooFewReplies))
    } else if res[0].kind() != kind {
        Some(
            Error::CompoundResponseMismatch(
                Mismatch::Unexpected { expected: kind, found: res[0].kind() },
            ),
        )
    } else {
        status_error(res[0])
    }
}

/// Why the results `res` are not successful results of the operations
/// `expected`, one for one, if they are not: the reason at the first place at
/// which they are not.
pub open spec fn first_failure(expected: Seq<OperationId>, res: Seq<ResOp>) -> Option<Error>
    decreases expected.len(),
{
    if expected.len() == 0 {
        None
    } else {
        match one_failure(expected[0], res) {
            Some(e) => Some(e),
            None => first_failure(expected.drop_first(), res.drop_first()),
        }
    }
}

pub proof fn lemma_first_failure_of_one(kind: OperationId, res: Seq<ResOp>)
    ensures
        first_failure(seq![kind], res) == one_failure(kind, res),
{
    let expected = seq![kind];
    assert(expected.drop_first().len() == 0);
    assert(first_failure(expected.drop_first(), res.drop_first()) is None);
}

/// Results without a failure are as many as the operations, each the
/// successful result of the operation at its place; and the other way round.
pub proof fn lemma_first_failure_none(expected: Seq<OperationId>, res: Seq<ResOp>)
    ensures
        first_failure(expected, res) is None <==> res.len() >= expected.len() && forall|i: int|
            0 <= i < expected.len() ==> is_success_of(#[trigger] res[i], expected[i]),
    decreases expected.len(),
{
    if expected.len() > 0 {
        lemma_first_failure_none(expected.drop_first(), res.drop_first());
        if one_failure(expected[0], res) is None {
            let tail = res.drop_first();
            if first_failure(expected, res) is None {
                assert forall|i: int| 0 <= i < expected.len() implies is_success_of(
                    #[trigger] res[i],
                    expected[i],
                ) by {
                    if i > 0 {
                        assert(res[i] == tail[i - 1]);
                        assert(expected[i] == expected.drop_first()[i - 1]);
                    }
                }
            }
            if res.len() >= expected.len() && forall|i: int|
                0 <= i < expected.len() ==> is_success_of(#[trigger] res[i], expected[i]) {
                assert forall|i: int| 0 <= i < expected.len() - 1 implies is_success_of(
                    #[trigger] tail[i],
                    expected.drop_first()[i],
                ) by {
                    assert(tail[i] == res[i + 1]);
                    assert(is_success_of(res[i + 1], expected[i + 1]));
                }
            }
        } else {
            if res.len() > 0 {
                assert(!is_success_of(res[0], expected[0]));
            }
        }
    }
}

/// A result that is missing, or belongs to another operation than the one
/// at its place, after results that are all successful, is a mismatch.
pub proof fn lemma_first_failure_mismatch(expected: Seq<OperationId>, res: Seq<ResOp>, p: int)
    requires
        0 <= p < expected.len(),
        forall|i: int| 0 <= i < p && i < res.len() ==> is_success_of(
            #[trigger] res[i],
            expected[i],
        ),
        p >= res.len() || res[p].kind() != expected[p],
    ensures
        first_failure(expected, res) matches Some(Error::CompoundResponseMismatch(_)),
    decreases expected.len(),
{
    if res.len() > 0 && p > 0 {
        assert(is_success_of(res[0], expected[0]));
        let tail = res.drop_first();
        let rest = expected.drop_first();
        assert forall|i: int| 0 <= i < p - 1 && i < tail.len() implies is_success_of(
            #[trigger] tail[i],
            rest[i],
        ) by {
            assert(tail[i] == res[i + 1]);
            assert(is_success_of(res[i + 1], expected[i + 1]));
        }
        if p - 1 < tail.len() {
            assert(tail[p - 1] == res[p]);
        }
        lemma_first_failure_mismatch(rest, tail, p - 1);
    }
}

/// The failure of two runs of operations, one after the other, is that of
/// the first run or, if it has none, that of the second on what the first
/// leaves.
pub proof fn lemma_first_failure_concat(a: Seq<OperationId>, b: Seq<OperationId>, res: Seq<ResOp>)
    ensures
        first_failure(a + b, res) == match first_failure(a, res) {
            Some(e) => Some(e),
            None => first_failure(b, res.skip(a.len() as int)),
        },
    decreases a.len(),
{
    if a.len() == 0 {
        assert(a + b =~= b);
        assert(res.skip(0) =~= res);
    } else {
        assert((a + b)[0] == a[0]);
        assert((a + b).drop_first() =~= a.drop_first() + b);
        lemma_first_failure_concat(a.drop_first(), b, res.drop_first());
        if one_failure(a[0], res) is None {
            lemma_first_failure_none(a.drop_first(), res.drop_first());
            if first_failure(a.drop_first(), res.drop_first()) is None {
                assert(res.drop_first().skip(a.len() - 1) =~= res.skip(a.len() as int));
            }
        }
    }
}

/// A request: operations to send, and a result to take from what comes back.
pub trait CompoundRequest: Sized {
    /// What the request gives back.
    type Response;

    /// What has to be remembered of the request to take its result.
    type Geometry;

    /// The calls that the request is made of, in order.
    spec fn arg_ops(self) -> Seq<ArgOp>;

    /// Whether `g` is what is remembered of this request.
    spec fn is_geometry(self, g: Self::Geometry) -> bool;

    /// The operations whose results the request takes, in order.
    spec fn expected(g: Self::Geometry) -> Seq<OperationId>;

    /// Why the results `res` do not give the request its result, if they do
    /// not.
    spec fn failure(g: Self::Geometry, res: Seq<ResOp>) -> Option<Error>;

    /// Whether `v` is what the results `res`, taken from the front, give the
    /// request.
    spec fn yields(g: Self::Geometry, res: Seq<ResOp>, v: Self::Response) -> bool;

    /// A request takes the results of the operations that it sent.
    proof fn lemma_expected(self, g: Self::Geometry)
        requires
            self.is_geometry(g),
        ensures
            kinds(self.arg_ops()) == Self::expected(g),
    ;

    /// However a request is put together, it fails where the first result is
    /// missing, of another operation, or a failure, and with that reason.
    proof fn lemma_failure(g: Self::Geometry, res: Seq<ResOp>)
        ensures
            Self::failure(g, res) == first_failure(Self::expected(g), res),
    ;

    /// The calls that the request is made of, and what to remember of it.
    fn into_arg_array(self) -> (r: (Vec<ArgOp>, Self::Geometry))
        ensures
            r.0@ == self.arg_ops(),
            self.is_geometry(r.1),
    ;

    /// Takes the result of the request from the front of `res_array`.
    fn process_reply(res_array: &mut VecDeque<ResOp>, geometry: &Self::Geometry) -> (r: Result<
        Self::Response,
        Error,
    >)
        ensures
            match r {
                Ok(v) => {
                    &&& Self::failure(*geometry, old(res_array)@) is None
                    &&& Self::yields(*geometry, old(res_array)@, v)
                    &&& final(res_array)@ == old(res_array)@.skip(
                        Self::expected(*geometry).len() as int,
                    )
                },
                Err(e) => Self::failure(*geometry, old(res_array)@) == Some(e),
            },
    ;
}

/// However a request is put together, it succeeds on exactly those results
/// that are, one for one, successful results of the operations it sent.
pub proof fn lemma_reply_success<R: CompoundRequest>(request: R, g: R::Geometry, res: Seq<ResOp>)
    requires
        request.is_geometry(g),
    ensures
        R::failure(g, res) is None <==> res.len() >= request.arg_ops().len() && forall|i: int|
            0 <= i < request.arg_ops().len() ==> is_success_of(
                #[trigger] res[i],
                request.arg_ops()[i].kind(),
            ),
{
    request.lemma_expected(g);
    R::lemma_failure(g, res);
    let expected = R::expected(g);
    let ops = request.arg_ops();
    assert(expected.len() == ops.len());
    assert forall|i: int| 0 <= i < ops.len() implies expected[i] == ops[i].kind() by {
        assert(kinds(ops)[i] == ops[i].kind());
    }
    lemma_first_failure_none(expected, res);
}

/// However a request is put together, a result that is missing at the place
/// `p`, or is there the result of another operation than the one that was
/// sent, after results that are all successful, is reported as a mismatch.
pub proof fn lemma_reply_mismatch<R: CompoundRequest>(
    request: R,
    g: R::Geometry,
    res: Seq<ResOp>,
    p: int,
)
    requires
        request.is_geometry(g),
        0 <= p < request.arg_ops().len(),
        forall|i: int|
            0 <= i < p && i < res.len() ==> is_success_of(
                #[trigger] res[i],
                request.arg_ops()[i].kind(),
            ),
        p >= res.len() || res[p].kind() != request.arg_ops()[p].kind(),
    ensures
        R::failure(g, res) matches Some(Error::CompoundResponseMismatch(_)),
{
    request.lemma_expected(g);
    R::lemma_failure(g, res);
    let expected = R::expected(g);
    let ops = request.arg_ops();
    assert(expected.len() == ops.len());
    assert forall|i: int| 0 <= i < ops.len() implies expected[i] == ops[i].kind() by {
        assert(kinds(ops)[i] == ops[i].kind());
    }
    lemma_first_failure_mismatch(expected, res, p);
}

impl<A: CompoundRequest, B: CompoundRequest> CompoundRequest for (A, B) {
    type Response = (A::Response, B::Response);

    type Geometry = (A::Geometry, B::Geometry);

    open spec fn arg_ops(self) -> Seq<ArgOp> {
        self.0.arg_ops() + self.1.arg_ops()
    }

    open spec fn is_geometry(self, g: Self::Geometry) -> bool {
        self.0.is_geometry(g.0) && self.1.is_geometry(g.1)
    }

    open spec fn expected(g: Self::Geometry) -> Seq<OperationId> {
        A::expected(g.0) + B::expected(g.1)
    }

    open spec fn failure(g: Self::Geometry, res: Seq<ResOp>) -> Option<Error> {
        match A::failure(g.0, res) {
            Some(e) => Some(e),
            None => B::failure(g.1, res.skip(A::expected(g.0).len() as int)),
        }
    }

    open spec fn yields(g: Self::Geometry, res: Seq<ResOp>, v: Self::Response) -> bool {
        A::yields(g.0, res, v.0) && B::yields(g.1, res.skip(A::expected(g.0).len() as int), v.1)
    }

    proof fn lemma_expected(self, g: Self::Geometry) {
        self.0.lemma_expected(g.0);
        self.1.lemma_expected(g.1);
        assert(kinds(self.0.arg_ops() + self.1.arg_ops()) =~= kinds(self.0.arg_ops()) + kinds(
            self.1.arg_ops(),
        ));
    }

    proof fn lemma_failure(g: Self::Geometry, res: Seq<ResOp>) {
        A::lemma_failure(g.0, res);
        B::lemma_failure(g.1, res.skip(A::expected(g.0).len() as int));
        lemma_first_failure_concat(A::expected(g.0), B::expected(g.1), res);
    }

    fn into_arg_array(self) -> (r: (Vec<ArgOp>, Self::Geometry)) {
        let (mut ops, g0) = self.0.into_arg_array();
        let (mut more, g1) = self.1.into_arg_array();
        ops.append(&mut more);
        (ops, (g0, g1))
    }

    fn process_reply(res_array: &mut VecDeque<ResOp>, geometry: &Self::Geometry) -> (r: Result<
        Self::Response,
        Error,
    >) {
        let a = A::process_reply(res_array, &geometry.0)?;
        let b = B::process_reply(res_array, &geometry.1)?;
        proof {
            let res = old(res_array)@;
            let na = A::expected(geometry.0).len() as int;
            let nb = B::expected(geometry.1).len() as int;
            A::lemma_failure(geometry.0, res);
            B::lemma_failure(geometry.1, res.skip(na));
            lemma_first_failure_none(A::expected(geometry.0), res);
            lemma_first_failure_none(B::expected(geometry.1), res.skip(na));
            assert(res.skip(na).skip(nb) =~= res.skip(na + nb));
        }
        Ok((a, b))
    }
}

impl<A: CompoundRequest, B: CompoundRequest, C: CompoundRequest> CompoundRequest for (A, B, C) {
    type Response = (A::Response, B::Response, C::Response);

    type Geometry = (A::Geometry, B::Geometry, C::Geometry);

    open spec fn arg_ops(self) -> Seq<ArgOp> {
        self.0.arg_ops() + (self.1.arg_ops() + self.2.arg_ops())
    }

    open spec fn is_geometry(self, g: Self::Geometry) -> bool {
        self.0.is_geometry(g.0) && self.1.is_geometry(g.1) && self.2.is_geometry(g.2)
    }

    open spec fn expected(g: Self::Geometry) -> Seq<OperationId> {
        <(A, (B, C))>::expected((g.0, (g.1, g.2)))
    }

    /// Three requests in a row are one request and then two.
    open spec fn failure(g: Self::Geometry, res: Seq<ResOp>) -> Option<Error> {
        <(A, (B, C))>::failure((g.0, (g.1, g.2)), res)
    }

    open spec fn yields(g: Self::Geometry, res: Seq<ResOp>, v: Self::Response) -> bool {
        <(A, (B, C))>::yields((g.0, (g.1, g.2)), res, (v.0, (v.1, v.2)))
    }

    proof fn lemma_expected(self, g: Self::Geometry) {
        (self.0, (self.1, self.2)).lemma_expected((g.0, (g.1, g.2)));
    }

    proof fn lemma_failure(g: Self::Geometry, res: Seq<ResOp>) {
        <(A, (B, C))>::lemma_failure((g.0, (g.1, g.2)), res);
    }

    fn into_arg_array(self) -> (r: (Vec<ArgOp>, Self::Geometry)) {
        let (mut ops, g0) = self.0.into_arg_array();
        let (mut second, g1) = self.1.into_arg_array();
        let (mut third, g2) = self.2.into_arg_array();
        second.append(&mut third);
        ops.append(&mut second);
        (ops, (g0, g1, g2))
    }

    fn process_reply(res_array: &mut VecDeque<ResOp>, geometry: &Self::Geometry) -> (r: Result<
        Self::Response,
        Error,
    >) {
        let ghost res = old(res_array)@;
        let ghost na = A::expected(geometry.0).len() as int;
        let ghost nb = B::expected(geometry.1).len() as int;
        let ghost nc = C::expected(geometry.2).len() as int;
        let a = A::process_reply(res_array, &geometry.0)?;
        let b = B::process_reply(res_array, &geometry.1)?;
        proof {
            A::lemma_failure(geometry.0, res);
            B::lemma_failure(geometry.1, res.skip(na));
            lemma_first_failure_none(A::expected(geometry.0), res);
            lemma_first_failure_none(B::expected(geometry.1), res.skip(na));
            assert(res.skip(na).skip(nb) =~= res.skip(na + nb));
        }
        let c = C::process_reply(res_array, &geometry.2)?;
        proof {
            C::lemma_failure(geometry.2, res.skip(na).skip(nb));
            lemma_first_failure_none(C::expected(geometry.2), res.skip(na).skip(nb));
            assert(res.skip(na + nb).skip(nc) =~= res.skip(na + nb + nc));
        }
        Ok((a, b, c))
    }
}

impl<
    A: CompoundRequest,
    B: CompoundRequest,
    C: CompoundRequest,
    D: CompoundRequest,
> CompoundRequest for (A, B, C, D) {
    type Response = (A::Response, B::Response, C::Response, D::Response);

    type Geometry = (A::Geometry, B::Geometry, C::Geometry, D::Geometry);

    open spec fn arg_ops(self) -> Seq<ArgOp> {
        self.0.arg_ops() + (self.1.arg_ops() + (self.2.arg_ops() + self.3.arg_ops()))
    }

    open spec fn is_geometry(self, g: Self::Geometry) -> bool {
        self.0.is_geometry(g.0) && self.1.is_geometry(g.1) && self.2.is_geometry(g.2)
            && self.3.is_geometry(g.3)
    }

    open spec fn expected(g: Self::Geometry) -> Seq<OperationId> {
        <(A, (B, (C, D)))>::expected((g.0, (g.1, (g.2, g.3))))
    }

    /// Four requests in a row are one request and then three.
    open spec fn failure(g: Self::Geometry, res: Seq<ResOp>) -> Option<Error> {
        <(A, (B, (C, D)))>::failure((g.0, (g.1, (g.2, g.3))), res)
    }

    open spec fn yields(g: Self::Geometry, res: Seq<ResOp>, v: Self::Response) -> bool {
        <(A, (B, (C, D)))>::yields((g.0, (g.1, (g.2, g.3))), res, (v.0, (v.1, (v.2, v.3))))
    }

    proof fn lemma_expected(self, g: Self::Geometry) {
        (self.0, (self.1, (self.2, self.3))).lemma_expected((g.0, (g.1, (g.2, g.3))));
    }

    proof fn lemma_failure(g: Self::Geometry, res: Seq<ResOp>) {
        <(A, (B, (C, D)))>::lemma_failure((g.0, (g.1, (g.2, g.3))), res);
    }

    fn into_arg_array(self) -> (r: (Vec<ArgOp>, Self::Geometry)) {
        let (mut ops, g0) = self.0.into_arg_array();
        let (mut second, g1) = self.1.into_arg_array();
        let (mut third, g2) = self.2.into_arg_array();
        let (mut fourth, g3) = self.3.into_arg_array();
        third.append(&mut fourth);
        second.append(&mut third);
        ops.append(&mut second);
        (ops, (g0, g1, g2, g3))
    }

    fn process_reply(res_array: &mut VecDeque<ResOp>, geometry: &Self::Geometry) -> (r: Result<
        Self::Response,
        Error,
    >) {
        let ghost res = old(res_array)@;
        let ghost na = A::expected(geometry.0).len() as int;
        let ghost nb = B::expected(geometry.1).len() as int;
        let ghost nc = C::expected(geometry.2).len() as int;
        let ghost nd = D::expected(geometry.3).len() as int;
        let a = A::process_reply(res_array, &geometry.0)?;
        let b = B::process_reply(res_array, &geometry.1)?;
        proof {
            A::lemma_failure(geometry.0, res);
            B::lemma_failure(geometry.1, res.skip(na));
            lemma_first_failure_none(A::expected(geometry.0), res);
            lemma_first_failure_none(B::expected(geometry.1), res.skip(na));
            assert(res.skip(na).skip(nb) =~= res.skip(na + nb));
        }
        let c = C::process_reply(res_array, &geometry.2)?;
        proof {
            C::lemma_failure(geometry.2, res.skip(na).skip(nb));
            lemma_first_failure_none(C::expected(geometry.2), res.skip(na).skip(nb));
            assert(res.skip(na).skip(nb).skip(nc) =~= res.skip(na + nb + nc));
        }
        let d = D::process_reply(res_array, &geometry.3)?;
        proof {
            D::lemma_failure(geometry.3, res.skip(na).skip(nb).skip(nc));
            lemma_first_failure_none(D::expected(geometry.3), res.skip(na).skip(nb).skip(nc));
            assert(res.skip(na + nb + nc).skip(nd) =~= res.skip(na + nb + nc + nd));
        }
        Ok((a, b, c, d))
    }
}

/// Five requests in a row are one request and then four: what is remembered
/// of them is what is remembered of the one, and then of the others.
impl<
    A: CompoundRequest,
    B: CompoundRequest,
    C: CompoundRequest,
    D: CompoundRequest,
    E: CompoundRequest,
> CompoundRequest for (A, B, C, D, E) {
    type Response = (A::Response, B::Response, C::Response, D::Response, E::Response);

    type Geometry = <(A, (B, (C, (D, E)))) as CompoundRequest>::Geometry;

    open spec fn arg_ops(self) -> Seq<ArgOp> {
        (self.0, (self.1, (self.2, (self.3, self.4)))).arg_ops()
    }

    open spec fn is_geometry(self, g: Self::Geometry) -> bool {
        (self.0, (self.1, (self.2, (self.3, self.4)))).is_geometry(g)
    }

    open spec fn expected(g: Self::Geometry) -> Seq<OperationId> {
        <(A, (B, (C, (D, E))))>::expected(g)
    }

    open spec fn failure(g: Self::Geometry, res: Seq<ResOp>) -> Option<Error> {
        <(A, (B, (C, (D, E))))>::failure(g, res)
    }

    open spec fn yields(g: Self::Geometry, res: Seq<ResOp>, v: Self::Response) -> bool {
        <(A, (B, (C, (D, E))))>::yields(g, res, (v.0, (v.1, (v.2, (v.3, v.4)))))
    }

    proof fn lemma_expected(self, g: Self::Geometry) {
        (self.0, (self.1, (self.2, (self.3, self.4)))).lemma_expected(g);
    }

    proof fn lemma_failure(g: Self::Geometry, res: Seq<ResOp>) {
        <(A, (B, (C, (D, E))))>::lemma_failure(g, res);
    }

    fn into_arg_array(self) -> (r: (Vec<ArgOp>, Self::Geometry)) {
        let (r0, r1, r2, r3, r4) = self;
        (r0, (r1, (r2, (r3, r4)))).into_arg_array()
    }

    fn process_reply(res_array: &mut VecDeque<ResOp>, geometry: &Self::Geometry) -> (r: Result<
        Self::Response,
        Error,
    >) {
        let (v0, (v1, (v2, (v3, v4)))) = <(A, (B, (C, (D, E))))>::process_reply(res_array,
            geometry)?;
        Ok((v0, v1, v2, v3, v4))
    }
}

/// Six requests in a row are one request and then five: what is remembered
/// of them is what is remembered of the one, and then of the others.
impl<
    A: CompoundRequest,
    B: CompoundRequest,
    C: CompoundRequest,
    D: CompoundRequest,
    E: CompoundRequest,
    F: CompoundRequest,
> CompoundRequest for (A, B, C, D, E, F) {
    type Response = (A::Response, B::Response, C::Response, D::Response, E::Response, F::Response);

    type Geometry = <(A, (B, (C, (D, (E, F))))) as CompoundRequest>::Geometry;

    open spec fn arg_ops(self) -> Seq<ArgOp> {
        (self.0, (self.1, (self.2, (self.3, (self.4, self.5))))).arg_ops()
    }

    open spec fn is_geometry(self, g: Self::Geometry) -> bool {
        (self.0, (self.1, (self.2, (self.3, (self.4, self.5))))).is_geometry(g)
    }

    open spec fn expected(g: Self::Geometry) -> Seq<OperationId> {
        <(A, (B, (C, (D, (E, F)))))>::expected(g)
    }

    open spec fn failure(g: Self::Geometry, res: Seq<ResOp>) -> Option<Error> {
        <(A, (B, (C, (D, (E, F)))))>::failure(g, res)
    }

    open spec fn yields(g: Self::Geometry, res: Seq<ResOp>, v: Self::Response) -> bool {
        <(A, (B, (C, (D, (E, F)))))>::yields(g, res, (v.0, (v.1, (v.2, (v.3, (v.4, v.5))))))
    }

    proof fn lemma_expected(self, g: Self::Geometry) {
        (self.0, (self.1, (self.2, (self.3, (self.4, self.5))))).lemma_expected(g);
    }

    proof fn lemma_failure(g: Self::Geometry, res: Seq<ResOp>) {
        <(A, (B, (C, (D, (E, F)))))>::lemma_failure(g, res);
    }

    fn into_arg_array(self) -> (r: (Vec<ArgOp>, Self::Geometry)) {
        let (r0, r1, r2, r3, r4, r5) = self;
        (r0, (r1, (r2, (r3, (r4, r5))))).into_arg_array()
    }

    fn process_reply(res_array: &mut VecDeque<ResOp>, geometry: &Self::Geometry) -> (r: Result<
        Self::Response,
        Error,
    >) {
        let (v0, (v1, (v2, (v3, (v4, v5))))) = <(A, (B, (C, (D, (E,
            F)))))>::process_reply(res_array, geometry)?;
        Ok((v0, v1, v2, v3, v4, v5))
    }
}

/// Seven requests in a row are one request and then six: what is remembered
/// of them is what is remembered of the one, and then of the others.
impl<
    A: CompoundRequest,
    B: CompoundRequest,
    C: CompoundRequest,
    D: CompoundRequest,
    E: CompoundRequest,
    F: CompoundRequest,
    G: CompoundRequest,
> CompoundRequest for (A, B, C, D, E, F, G) {
    type Response = (A::Response, B::Response, C::Response, D::Response, E::Response, F::Response,
        G::Response);

    type Geometry = <(A, (B, (C, (D, (E, (F, G)))))) as CompoundRequest>::Geometry;

    open spec fn arg_ops(self) -> Seq<ArgOp> {
        (self.0, (self.1, (self.2, (self.3, (self.4, (self.5, self.6)))))).arg_ops()
    }

    open spec fn is_geometry(self, g: Self::Geometry) -> bool {
        (self.0, (self.1, (self.2, (self.3, (self.4, (self.5, self.6)))))).is_geometry(g)
    }

    open spec fn expected(g: Self::Geometry) -> Seq<OperationId> {
        <(A, (B, (C, (D, (E, (F, G))))))>::expected(g)
    }

    open spec fn failure(g: Self::Geometry, res: Seq<ResOp>) -> Option<Error> {
        <(A, (B, (C, (D, (E, (F, G))))))>::failure(g, res)
    }

    open spec fn yields(g: Self::Geometry, res: Seq<ResOp>, v: Self::Response) -> bool {
        <(A, (B, (C, (D, (E, (F, G))))))>::yields(g, res, (v.0, (v.1, (v.2, (v.3, (v.4, (v.5,
            v.6)))))))
    }

    proof fn lemma_expected(self, g: Self::Geometry) {
        (self.0, (self.1, (self.2, (self.3, (self.4, (self.5, self.6)))))).lemma_expected(g);
    }

    proof fn lemma_failure(g: Self::Geometry, res: Seq<ResOp>) {
        <(A, (B, (C, (D, (E, (F, G))))))>::lemma_failure(g, res);
    }

    fn into_arg_array(self) -> (r: (Vec<ArgOp>, Self::Geometry)) {
        let (r0, r1, r2, r3, r4, r5, r6) = self;
        (r0, (r1, (r2, (r3, (r4, (r5, r6)))))).into_arg_array()
    }

    fn process_reply(res_array: &mut VecDeque<ResOp>, geometry: &Self::Geometry) -> (r: Result<
        Self::Response,
        Error,
    >) {
        let (v0, (v1, (v2, (v3, (v4, (v5, v6)))))) = <(A, (B, (C, (D, (E, (F,
            G))))))>::process_reply(res_array, geometry)?;
        Ok((v0, v1, v2, v3, v4, v5, v6))
    }
}

/// Eight requests in a row are one request and then seven: what is remembered
/// of them is what is remembered of the one, and then of the others.
impl<
    A: CompoundRequest,
    B: CompoundRequest,
    C: CompoundRequest,
    D: CompoundRequest,
    E: CompoundRequest,
    F: CompoundRequest,
    G: CompoundRequest,
    H: CompoundRequest,
> CompoundRequest for (A, B, C, D, E, F, G, H) {
    type Response = (A::Response, B::Response, C::Response, D::Response, E::Response, F::Response,
        G::Response, H::Response);

    type Geometry = <(A, (B, (C, (D, (E, (F, (G, H))))))) as CompoundRequest>::Geometry;

    open spec fn arg_ops(self) -> Seq<ArgOp> {
        (self.0, (self.1, (self.2, (self.3, (self.4, (self.5, (self.6, self.7))))))).arg_ops()
    }

    open spec fn is_geometry(self, g: Self::Geometry) -> bool {
        (self.0, (self.1, (self.2, (self.3, (self.4, (self.5, (self.6, self.7))))))).is_geometry(g)
    }

    open spec fn expected(g: Self::Geometry) -> Seq<OperationId> {
        <(A, (B, (C, (D, (E, (F, (G, H)))))))>::expected(g)
    }

    open spec fn failure(g: Self::Geometry, res: Seq<ResOp>) -> Option<Error> {
        <(A, (B, (C, (D, (E, (F, (G, H)))))))>::failure(g, res)
    }

    open spec fn yields(g: Self::Geometry, res: Seq<ResOp>, v: Self::Response) -> bool {
        <(A, (B, (C, (D, (E, (F, (G, H)))))))>::yields(g, res, (v.0, (v.1, (v.2, (v.3, (v.4, (v.5,
            (v.6, v.7))))))))
    }

    proof fn lemma_expected(self, g: Self::Geometry) {
        (self.0, (self.1, (self.2, (self.3, (self.4, (self.5, (self.6,
            self.7))))))).lemma_expected(g);
    }

    proof fn lemma_failure(g: Self::Geometry, res: Seq<ResOp>) {
        <(A, (B, (C, (D, (E, (F, (G, H)))))))>::lemma_failure(g, res);
    }

    fn into_arg_array(self) -> (r: (Vec<ArgOp>, Self::Geometry)) {
        let (r0, r1, r2, r3, r4, r5, r6, r7) = self;
        (r0, (r1, (r2, (r3, (r4, (r5, (r6, r7))))))).into_arg_array()
    }

    fn process_reply(res_array: &mut VecDeque<ResOp>, geometry: &Self::Geometry) -> (r: Result<
        Self::Response,
        Error,
    >) {
        let (v0, (v1, (v2, (v3, (v4, (v5, (v6, v7))))))) = <(A, (B, (C, (D, (E, (F, (G,
            H)))))))>::process_reply(res_array, geometry)?;
        Ok((v0, v1, v2, v3, v4, v5, v6, v7))
    }
}

/// Nine requests in a row are one request and then eight: what is remembered
/// of them is what is remembered of the one, and then of the others.
impl<
    A: CompoundRequest,
    B: CompoundRequest,
    C: CompoundRequest,
    D: CompoundRequest,
    E: CompoundRequest,
    F: CompoundRequest,
    G: CompoundRequest,
    H: CompoundRequest,
    I: CompoundRequest,
> CompoundRequest for (A, B, C, D, E, F, G, H, I) {
    type Response = (A::Response, B::Response, C::Response, D::Response, E::Response, F::Response,
        G::Response, H::Response, I::Response);

    type Geometry = <(A, (B, (C, (D, (E, (F, (G, (H, I)))))))) as CompoundRequest>::Geometry;

    open spec fn arg_ops(self) -> Seq<ArgOp> {
        (self.0, (self.1, (self.2, (self.3, (self.4, (self.5, (self.6, (self.7,
            self.8)))))))).arg_ops()
    }

    open spec fn is_geometry(self, g: Self::Geometry) -> bool {
        (self.0, (self.1, (self.2, (self.3, (self.4, (self.5, (self.6, (self.7,
            self.8)))))))).is_geometry(g)
    }

    open spec fn expected(g: Self::Geometry) -> Seq<OperationId> {
        <(A, (B, (C, (D, (E, (F, (G, (H, I))))))))>::expected(g)
    }

    open spec fn failure(g: Self::Geometry, res: Seq<ResOp>) -> Option<Error> {
        <(A, (B, (C, (D, (E, (F, (G, (H, I))))))))>::failure(g, res)
    }

    open spec fn yields(g: Self::Geometry, res: Seq<ResOp>, v: Self::Response) -> bool {
        <(A, (B, (C, (D, (E, (F, (G, (H, I))))))))>::yields(g, res, (v.0, (v.1, (v.2, (v.3, (v.4,
            (v.5, (v.6, (v.7, v.8)))))))))
    }

    proof fn lemma_expected(self, g: Self::Geometry) {
        (self.0, (self.1, (self.2, (self.3, (self.4, (self.5, (self.6, (self.7,
            self.8)))))))).lemma_expected(g);
    }

    proof fn lemma_failure(g: Self::Geometry, res: Seq<ResOp>) {
        <(A, (B, (C, (D, (E, (F, (G, (H, I))))))))>::lemma_failure(g, res);
    }

    fn into_arg_array(self) -> (r: (Vec<ArgOp>, Self::Geometry)) {
        let (r0, r1, r2, r3, r4, r5, r6, r7, r8) = self;
        (r0, (r1, (r2, (r3, (r4, (r5, (r6, (r7, r8)))))))).into_arg_array()
    }

    fn process_reply(res_array: &mut VecDeque<ResOp>, geometry: &Self::Geometry) -> (r: Result<
        Self::Response,
        Error,
    >) {
        let (v0, (v1, (v2, (v3, (v4, (v5, (v6, (v7, v8)))))))) = <(A, (B, (C, (D, (E, (F, (G, (H,
            I))))))))>::process_reply(res_array, geometry)?;
        Ok((v0, v1, v2, v3, v4, v5, v6, v7, v8))
    }
}

/// Ten requests in a row are one request and then nine: what is remembered
/// of them is what is remembered of the one, and then of the others.
impl<
    A: CompoundRequest,
    B: CompoundRequest,
    C: CompoundRequest,
    D: CompoundRequest,
    E: CompoundRequest,
    F: CompoundRequest,
    G: CompoundRequest,
    H: CompoundRequest,
    I: CompoundRequest,
    J: CompoundRequest,
> CompoundRequest for (A, B, C, D, E, F, G, H, I, J) {
    type Response = (A::Response, B::Response, C::Response, D::Response, E::Response, F::Response,
        G::Response, H::Response, I::Response, J::Response);

    type Geometry = <(A, (B, (C, (D, (E, (F, (G, (H, (I, J))))))))) as CompoundRequest>::Geometry;

    open spec fn arg_ops(self) -> Seq<ArgOp> {
        (self.0, (self.1, (self.2, (self.3, (self.4, (self.5, (self.6, (self.7, (self.8,
            self.9))))))))).arg_ops()
    }

    open spec fn is_geometry(self, g: Self::Geometry) -> bool {
        (self.0, (self.1, (self.2, (self.3, (self.4, (self.5, (self.6, (self.7, (self.8,
            self.9))))))))).is_geometry(g)
    }

    open spec fn expected(g: Self::Geometry) -> Seq<OperationId> {
        <(A, (B, (C, (D, (E, (F, (G, (H, (I, J)))))))))>::expected(g)
    }

    open spec fn failure(g: Self::Geometry, res: Seq<ResOp>) -> Option<Error> {
        <(A, (B, (C, (D, (E, (F, (G, (H, (I, J)))))))))>::failure(g, res)
    }

    open spec fn yields(g: Self::Geometry, res: Seq<ResOp>, v: Self::Response) -> bool {
        <(A, (B, (C, (D, (E, (F, (G, (H, (I, J)))))))))>::yields(g, res, (v.0, (v.1, (v.2, (v.3,
            (v.4, (v.5, (v.6, (v.7, (v.8, v.9))))))))))
    }

    proof fn lemma_expected(self, g: Self::Geometry) {
        (self.0, (self.1, (self.2, (self.3, (self.4, (self.5, (self.6, (self.7, (self.8,
            self.9))))))))).lemma_expected(g);
    }

    proof fn lemma_failure(g: Self::Geometry, res: Seq<ResOp>) {
        <(A, (B, (C, (D, (E, (F, (G, (H, (I, J)))))))))>::lemma_failure(g, res);
    }

    fn into_arg_array(self) -> (r: (Vec<ArgOp>, Self::Geometry)) {
        let (r0, r1, r2, r3, r4, r5, r6, r7, r8, r9) = self;
        (r0, (r1, (r2, (r3, (r4, (r5, (r6, (r7, (r8, r9))))))))).into_arg_array()
    }

    fn process_reply(res_array: &mut VecDeque<ResOp>, geometry: &Self::Geometry) -> (r: Result<
        Self::Response,
        Error,
    >) {
        let (v0, (v1, (v2, (v3, (v4, (v5, (v6, (v7, (v8, v9))))))))) = <(A, (B, (C, (D, (E, (F, (G,
            (H, (I, J)))))))))>::process_reply(res_array, geometry)?;
        Ok((v0, v1, v2, v3, v4, v5, v6, v7, v8, v9))
    }
}

/// Eleven requests in a row are one request and then ten: what is remembered
/// of them is what is remembered of the one, and then of the others.
impl<
    A: CompoundRequest,
    B: CompoundRequest,
    C: CompoundRequest,
    D: CompoundRequest,
    E: CompoundRequest,
    F: CompoundRequest,
    G: CompoundRequest,
    H: CompoundRequest,
    I: CompoundRequest,
    J: CompoundRequest,
    K: CompoundRequest,
> CompoundRequest for (A, B, C, D, E, F, G, H, I, J, K) {
    type Response = (A::Response, B::Response, C::Response, D::Response, E::Response, F::Response,
        G::Response, H::Response, I::Response, J::Response, K::Response);

    type Geometry = <(A, (B, (C, (D, (E, (F, (G, (H, (I, (J,
        K)))))))))) as CompoundRequest>::Geometry;

    open spec fn arg_ops(self) -> Seq<ArgOp> {
        (self.0, (self.1, (self.2, (self.3, (self.4, (self.5, (self.6, (self.7, (self.8, (self.9,
            self.10)))))))))).arg_ops()
    }

    open spec fn is_geometry(self, g: Self::Geometry) -> bool {
        (self.0, (self.1, (self.2, (self.3, (self.4, (self.5, (self.6, (self.7, (self.8, (self.9,
            self.10)))))))))).is_geometry(g)
    }

    open spec fn expected(g: Self::Geometry) -> Seq<OperationId> {
        <(A, (B, (C, (D, (E, (F, (G, (H, (I, (J, K))))))))))>::expected(g)
    }

    open spec fn failure(g: Self::Geometry, res: Seq<ResOp>) -> Option<Error> {
        <(A, (B, (C, (D, (E, (F, (G, (H, (I, (J, K))))))))))>::failure(g, res)
    }

    open spec fn yields(g: Self::Geometry, res: Seq<ResOp>, v: Self::Response) -> bool {
        <(A, (B, (C, (D, (E, (F, (G, (H, (I, (J, K))))))))))>::yields(g, res, (v.0, (v.1, (v.2,
            (v.3, (v.4, (v.5, (v.6, (v.7, (v.8, (v.9, v.10)))))))))))
    }

    proof fn lemma_expected(self, g: Self::Geometry) {
        (self.0, (self.1, (self.2, (self.3, (self.4, (self.5, (self.6, (self.7, (self.8, (self.9,
            self.10)))))))))).lemma_expected(g);
    }

    proof fn lemma_failure(g: Self::Geometry, res: Seq<ResOp>) {
        <(A, (B, (C, (D, (E, (F, (G, (H, (I, (J, K))))))))))>::lemma_failure(g, res);
    }

    fn into_arg_array(self) -> (r: (Vec<ArgOp>, Self::Geometry)) {
        let (r0, r1, r2, r3, r4, r5, r6, r7, r8, r9, r10) = self;
        (r0, (r1, (r2, (r3, (r4, (r5, (r6, (r7, (r8, (r9, r10)))))))))).into_arg_array()
    }

    fn process_reply(res_array: &mut VecDeque<ResOp>, geometry: &Self::Geometry) -> (r: Result<
        Self::Response,
        Error,
    >) {
        let (v0, (v1, (v2, (v3, (v4, (v5, (v6, (v7, (v8, (v9, v10)))))))))) = <(A, (B, (C, (D, (E,
            (F, (G, (H, (I, (J, K))))))))))>::process_reply(res_array, geometry)?;
        Ok((v0, v1, v2, v3, v4, v5, v6, v7, v8, v9, v10))
    }
}

/// Twelve requests in a row are one request and then eleven: what is remembered
/// of them is what is remembered of the one, and then of the others.
impl<
    A: CompoundRequest,
    B: CompoundRequest,
    C: CompoundRequest,
    D: CompoundRequest,
    E: CompoundRequest,
    F: CompoundRequest,
    G: CompoundRequest,
    H: CompoundRequest,
    I: CompoundRequest,
    J: CompoundRequest,
    K: CompoundRequest,
    L: CompoundRequest,
> CompoundRequest for (A, B, C, D, E, F, G, H, I, J, K, L) {
    type Response = (A::Response, B::Response, C::Response, D::Response, E::Response, F::Response,
        G::Response, H::Response, I::Response, J::Response, K::Response, L::Response);

    type Geometry = <(A, (B, (C, (D, (E, (F, (G, (H, (I, (J, (K,
        L))))))))))) as CompoundRequest>::Geometry;

    open spec fn arg_ops(self) -> Seq<ArgOp> {
        (self.0, (self.1, (self.2, (self.3, (self.4, (self.5, (self.6, (self.7, (self.8, (self.9,
            (self.10, self.11))))))))))).arg_ops()
    }

    open spec fn is_geometry(self, g: Self::Geometry) -> bool {
        (self.0, (self.1, (self.2, (self.3, (self.4, (self.5, (self.6, (self.7, (self.8, (self.9,
            (self.10, self.11))))))))))).is_geometry(g)
    }

    open spec fn expected(g: Self::Geometry) -> Seq<OperationId> {
        <(A, (B, (C, (D, (E, (F, (G, (H, (I, (J, (K, L)))))))))))>::expected(g)
    }

    open spec fn failure(g: Self::Geometry, res: Seq<ResOp>) -> Option<Error> {
        <(A, (B, (C, (D, (E, (F, (G, (H, (I, (J, (K, L)))))))))))>::failure(g, res)
    }

    open spec fn yields(g: Self::Geometry, res: Seq<ResOp>, v: Self::Response) -> bool {
        <(A, (B, (C, (D, (E, (F, (G, (H, (I, (J, (K, L)))))))))))>::yields(g, res, (v.0, (v.1, (v.2,
            (v.3, (v.4, (v.5, (v.6, (v.7, (v.8, (v.9, (v.10, v.11))))))))))))
    }

    proof fn lemma_expected(self, g: Self::Geometry) {
        (self.0, (self.1, (self.2, (self.3, (self.4, (self.5, (self.6, (self.7, (self.8, (self.9,
            (self.10, self.11))))))))))).lemma_expected(g);
    }

    proof fn lemma_failure(g: Self::Geometry, res: Seq<ResOp>) {
        <(A, (B, (C, (D, (E, (F, (G, (H, (I, (J, (K, L)))))))))))>::lemma_failure(g, res);
    }

    fn into_arg_array(self) -> (r: (Vec<ArgOp>, Self::Geometry)) {
        let (r0, r1, r2, r3, r4, r5, r6, r7, r8, r9, r10, r11) = self;
        (r0, (r1, (r2, (r3, (r4, (r5, (r6, (r7, (r8, (r9, (r10, r11))))))))))).into_arg_array()
    }

    fn process_reply(res_array: &mut VecDeque<ResOp>, geometry: &Self::Geometry) -> (r: Result<
        Self::Response,
        Error,
    >) {
        let (v0, (v1, (v2, (v3, (v4, (v5, (v6, (v7, (v8, (v9, (v10, v11))))))))))) = <(A, (B, (C,
            (D, (E, (F, (G, (H, (I, (J, (K, L)))))))))))>::process_reply(res_array, geometry)?;
        Ok((v0, v1, v2, v3, v4, v5, v6, v7, v8, v9, v10, v11))
    }
}

/// Thirteen requests in a row are one request and then twelve: what is remembered
/// of them is what is remembered of the one, and then of the others.
impl<
    A: CompoundRequest,
    B: CompoundRequest,
    C: CompoundRequest,
    D: CompoundRequest,
    E: CompoundRequest,
    F: CompoundRequest,
    G: CompoundRequest,
    H: CompoundRequest,
    I: CompoundRequest,
    J: CompoundRequest,
    K: CompoundRequest,
    L: CompoundRequest,
    M: CompoundRequest,
> CompoundRequest for (A, B, C, D, E, F, G, H, I, J, K, L, M) {
    type Response = (A::Response, B::Response, C::Response, D::Response, E::Response, F::Response,
        G::Response, H::Response, I::Response, J::Response, K::Response, L::Response, M::Response);

    type Geometry = <(A, (B, (C, (D, (E, (F, (G, (H, (I, (J, (K, (L,
        M)))))))))))) as CompoundRequest>::Geometry;

    open spec fn arg_ops(self) -> Seq<ArgOp> {
        (self.0, (self.1, (self.2, (self.3, (self.4, (self.5, (self.6, (self.7, (self.8, (self.9,
            (self.10, (self.11, self.12)))))))))))).arg_ops()
    }

    open spec fn is_geometry(self, g: Self::Geometry) -> bool {
        (self.0, (self.1, (self.2, (self.3, (self.4, (self.5, (self.6, (self.7, (self.8, (self.9,
            (self.10, (self.11, self.12)))))))))))).is_geometry(g)
    }

    open spec fn expected(g: Self::Geometry) -> Seq<OperationId> {
        <(A, (B, (C, (D, (E, (F, (G, (H, (I, (J, (K, (L, M))))))))))))>::expected(g)
    }

    open spec fn failure(g: Self::Geometry, res: Seq<ResOp>) -> Option<Error> {
        <(A, (B, (C, (D, (E, (F, (G, (H, (I, (J, (K, (L, M))))))))))))>::failure(g, res)
    }

    open spec fn yields(g: Self::Geometry, res: Seq<ResOp>, v: Self::Response) -> bool {
        <(A, (B, (C, (D, (E, (F, (G, (H, (I, (J, (K, (L, M))))))))))))>::yields(g, res, (v.0, (v.1,
            (v.2, (v.3, (v.4, (v.5, (v.6, (v.7, (v.8, (v.9, (v.10, (v.11, v.12)))))))))))))
    }

    proof fn lemma_expected(self, g: Self::Geometry) {
        (self.0, (self.1, (self.2, (self.3, (self.4, (self.5, (self.6, (self.7, (self.8, (self.9,
            (self.10, (self.11, self.12)))))))))))).lemma_expected(g);
    }

    proof fn lemma_failure(g: Self::Geometry, res: Seq<ResOp>) {
        <(A, (B, (C, (D, (E, (F, (G, (H, (I, (J, (K, (L, M))))))))))))>::lemma_failure(g, res);
    }

    fn into_arg_array(self) -> (r: (Vec<ArgOp>, Self::Geometry)) {
        let (r0, r1, r2, r3, r4, r5, r6, r7, r8, r9, r10, r11, r12) = self;
        (r0, (r1, (r2, (r3, (r4, (r5, (r6, (r7, (r8, (r9, (r10, (r11,
            r12)))))))))))).into_arg_array()
    }

    fn process_reply(res_array: &mut VecDeque<ResOp>, geometry: &Self::Geometry) -> (r: Result<
        Self::Response,
        Error,
    >) {
        let (v0, (v1, (v2, (v3, (v4, (v5, (v6, (v7, (v8, (v9, (v10, (v11, v12)))))))))))) = <(A, (B,
            (C, (D, (E, (F, (G, (H, (I, (J, (K, (L, M))))))))))))>::process_reply(res_array,
            geometry)?;
        Ok((v0, v1, v2, v3, v4, v5, v6, v7, v8, v9, v10, v11, v12))
    }
}

/// Fourteen requests in a row are one request and then thirteen: what is remembered
/// of them is what is remembered of the one, and then of the others.
impl<
    A: CompoundRequest,
    B: CompoundRequest,
    C: CompoundRequest,
    D: CompoundRequest,
    E: CompoundRequest,
    F: CompoundRequest,
    G: CompoundRequest,
    H: CompoundRequest,
    I: CompoundRequest,
    J: CompoundRequest,
    K: CompoundRequest,
    L: CompoundRequest,
    M: CompoundRequest,
    N: CompoundRequest,
> CompoundRequest for (A, B, C, D, E, F, G, H, I, J, K, L, M, N) {
    type Response = (A::Response, B::Response, C::Response, D::Response, E::Response, F::Response,
        G::Response, H::Response, I::Response, J::Response, K::Response, L::Response, M::Response,
        N::Response);

    type Geometry = <(A, (B, (C, (D, (E, (F, (G, (H, (I, (J, (K, (L, (M,
        N))))))))))))) as CompoundRequest>::Geometry;

    open spec fn arg_ops(self) -> Seq<ArgOp> {
        (self.0, (self.1, (self.2, (self.3, (self.4, (self.5, (self.6, (self.7, (self.8, (self.9,
            (self.10, (self.11, (self.12, self.13))))))))))))).arg_ops()
    }

    open spec fn is_geometry(self, g: Self::Geometry) -> bool {
        (self.0, (self.1, (self.2, (self.3, (self.4, (self.5, (self.6, (self.7, (self.8, (self.9,
            (self.10, (self.11, (self.12, self.13))))))))))))).is_geometry(g)
    }

    open spec fn expected(g: Self::Geometry) -> Seq<OperationId> {
        <(A, (B, (C, (D, (E, (F, (G, (H, (I, (J, (K, (L, (M, N)))))))))))))>::expected(g)
    }

    open spec fn failure(g: Self::Geometry, res: Seq<ResOp>) -> Option<Error> {
        <(A, (B, (C, (D, (E, (F, (G, (H, (I, (J, (K, (L, (M, N)))))))))))))>::failure(g, res)
    }

    open spec fn yields(g: Self::Geometry, res: Seq<ResOp>, v: Self::Response) -> bool {
        <(A, (B, (C, (D, (E, (F, (G, (H, (I, (J, (K, (L, (M, N)))))))))))))>::yields(g, res, (v.0,
            (v.1, (v.2, (v.3, (v.4, (v.5, (v.6, (v.7, (v.8, (v.9, (v.10, (v.11, (v.12,
            v.13))))))))))))))
    }

    proof fn lemma_expected(self, g: Self::Geometry) {
        (self.0, (self.1, (self.2, (self.3, (self.4, (self.5, (self.6, (self.7, (self.8, (self.9,
            (self.10, (self.11, (self.12, self.13))))))))))))).lemma_expected(g);
    }

    proof fn lemma_failure(g: Self::Geometry, res: Seq<ResOp>) {
        <(A, (B, (C, (D, (E, (F, (G, (H, (I, (J, (K, (L, (M, N)))))))))))))>::lemma_failure(g, res);
    }

    fn into_arg_array(self) -> (r: (Vec<ArgOp>, Self::Geometry)) {
        let (r0, r1, r2, r3, r4, r5, r6, r7, r8, r9, r10, r11, r12, r13) = self;
        (r0, (r1, (r2, (r3, (r4, (r5, (r6, (r7, (r8, (r9, (r10, (r11, (r12,
            r13))))))))))))).into_arg_array()
    }

    fn process_reply(res_array: &mut VecDeque<ResOp>, geometry: &Self::Geometry) -> (r: Result<
        Self::Response,
        Error,
    >) {
        let (v0, (v1, (v2, (v3, (v4, (v5, (v6, (v7, (v8, (v9, (v10, (v11, (v12,
            v13))))))))))))) = <(A, (B, (C, (D, (E, (F, (G, (H, (I, (J, (K, (L, (M,
            N)))))))))))))>::process_reply(res_array, geometry)?;
        Ok((v0, v1, v2, v3, v4, v5, v6, v7, v8, v9, v10, v11, v12, v13))
    }
}

/// Fifteen requests in a row are one request and then fourteen: what is remembered
/// of them is what is remembered of the one, and then of the others.
impl<
    A: CompoundRequest,
    B: CompoundRequest,
    C: CompoundRequest,
    D: CompoundRequest,
    E: CompoundRequest,
    F: CompoundRequest,
    G: CompoundRequest,
    H: CompoundRequest,
    I: CompoundRequest,
    J: CompoundRequest,
    K: CompoundRequest,
    L: CompoundRequest,
    M: CompoundRequest,
    N: CompoundRequest,
    O: CompoundRequest,
> CompoundRequest for (A, B, C, D, E, F, G, H, I, J, K, L, M, N, O) {
    type Response = (A::Response, B::Response, C::Response, D::Response, E::Response, F::Response,
        G::Response, H::Response, I::Response, J::Response, K::Response, L::Response, M::Response,
        N::Response, O::Response);

    type Geometry = <(A, (B, (C, (D, (E, (F, (G, (H, (I, (J, (K, (L, (M, (N,
        O)))))))))))))) as CompoundRequest>::Geometry;

    open spec fn arg_ops(self) -> Seq<ArgOp> {
        (self.0, (self.1, (self.2, (self.3, (self.4, (self.5, (self.6, (self.7, (self.8, (self.9,
            (self.10, (self.11, (self.12, (self.13, self.14)))))))))))))).arg_ops()
    }

    open spec fn is_geometry(self, g: Self::Geometry) -> bool {
        (self.0, (self.1, (self.2, (self.3, (self.4, (self.5, (self.6, (self.7, (self.8, (self.9,
            (self.10, (self.11, (self.12, (self.13, self.14)))))))))))))).is_geometry(g)
    }

    open spec fn expected(g: Self::Geometry) -> Seq<OperationId> {
        <(A, (B, (C, (D, (E, (F, (G, (H, (I, (J, (K, (L, (M, (N, O))))))))))))))>::expected(g)
    }

    open spec fn failure(g: Self::Geometry, res: Seq<ResOp>) -> Option<Error> {
        <(A, (B, (C, (D, (E, (F, (G, (H, (I, (J, (K, (L, (M, (N, O))))))))))))))>::failure(g, res)
    }

    open spec fn yields(g: Self::Geometry, res: Seq<ResOp>, v: Self::Response) -> bool {
        <(A, (B, (C, (D, (E, (F, (G, (H, (I, (J, (K, (L, (M, (N, O))))))))))))))>::yields(g, res,
            (v.0, (v.1, (v.2, (v.3, (v.4, (v.5, (v.6, (v.7, (v.8, (v.9, (v.10, (v.11, (v.12, (v.13,
            v.14)))))))))))))))
    }

    proof fn lemma_expected(self, g: Self::Geometry) {
        (self.0, (self.1, (self.2, (self.3, (self.4, (self.5, (self.6, (self.7, (self.8, (self.9,
            (self.10, (self.11, (self.12, (self.13, self.14)))))))))))))).lemma_expected(g);
    }

    proof fn lemma_failure(g: Self::Geometry, res: Seq<ResOp>) {
        <(A, (B, (C, (D, (E, (F, (G, (H, (I, (J, (K, (L, (M, (N, O))))))))))))))>::lemma_failure(g,
            res);
    }

    fn into_arg_array(self) -> (r: (Vec<ArgOp>, Self::Geometry)) {
        let (r0, r1, r2, r3, r4, r5, r6, r7, r8, r9, r10, r11, r12, r13, r14) = self;
        (r0, (r1, (r2, (r3, (r4, (r5, (r6, (r7, (r8, (r9, (r10, (r11, (r12, (r13,
            r14)))))))))))))).into_arg_array()
    }

    fn process_reply(res_array: &mut VecDeque<ResOp>, geometry: &Self::Geometry) -> (r: Result<
        Self::Response,
        Error,
    >) {
        let (v0, (v1, (v2, (v3, (v4, (v5, (v6, (v7, (v8, (v9, (v10, (v11, (v12, (v13,
            v14)))))))))))))) = <(A, (B, (C, (D, (E, (F, (G, (H, (I, (J, (K, (L, (M, (N,
            O))))))))))))))>::process_reply(res_array, geometry)?;
        Ok((v0, v1, v2, v3, v4, v5, v6, v7, v8, v9, v10, v11, v12, v13, v14))
    }
}

/// Sixteen requests in a row are one request and then fifteen: what is remembered
/// of them is what is remembered of the one, and then of the others.
impl<
    A: CompoundRequest,
    B: CompoundRequest,
    C: CompoundRequest,
    D: CompoundRequest,
    E: CompoundRequest,
    F: CompoundRequest,
    G: CompoundRequest,
    H: CompoundRequest,
    I: CompoundRequest,
    J: CompoundRequest,
    K: CompoundRequest,
    L: CompoundRequest,
    M: CompoundRequest,
    N: CompoundRequest,
    O: CompoundRequest,
    P: CompoundRequest,
> CompoundRequest for (A, B, C, D, E, F, G, H, I, J, K, L, M, N, O, P) {
    type Response = (A::Response, B::Response, C::Response, D::Response, E::Response, F::Response,
        G::Response, H::Response, I::Response, J::Response, K::Response, L::Response, M::Response,
        N::Response, O::Response, P::Response);

    type Geometry = <(A, (B, (C, (D, (E, (F, (G, (H, (I, (J, (K, (L, (M, (N, (O,
        P))))))))))))))) as CompoundRequest>::Geometry;

    open spec fn arg_ops(self) -> Seq<ArgOp> {
        (self.0, (self.1, (self.2, (self.3, (self.4, (self.5, (self.6, (self.7, (self.8, (self.9,
            (self.10, (self.11, (self.12, (self.13, (self.14, self.15))))))))))))))).arg_ops()
    }

    open spec fn is_geometry(self, g: Self::Geometry) -> bool {
        (self.0, (self.1, (self.2, (self.3, (self.4, (self.5, (self.6, (self.7, (self.8, (self.9,
            (self.10, (self.11, (self.12, (self.13, (self.14, self.15))))))))))))))).is_geometry(g)
    }

    open spec fn expected(g: Self::Geometry) -> Seq<OperationId> {
        <(A, (B, (C, (D, (E, (F, (G, (H, (I, (J, (K, (L, (M, (N, (O, P)))))))))))))))>::expected(g)
    }

    open spec fn failure(g: Self::Geometry, res: Seq<ResOp>) -> Option<Error> {
        <(A, (B, (C, (D, (E, (F, (G, (H, (I, (J, (K, (L, (M, (N, (O, P)))))))))))))))>::failure(g,
            res)
    }

    open spec fn yields(g: Self::Geometry, res: Seq<ResOp>, v: Self::Response) -> bool {
        <(A, (B, (C, (D, (E, (F, (G, (H, (I, (J, (K, (L, (M, (N, (O, P)))))))))))))))>::yields(g,
            res, (v.0, (v.1, (v.2, (v.3, (v.4, (v.5, (v.6, (v.7, (v.8, (v.9, (v.10, (v.11, (v.12,
            (v.13, (v.14, v.15))))))))))))))))
    }

    proof fn lemma_expected(self, g: Self::Geometry) {
        (self.0, (self.1, (self.2, (self.3, (self.4, (self.5, (self.6, (self.7, (self.8, (self.9,
            (self.10, (self.11, (self.12, (self.13, (self.14,
            self.15))))))))))))))).lemma_expected(g);
    }

    proof fn lemma_failure(g: Self::Geometry, res: Seq<ResOp>) {
        <(A, (B, (C, (D, (E, (F, (G, (H, (I, (J, (K, (L, (M, (N, (O,
            P)))))))))))))))>::lemma_failure(g, res);
    }

    fn into_arg_array(self) -> (r: (Vec<ArgOp>, Self::Geometry)) {
        let (r0, r1, r2, r3, r4, r5, r6, r7, r8, r9, r10, r11, r12, r13, r14, r15) = self;
        (r0, (r1, (r2, (r3, (r4, (r5, (r6, (r7, (r8, (r9, (r10, (r11, (r12, (r13, (r14,
            r15))))))))))))))).into_arg_array()
    }

    fn process_reply(res_array: &mut VecDeque<ResOp>, geometry: &Self::Geometry) -> (r: Result<
        Self::Response,
        Error,
    >) {
        let (v0, (v1, (v2, (v3, (v4, (v5, (v6, (v7, (v8, (v9, (v10, (v11, (v12, (v13, (v14,
            v15))))))))))))))) = <(A, (B, (C, (D, (E, (F, (G, (H, (I, (J, (K, (L, (M, (N, (O,
            P)))))))))))))))>::process_reply(res_array, geometry)?;
        Ok((v0, v1, v2, v3, v4, v5, v6, v7, v8, v9, v10, v11, v12, v13, v14, v15))
    }
}

/// Seventeen requests in a row are one request and then sixteen: what is remembered
/// of them is what is remembered of the one, and then of the others.
impl<
    A: CompoundRequest,
    B: CompoundRequest,
    C: CompoundRequest,
    D: CompoundRequest,
    E: CompoundRequest,
    F: CompoundRequest,
    G: CompoundRequest,
    H: CompoundRequest,
    I: CompoundRequest,
    J: CompoundRequest,
    K: CompoundRequest,
    L: CompoundRequest,
    M: CompoundRequest,
    N: CompoundRequest,
    O: CompoundRequest,
    P: CompoundRequest,
    Q: CompoundRequest,
> CompoundRequest for (A, B, C, D, E, F, G, H, I, J, K, L, M, N, O, P, Q) {
    type Response = (A::Response, B::Response, C::Response, D::Response, E::Response, F::Response,
        G::Response, H::Response, I::Response, J::Response, K::Response, L::Response, M::Response,
        N::Response, O::Response, P::Response, Q::Response);

    type Geometry = <(A, (B, (C, (D, (E, (F, (G, (H, (I, (J, (K, (L, (M, (N, (O, (P,
        Q)))))))))))))))) as CompoundRequest>::Geometry;

    open spec fn arg_ops(self) -> Seq<ArgOp> {
        (self.0, (self.1, (self.2, (self.3, (self.4, (self.5, (self.6, (self.7, (self.8, (self.9,
            (self.10, (self.11, (self.12, (self.13, (self.14, (self.15,
            self.16)))))))))))))))).arg_ops()
    }

    open spec fn is_geometry(self, g: Self::Geometry) -> bool {
        (self.0, (self.1, (self.2, (self.3, (self.4, (self.5, (self.6, (self.7, (self.8, (self.9,
            (self.10, (self.11, (self.12, (self.13, (self.14, (self.15,
            self.16)))))))))))))))).is_geometry(g)
    }

    open spec fn expected(g: Self::Geometry) -> Seq<OperationId> {
        <(A, (B, (C, (D, (E, (F, (G, (H, (I, (J, (K, (L, (M, (N, (O, (P,
            Q))))))))))))))))>::expected(g)
    }

    open spec fn failure(g: Self::Geometry, res: Seq<ResOp>) -> Option<Error> {
        <(A, (B, (C, (D, (E, (F, (G, (H, (I, (J, (K, (L, (M, (N, (O, (P,
            Q))))))))))))))))>::failure(g, res)
    }

    open spec fn yields(g: Self::Geometry, res: Seq<ResOp>, v: Self::Response) -> bool {
        <(A, (B, (C, (D, (E, (F, (G, (H, (I, (J, (K, (L, (M, (N, (O, (P,
            Q))))))))))))))))>::yields(g, res, (v.0, (v.1, (v.2, (v.3, (v.4, (v.5, (v.6, (v.7, (v.8,
            (v.9, (v.10, (v.11, (v.12, (v.13, (v.14, (v.15, v.16)))))))))))))))))
    }

    proof fn lemma_expected(self, g: Self::Geometry) {
        (self.0, (self.1, (self.2, (self.3, (self.4, (self.5, (self.6, (self.7, (self.8, (self.9,
            (self.10, (self.11, (self.12, (self.13, (self.14, (self.15,
            self.16)))))))))))))))).lemma_expected(g);
    }

    proof fn lemma_failure(g: Self::Geometry, res: Seq<ResOp>) {
        <(A, (B, (C, (D, (E, (F, (G, (H, (I, (J, (K, (L, (M, (N, (O, (P,
            Q))))))))))))))))>::lemma_failure(g, res);
    }

    fn into_arg_array(self) -> (r: (Vec<ArgOp>, Self::Geometry)) {
        let (r0, r1, r2, r3, r4, r5, r6, r7, r8, r9, r10, r11, r12, r13, r14, r15, r16) = self;
        (r0, (r1, (r2, (r3, (r4, (r5, (r6, (r7, (r8, (r9, (r10, (r11, (r12, (r13, (r14, (r15,
            r16)))))))))))))))).into_arg_array()
    }

    fn process_reply(res_array: &mut VecDeque<ResOp>, geometry: &Self::Geometry) -> (r: Result<
        Self::Response,
        Error,
    >) {
        let (v0, (v1, (v2, (v3, (v4, (v5, (v6, (v7, (v8, (v9, (v10, (v11, (v12, (v13, (v14, (v15,
            v16)))))))))))))))) = <(A, (B, (C, (D, (E, (F, (G, (H, (I, (J, (K, (L, (M, (N, (O, (P,
            Q))))))))))))))))>::process_reply(res_array, geometry)?;
        Ok((v0, v1, v2, v3, v4, v5, v6, v7, v8, v9, v10, v11, v12, v13, v14, v15, v16))
    }
}

/// A prologue and a request: the operations of both are sent, both results
/// are taken, and the result of the second is given back.
pub struct ReturnSecond<A, B>(pub A, pub B);

impl<A: CompoundRequest, B: CompoundRequest> CompoundRequest for ReturnSecond<A, B> {
    type Response = B::Response;

    type Geometry = (A::Geometry, B::Geometry);

    open spec fn arg_ops(self) -> Seq<ArgOp> {
        self.0.arg_ops() + self.1.arg_ops()
    }

    open spec fn is_geometry(self, g: Self::Geometry) -> bool {
        self.0.is_geometry(g.0) && self.1.is_geometry(g.1)
    }

    open spec fn expected(g: Self::Geometry) -> Seq<OperationId> {
        A::expected(g.0) + B::expected(g.1)
    }

    open spec fn failure(g: Self::Geometry, res: Seq<ResOp>) -> Option<Error> {
        match A::failure(g.0, res) {
            Some(e) => Some(e),
            None => B::failure(g.1, res.skip(A::expected(g.0).len() as int)),
        }
    }

    open spec fn yields(g: Self::Geometry, res: Seq<ResOp>, v: Self::Response) -> bool {
        B::yields(g.1, res.skip(A::expected(g.0).len() as int), v)
    }

    proof fn lemma_expected(self, g: Self::Geometry) {
        self.0.lemma_expected(g.0);
        self.1.lemma_expected(g.1);
        assert(kinds(self.0.arg_ops() + self.1.arg_ops()) =~= kinds(self.0.arg_ops()) + kinds(
            self.1.arg_ops(),
        ));
    }

    proof fn lemma_failure(g: Self::Geometry, res: Seq<ResOp>) {
        A::lemma_failure(g.0, res);
        B::lemma_failure(g.1, res.skip(A::expected(g.0).len() as int));
        lemma_first_failure_concat(A::expected(g.0), B::expected(g.1), res);
    }

    fn into_arg_array(self) -> (r: (Vec<ArgOp>, Self::Geometry)) {
        let (mut ops, g0) = self.0.into_arg_array();
        let (mut more, g1) = self.1.into_arg_array();
        ops.append(&mut more);
        (ops, (g0, g1))
    }

    fn process_reply(res_array: &mut VecDeque<ResOp>, geometry: &Self::Geometry) -> (r: Result<
        Self::Response,
        Error,
    >) {
        let _ = A::process_reply(res_array, &geometry.0)?;
        let b = B::process_reply(res_array, &geometry.1)?;
        proof {
            let res = old(res_array)@;
            let na = A::expected(geometry.0).len() as int;
            let nb = B::expected(geometry.1).len() as int;
            A::lemma_failure(geometry.0, res);
            B::lemma_failure(geometry.1, res.skip(na));
            lemma_first_failure_none(A::expected(geometry.0), res);
            lemma_first_failure_none(B::expected(geometry.1), res.skip(na));
            assert(res.skip(na).skip(nb) =~= res.skip(na + nb));
        }
        Ok(b)
    }
}


/// The calls of a sequence of requests, one request after the other.
pub open spec fn flat_ops<T: CompoundRequest>(items: Seq<T>) -> Seq<ArgOp>
    decreases items.len(),
{
    if items.len() == 0 {
        Seq::empty()
    } else {
        flat_ops(items.drop_last()) + items.last().arg_ops()
    }
}

/// The operations whose results a sequence of requests takes.
pub open spec fn flat_expected<T: CompoundRequest>(gs: Seq<T::Geometry>) -> Seq<OperationId>
    decreases gs.len(),
{
    if gs.len() == 0 {
        Seq::empty()
    } else {
        flat_expected::<T>(gs.drop_last()) + T::expected(gs.last())
    }
}

/// Why the results `res` do not give each of a sequence of requests its
/// result, if they do not: the failure of the first request that has one.
pub open spec fn flat_failure<T: CompoundRequest>(gs: Seq<T::Geometry>, res: Seq<ResOp>) -> Option<
    Error,
>
    decreases gs.len(),
{
    if gs.len() == 0 {
        None
    } else {
        match flat_failure::<T>(gs.drop_last(), res) {
            Some(e) => Some(e),
            None => T::failure(
                gs.last(),
                res.skip(flat_expected::<T>(gs.drop_last()).len() as int),
            ),
        }
    }
}

pub proof fn lemma_flat_expected<T: CompoundRequest>(items: Seq<T>, gs: Seq<T::Geometry>)
    requires
        items.len() == gs.len(),
        forall|i: int| 0 <= i < items.len() ==> (#[trigger] items[i]).is_geometry(gs[i]),
    ensures
        kinds(flat_ops(items)) == flat_expected::<T>(gs),
    decreases items.len(),
{
    if items.len() == 0 {
        assert(kinds(flat_ops(items)) =~= flat_expected::<T>(gs));
    } else {
        assert forall|i: int|
            0 <= i < items.len() - 1 implies (#[trigger] items.drop_last()[i]).is_geometry(
            gs.drop_last()[i],
        ) by {
            assert(items[i].is_geometry(gs[i]));
        }
        lemma_flat_expected::<T>(items.drop_last(), gs.drop_last());
        assert(items.last().is_geometry(gs.last())) by {
            assert(items[items.len() - 1].is_geometry(gs[items.len() - 1]));
        }
        items.last().lemma_expected(gs.last());
        assert(kinds(flat_ops(items.drop_last()) + items.last().arg_ops()) =~= kinds(
            flat_ops(items.drop_last()),
        ) + kinds(items.last().arg_ops()));
    }
}

pub proof fn lemma_flat_failure<T: CompoundRequest>(gs: Seq<T::Geometry>, res: Seq<ResOp>)
    ensures
        flat_failure::<T>(gs, res) == first_failure(flat_expected::<T>(gs), res),
    decreases gs.len(),
{
    if gs.len() > 0 {
        let init = gs.drop_last();
        lemma_flat_failure::<T>(init, res);
        T::lemma_failure(gs.last(), res.skip(flat_expected::<T>(init).len() as int));
        lemma_first_failure_concat(flat_expected::<T>(init), T::expected(gs.last()), res);
    }
}

/// Once a request of a sequence has failed, those after it do not matter.
pub proof fn lemma_flat_failure_stays<T: CompoundRequest>(
    gs: Seq<T::Geometry>,
    n: int,
    res: Seq<ResOp>,
)
    requires
        0 <= n <= gs.len(),
        flat_failure::<T>(gs.take(n), res) is Some,
    ensures
        flat_failure::<T>(gs, res) == flat_failure::<T>(gs.take(n), res),
    decreases gs.len() - n,
{
    if n < gs.len() {
        assert(gs.take(n + 1).drop_last() =~= gs.take(n));
        lemma_flat_failure_stays::<T>(gs, n + 1, res);
    } else {
        assert(gs.take(n) =~= gs);
    }
}

impl<T: CompoundRequest> CompoundRequest for Vec<T> {
    type Response = Vec<T::Response>;

    type Geometry = Vec<T::Geometry>;

    open spec fn arg_ops(self) -> Seq<ArgOp> {
        flat_ops(self@)
    }

    open spec fn is_geometry(self, g: Self::Geometry) -> bool {
        g@.len() == self@.len() && forall|i: int|
            0 <= i < self@.len() ==> (#[trigger] self@[i]).is_geometry(g@[i])
    }

    open spec fn expected(g: Self::Geometry) -> Seq<OperationId> {
        flat_expected::<T>(g@)
    }

    open spec fn failure(g: Self::Geometry, res: Seq<ResOp>) -> Option<Error> {
        flat_failure::<T>(g@, res)
    }

    open spec fn yields(g: Self::Geometry, res: Seq<ResOp>, v: Self::Response) -> bool {
        v@.len() == g@.len() && forall|i: int|
            0 <= i < g@.len() ==> T::yields(
                g@[i],
                res.skip(flat_expected::<T>(g@.take(i)).len() as int),
                #[trigger] v@[i],
            )
    }

    proof fn lemma_expected(self, g: Self::Geometry) {
        lemma_flat_expected::<T>(self@, g@);
    }

    proof fn lemma_failure(g: Self::Geometry, res: Seq<ResOp>) {
        lemma_flat_failure::<T>(g@, res);
    }

    fn into_arg_array(self) -> (r: (Vec<ArgOp>, Self::Geometry)) {
        let ghost all = self@;
        let mut items = self;
        let mut ops: Vec<ArgOp> = Vec::new();
        let mut gs: Vec<T::Geometry> = Vec::new();
        assert(all.take(0) =~= Seq::<T>::empty());
        assert(all.skip(0) =~= all);
        assert(ops@ =~= flat_ops(all.take(0)));
        while items.len() > 0
            invariant
                items@.len() <= all.len(),
                items@ == all.skip(all.len() - items@.len()),
                gs@.len() == all.len() - items@.len(),
                ops@ == flat_ops(all.take(all.len() - items@.len())),
                forall|i: int| 0 <= i < gs@.len() ==> (#[trigger] all[i]).is_geometry(gs@[i]),
            decreases items@.len(),
        {
            let ghost n = all.len() - items@.len();
            let item = items.remove(0);
            assert(item == all[n]);
            let (mut more, g) = item.into_arg_array();
            ops.append(&mut more);
            gs.push(g);
            proof {
                assert(items@ =~= all.skip(n + 1));
                assert(all.take(n + 1).drop_last() =~= all.take(n));
                assert(all.take(n + 1).last() == all[n]);
            }
        }
        assert(all.take(all.len() as int) =~= all);
        (ops, gs)
    }

    fn process_reply(res_array: &mut VecDeque<ResOp>, geometry: &Self::Geometry) -> (r: Result<
        Self::Response,
        Error,
    >) {
        let ghost res = old(res_array)@;
        let ghost gs = geometry@;
        let mut ret: Vec<T::Response> = Vec::new();
        let mut i: usize = 0;
        assert(gs.take(0) =~= Seq::<T::Geometry>::empty());
        assert(res.skip(0) =~= res);
        while i < geometry.len()
            invariant
                i <= gs.len(),
                gs == geometry@,
                res == old(res_array)@,
                ret@.len() == i,
                flat_failure::<T>(gs.take(i as int), res) is None,
                res_array@ == res.skip(flat_expected::<T>(gs.take(i as int)).len() as int),
                forall|j: int|
                    0 <= j < i ==> T::yields(
                        gs[j],
                        res.skip(flat_expected::<T>(gs.take(j)).len() as int),
                        #[trigger] ret@[j],
                    ),
            decreases gs.len() - i,
        {
            let ghost before = ret@;
            let ghost seen = flat_expected::<T>(gs.take(i as int));
            proof {
                assert(gs.take(i + 1).drop_last() =~= gs.take(i as int));
                assert(gs.take(i + 1).last() == gs[i as int]);
                lemma_flat_failure::<T>(gs.take(i as int), res);
                lemma_first_failure_none(seen, res);
                T::lemma_failure(gs[i as int], res.skip(seen.len() as int));
                lemma_first_failure_none(T::expected(gs[i as int]), res.skip(seen.len() as int));
            }
            match T::process_reply(res_array, &geometry[i]) {
                Ok(v) => {
                    ret.push(v);
                    proof {
                        assert(res.skip(seen.len() as int).skip(
                            T::expected(gs[i as int]).len() as int,
                        ) =~= res.skip((seen.len() + T::expected(gs[i as int]).len()) as int));
                        assert forall|j: int| 0 <= j < i + 1 implies T::yields(
                            gs[j],
                            res.skip(flat_expected::<T>(gs.take(j)).len() as int),
                            #[trigger] ret@[j],
                        ) by {
                            if j < i {
                                assert(ret@[j] == before[j]);
                            }
                        }
                    }
                },
                Err(e) => {
                    proof {
                        lemma_flat_failure_stays::<T>(gs, i + 1, res);
                    }
                    return Err(e);
                },
            }
            i += 1;
        }
        assert(gs.take(i as int) =~= gs);
        Ok(ret)
    }
}

/// The tag that every COMPOUND of this client carries.
pub open spec fn compound_tag() -> Seq<char> {
    "Test Client"@
}

/// The minor version of NFSv4 that this client speaks.
pub const MINOR_VERSION: u32 = 1;

/// The COMPOUND request that carries the calls `arg_array`.
pub fn compound_args(arg_array: Vec<ArgOp>) -> (r: CompoundArgs)
    ensures
        r.tag@ == compound_tag(),
        r.minor_version == MINOR_VERSION,
        r.arg_array == arg_array,
{
    CompoundArgs { tag: "Test Client".to_owned(), minor_version: MINOR_VERSION, arg_array }
}

/// Why a COMPOUND reply does not give a request its result, if it does not:
/// the status of the whole, the failure of the request on the results, or
/// results that are left over.
pub open spec fn compound_failure<R: CompoundRequest>(
    status: StatusResult<()>,
    g: R::Geometry,
    res: Seq<ResOp>,
) -> Option<Error> {
    match status {
        StatusResult::Failure(e) => Some(Error::Protocol(e)),
        StatusResult::Success(_) => match R::failure(g, res) {
            Some(e) => Some(e),
            None => if res.len() > R::expected(g).len() {
                Some(Error::CompoundResponseMismatch(Mismatch::TrailingReplies))
            } else {
                None
            },
        },
    }
}

/// Among canonical results, the failure of a lock operation holds a denied
/// lock if and only if its status is `Denied`.
pub proof fn lemma_lock_failure_canonical(
    expected: Seq<OperationId>,
    res: Seq<ResOp>,
    e: LockStatusError,
)
    requires
        canonical_each(res),
        first_failure(expected, res) == Some(Error::Lock(e)),
    ensures
        e.denied is Some <==> e.error == StatusError::Denied,
    decreases expected.len(),
{
    if expected.len() > 0 {
        if one_failure(expected[0], res) is Some {
            assert(res[0].canonical());
        } else {
            let tail = res.drop_first();
            assert forall|i: int| 0 <= i < tail.len() implies (#[trigger] tail[i]).canonical() by {
                assert(tail[i] == res[i + 1]);
            }
            lemma_lock_failure_canonical(expected.drop_first(), tail, e);
        }
    }
}

/// Whatever the request: when a canonical COMPOUND reply fails it with the
/// failure of a lock operation, that failure holds a denied lock if and only
/// if its status is `Denied`.
pub proof fn lemma_reply_lock_failure<R: CompoundRequest>(
    reply: CompoundRes,
    g: R::Geometry,
    e: LockStatusError,
)
    requires
        reply.canonical(),
        compound_failure::<R>(reply.status, g, reply.res_array@) == Some(Error::Lock(e)),
    ensures
        e.denied is Some <==> e.error == StatusError::Denied,
{
    R::lemma_failure(g, reply.res_array@);
    lemma_lock_failure_canonical(R::expected(g), reply.res_array@, e);
}

/// The results in a queue, in the same order.
pub fn into_queue(results: Vec<ResOp>) -> (r: VecDeque<ResOp>)
    ensures
        r@ == results@,
{
    let ghost all = results@;
    let mut results = results;
    let mut queue: VecDeque<ResOp> = VecDeque::new();
    assert(all.take(0) =~= Seq::<ResOp>::empty());
    assert(all.skip(0) =~= all);
    while results.len() > 0
        invariant
            results@.len() <= all.len(),
            results@ == all.skip(all.len() - results@.len()),
            queue@ == all.take(all.len() - results@.len()),
        decreases results@.len(),
    {
        let ghost n = all.len() - results@.len();
        let op = results.remove(0);
        queue.push_back(op);
        proof {
            assert(results@ =~= all.skip(n + 1));
            assert(queue@ =~= all.take(n + 1));
        }
    }
    assert(all.take(all.len() as int) =~= all);
    queue
}

/// Takes the result of a request out of the COMPOUND reply to it.
pub fn finish_compound<R: CompoundRequest>(reply: CompoundRes, geometry: &R::Geometry) -> (r:
    Result<R::Response, Error>)
    ensures
        match r {
            Ok(v) => {
                &&& compound_failure::<R>(reply.status, *geometry, reply.res_array@) is None
                &&& R::yields(*geometry, reply.res_array@, v)
                &&& reply.res_array@.len() == R::expected(*geometry).len()
            },
            Err(e) => compound_failure::<R>(reply.status, *geometry, reply.res_array@) == Some(e),
        },
{
    if let StatusResult::Failure(e) = reply.status {
        return Err(Error::Protocol(e));
    }
    let mut queue = into_queue(reply.res_array);
    let ghost res = queue@;
    let v = R::process_reply(&mut queue, geometry)?;
    proof {
        R::lemma_failure(*geometry, res);
        lemma_first_failure_none(R::expected(*geometry), res);
    }
    if queue.len() != 0 {
        return Err(Error::CompoundResponseMismatch(Mismatch::TrailingReplies));
    }
    Ok(v)
}

} // verus!
