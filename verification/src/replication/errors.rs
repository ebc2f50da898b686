//! Errors met while handling replication requests and replies.
use crate::qpaxos::errors::{
    ProtocolErrorView,
    protocol_error_report, qerror_view, ProtocolError, QError, QErrorView, StorageFailure,
};
use crate::qpaxos::ids::{BallotNum, InstanceId, ReplicaId};
use crate::qpaxos::instance::InstanceStatus;
use vstd::prelude::*;

verus! {

/// Direction tells a request from a reply.
#[derive(Clone, Copy, Debug, PartialEq, Eq, Structural)]
pub enum Direction {
    Request,
    Reply,
}

impl Direction {
    /// from_name returns the direction named exactly `name`.
    pub fn from_name(name: &str) -> (r: Option<Direction>)
        ensures
            r == (if name@ == "Request"@ {
                Some(Direction::Request)
            } else if name@ == "Reply"@ {
                Some(Direction::Reply)
            } else {
                None
            }),
    {
        proof {
            reveal_strlit("Request");
            reveal_strlit("Reply");
        }
        let cs = crate::text::str_chars(name);
        if crate::command::chars_eq(cs.as_slice(), "Request") {
            Some(Direction::Request)
        } else if crate::command::chars_eq(cs.as_slice(), "Reply") {
            Some(Direction::Reply)
        } else {
            None
        }
    }
}

impl core::str::FromStr for Direction {
    type Err = ();

    /// The direction named exactly `s`, or an error for any other name.
    fn from_str(s: &str) -> (r: Result<Direction, ()>)
        ensures
            r == (if s@ == "Request"@ {
                Ok::<Direction, ()>(Direction::Request)
            } else if s@ == "Reply"@ {
                Ok::<Direction, ()>(Direction::Reply)
            } else {
                Err::<Direction, ()>(())
            }),
    {
        match Direction::from_name(s) {
            Some(d) => Ok(d),
            None => Err(()),
        }
    }
}

/// StorageError reports that the storage of a replica failed.
#[derive(Clone, Debug, PartialEq, Eq)]
pub struct StorageError {
    pub msg: String,
}

/// ReplicaError is an error a replica meets while serving a request.
#[derive(Clone, Debug, PartialEq, Eq)]
pub enum ReplicaError {
    Storage(StorageError),
    Existed,
    Protocol(ProtocolError),
    ReplicaNotFound(ReplicaId),
}

/// RpcHandlerError is an error met while handling a request or a reply.
#[derive(Clone, Debug, PartialEq, Eq)]
pub enum RpcHandlerError {
    /// A request or reply was received twice.
    DupRpc(InstanceStatus, Direction, ReplicaId, InstanceId),
    /// The remote replica replied with an error.
    RemoteError(QError),
    /// The ballot is lower than one the remote replica saw.
    StaleBallot(BallotNum, BallotNum),
    /// A malformed message.
    Protocol(ProtocolError),
    /// The replica failed.
    Replica(ReplicaError),
    /// The storage failed.
    Storage(StorageError),
    /// A reply arrived for a phase the instance has left.
    DelayedReply(InstanceStatus, InstanceStatus),
}

/// What a replica error holds, as plain values.
pub enum ReplicaErrorView {
    Storage(Seq<char>),
    Existed,
    Protocol(ProtocolErrorView),
    ReplicaNotFound(i64),
}

impl View for ReplicaError {
    type V = ReplicaErrorView;

    open spec fn view(&self) -> ReplicaErrorView {
        match self {
            ReplicaError::Storage(e) => ReplicaErrorView::Storage(e.msg@),
            ReplicaError::Existed => ReplicaErrorView::Existed,
            ReplicaError::Protocol(e) => ReplicaErrorView::Protocol(e@),
            ReplicaError::ReplicaNotFound(r) => ReplicaErrorView::ReplicaNotFound(*r),
        }
    }
}

/// What a handler error holds, as plain values.
pub enum RpcErrorView {
    DupRpc(InstanceStatus, Direction, i64, InstanceId),
    RemoteError(QErrorView),
    StaleBallot(BallotNum, BallotNum),
    Protocol(ProtocolErrorView),
    Replica(ReplicaErrorView),
    Storage(Seq<char>),
    DelayedReply(InstanceStatus, InstanceStatus),
}

impl View for RpcHandlerError {
    type V = RpcErrorView;

    open spec fn view(&self) -> RpcErrorView {
        match self {
            RpcHandlerError::DupRpc(a, b, c, d) => RpcErrorView::DupRpc(*a, *b, *c, *d),
            RpcHandlerError::RemoteError(q) => RpcErrorView::RemoteError(qerror_view(*q)),
            RpcHandlerError::StaleBallot(a, b) => RpcErrorView::StaleBallot(*a, *b),
            RpcHandlerError::Protocol(e) => RpcErrorView::Protocol(e@),
            RpcHandlerError::Replica(e) => RpcErrorView::Replica(e@),
            RpcHandlerError::Storage(e) => RpcErrorView::Storage(e.msg@),
            RpcHandlerError::DelayedReply(a, b) => RpcErrorView::DelayedReply(*a, *b),
        }
    }
}

/// What a replica error is replied as: the report of a protocol error, and a storage
/// failure for anything else.
pub open spec fn replica_error_reply(e: ReplicaError) -> QErrorView {
    match e {
        ReplicaError::Protocol(p) => (None, Some(protocol_error_report(p@))),
        _ => (Some(StorageFailure {  }), None),
    }
}

/// What a handler error is replied as: the remote error itself, the report of a protocol
/// error, what a replica error is replied as, and a storage failure for anything else.
pub open spec fn rpc_error_reply(e: RpcHandlerError) -> QErrorView {
    match e {
        RpcHandlerError::RemoteError(q) => qerror_view(q),
        RpcHandlerError::Protocol(p) => (None, Some(protocol_error_report(p@))),
        RpcHandlerError::Replica(r) => replica_error_reply(r),
        _ => (Some(StorageFailure {  }), None),
    }
}

impl ReplicaError {
    /// to_qerror returns the error a replica replies with.
    pub fn to_qerror(&self) -> (q: QError)
        ensures
            qerror_view(q) == replica_error_reply(*self),
    {
        match self {
            ReplicaError::Protocol(e) => e.to_qerror(),
            _ => QError::storage_failure(),
        }
    }
}

impl RpcHandlerError {
    /// to_qerror returns the error a replica replies with.
    pub fn to_qerror(&self) -> (q: QError)
        ensures
            qerror_view(q) == rpc_error_reply(*self),
    {
        match self {
            RpcHandlerError::RemoteError(e) => e.copy(),
            RpcHandlerError::Protocol(e) => e.to_qerror(),
            RpcHandlerError::Replica(e) => e.to_qerror(),
            _ => QError::storage_failure(),
        }
    }
}

impl From<ProtocolError> for RpcHandlerError {
    fn from(e: ProtocolError) -> (r: RpcHandlerError) {
        RpcHandlerError::Protocol(e)
    }
}

impl vstd::std_specs::convert::FromSpecImpl<ProtocolError> for RpcHandlerError {
    open spec fn obeys_from_spec() -> bool {
        true
    }

    open spec fn from_spec(e: ProtocolError) -> RpcHandlerError {
        RpcHandlerError::Protocol(e)
    }
}

impl From<ReplicaError> for RpcHandlerError {
    fn from(e: ReplicaError) -> (r: RpcHandlerError) {
        RpcHandlerError::Replica(e)
    }
}

impl vstd::std_specs::convert::FromSpecImpl<ReplicaError> for RpcHandlerError {
    open spec fn obeys_from_spec() -> bool {
        true
    }

    open spec fn from_spec(e: ReplicaError) -> RpcHandlerError {
        RpcHandlerError::Replica(e)
    }
}

impl From<QError> for RpcHandlerError {
    fn from(e: QError) -> (r: RpcHandlerError) {
        RpcHandlerError::RemoteError(e)
    }
}

impl vstd::std_specs::convert::FromSpecImpl<QError> for RpcHandlerError {
    open spec fn obeys_from_spec() -> bool {
        true
    }

    open spec fn from_spec(e: QError) -> RpcHandlerError {
        RpcHandlerError::RemoteError(e)
    }
}

impl From<(BallotNum, BallotNum)> for RpcHandlerError {
    fn from(bb: (BallotNum, BallotNum)) -> (r: RpcHandlerError) {
        RpcHandlerError::StaleBallot(bb.0, bb.1)
    }
}

impl vstd::std_specs::convert::FromSpecImpl<(BallotNum, BallotNum)> for RpcHandlerError {
    open spec fn obeys_from_spec() -> bool {
        true
    }

    open spec fn from_spec(bb: (BallotNum, BallotNum)) -> RpcHandlerError {
        RpcHandlerError::StaleBallot(bb.0, bb.1)
    }
}

} // verus!
