//! Replication messages on epoch-ballot instance records, each built from the instance
//! it is about.
use crate::command::{cmds_view, copy_cmds, Command};
use crate::instance::{BallotNum, Instance, InstanceID};
use vstd::prelude::*;
use vstd::slice::slice_to_vec;

verus! {

/// MsgStatus tells whether a message was handled.
#[derive(Clone, Copy, Debug, PartialEq, Eq, Structural)]
pub enum MsgStatus {
    Success,
    Failed,
}

impl From<MsgStatus> for bool {
    fn from(ms: MsgStatus) -> (b: bool) {
        match ms {
            MsgStatus::Success => true,
            MsgStatus::Failed => false,
        }
    }
}

impl vstd::std_specs::convert::FromSpecImpl<MsgStatus> for bool {
    open spec fn obeys_from_spec() -> bool {
        true
    }

    open spec fn from_spec(ms: MsgStatus) -> bool {
        ms is Success
    }
}

/// RequestCommon is what every request carries: where it goes, under which ballot,
/// for which instance.
#[derive(Clone, Copy, Debug, Default, PartialEq, Eq, Structural)]
pub struct RequestCommon {
    pub to_replica_id: i64,
    pub ballot: Option<BallotNum>,
    pub instance_id: Option<InstanceID>,
}

/// ReplyCommon is what every reply carries: the ballot the replier had seen, and the
/// instance.
#[derive(Clone, Copy, Debug, Default, PartialEq, Eq, Structural)]
pub struct ReplyCommon {
    pub last_ballot: Option<BallotNum>,
    pub instance_id: Option<InstanceID>,
}

/// FastAcceptRequest asks a replica to accept commands with their initial dependencies.
#[derive(Clone, Debug, Default, PartialEq, Eq)]
pub struct FastAcceptRequest {
    pub cmn: Option<RequestCommon>,
    pub cmds: Vec<Command>,
    pub initial_deps: Vec<InstanceID>,
    pub deps_committed: Vec<bool>,
}

/// FastAcceptReply carries the dependencies a replica found.
#[derive(Clone, Debug, Default, PartialEq, Eq)]
pub struct FastAcceptReply {
    pub cmn: Option<ReplyCommon>,
    pub deps: Vec<InstanceID>,
    pub deps_committed: Vec<bool>,
}

/// AcceptRequest asks a replica to accept final dependencies.
#[derive(Clone, Debug, Default, PartialEq, Eq)]
pub struct AcceptRequest {
    pub cmn: Option<RequestCommon>,
    pub final_deps: Vec<InstanceID>,
}

/// AcceptReply answers an accept request.
#[derive(Clone, Copy, Debug, Default, PartialEq, Eq, Structural)]
pub struct AcceptReply {
    pub cmn: Option<ReplyCommon>,
}

/// CommitRequest tells a replica that an instance is committed.
#[derive(Clone, Debug, Default, PartialEq, Eq)]
pub struct CommitRequest {
    pub cmn: Option<RequestCommon>,
    pub cmds: Vec<Command>,
    pub final_deps: Vec<InstanceID>,
}

/// CommitReply answers a commit request.
#[derive(Clone, Copy, Debug, Default, PartialEq, Eq, Structural)]
pub struct CommitReply {
    pub cmn: Option<ReplyCommon>,
}

/// PrepareRequest asks a replica what it knows of an instance.
#[derive(Clone, Copy, Debug, Default, PartialEq, Eq, Structural)]
pub struct PrepareRequest {
    pub cmn: Option<RequestCommon>,
}

/// PrepareReply tells what a replica knows of an instance.
#[derive(Clone, Debug, Default, PartialEq, Eq)]
pub struct PrepareReply {
    pub cmn: Option<ReplyCommon>,
    pub deps: Vec<InstanceID>,
    pub final_deps: Vec<InstanceID>,
    pub committed: bool,
}

/// Request builds the requests about an instance.
pub struct Request {}

/// Reply builds the replies about an instance.
pub struct Reply {}

/// The common part of a request about `inst`.
pub open spec fn request_common(inst: Instance) -> RequestCommon {
    RequestCommon { to_replica_id: 0, ballot: inst.ballot, instance_id: inst.instance_id }
}

/// The common part of a reply about `inst`.
pub open spec fn reply_common(inst: Instance) -> ReplyCommon {
    ReplyCommon { last_ballot: inst.last_ballot, instance_id: inst.instance_id }
}

impl Request {
    /// common returns the part every request about `inst` shares; it is addressed to
    /// replica 0.
    pub fn common(inst: &Instance) -> (r: Option<RequestCommon>)
        ensures
            r == Some(request_common(*inst)),
    {
        Some(RequestCommon { to_replica_id: 0, ballot: inst.ballot, instance_id: inst.instance_id })
    }

    /// fast_accept builds the first-phase request for `inst`.
    pub fn fast_accept(inst: &Instance, deps_committed: &[bool]) -> (r: FastAcceptRequest)
        ensures
            r.cmn == Some(request_common(*inst)),
            cmds_view(r.cmds@) == cmds_view(inst.cmds@),
            r.initial_deps@ == inst.initial_deps@,
            r.deps_committed@ == deps_committed@,
    {
        FastAcceptRequest {
            cmn: Request::common(inst),
            cmds: copy_cmds(inst.cmds.as_slice()),
            initial_deps: slice_to_vec(inst.initial_deps.as_slice()),
            deps_committed: slice_to_vec(deps_committed),
        }
    }

    /// accept builds the accept request for `inst`.
    pub fn accept(inst: &Instance) -> (r: AcceptRequest)
        ensures
            r.cmn == Some(request_common(*inst)),
            r.final_deps@ == inst.final_deps@,
    {
        AcceptRequest { cmn: Request::common(inst), final_deps: slice_to_vec(inst.final_deps.as_slice()) }
    }

    /// commit builds the commit request for `inst`.
    pub fn commit(inst: &Instance) -> (r: CommitRequest)
        ensures
            r.cmn == Some(request_common(*inst)),
            cmds_view(r.cmds@) == cmds_view(inst.cmds@),
            r.final_deps@ == inst.final_deps@,
    {
        CommitRequest {
            cmn: Request::common(inst),
            cmds: copy_cmds(inst.cmds.as_slice()),
            final_deps: slice_to_vec(inst.final_deps.as_slice()),
        }
    }

    /// prepare builds the prepare request for `inst`.
    pub fn prepare(inst: &Instance) -> (r: PrepareRequest)
        ensures
            r.cmn == Some(request_common(*inst)),
    {
        PrepareRequest { cmn: Request::common(inst) }
    }
}

impl Reply {
    /// common returns the part every reply about `inst` shares.
    pub fn common(inst: &Instance) -> (r: Option<ReplyCommon>)
        ensures
            r == Some(reply_common(*inst)),
    {
        Some(ReplyCommon { last_ballot: inst.last_ballot, instance_id: inst.instance_id })
    }

    /// fast_accept builds the first-phase reply for `inst`.
    pub fn fast_accept(inst: &Instance, deps_committed: &[bool]) -> (r: FastAcceptReply)
        ensures
            r.cmn == Some(reply_common(*inst)),
            r.deps@ == inst.deps@,
            r.deps_committed@ == deps_committed@,
    {
        FastAcceptReply {
            cmn: Reply::common(inst),
            deps: slice_to_vec(inst.deps.as_slice()),
            deps_committed: slice_to_vec(deps_committed),
        }
    }

    /// accept builds the accept reply for `inst`.
    pub fn accept(inst: &Instance) -> (r: AcceptReply)
        ensures
            r.cmn == Some(reply_common(*inst)),
    {
        AcceptReply { cmn: Reply::common(inst) }
    }

    /// commit builds the commit reply for `inst`.
    pub fn commit(inst: &Instance) -> (r: CommitReply)
        ensures
            r.cmn == Some(reply_common(*inst)),
    {
        CommitReply { cmn: Reply::common(inst) }
    }

    /// prepare builds the prepare reply for `inst`: what it depends on now and finally,
    /// and whether it is committed.
    pub fn prepare(inst: &Instance) -> (r: PrepareReply)
        ensures
            r.cmn == Some(reply_common(*inst)),
            r.deps@ == inst.deps@,
            r.final_deps@ == inst.final_deps@,
            r.committed == inst.committed,
    {
        PrepareReply {
            cmn: Reply::common(inst),
            deps: slice_to_vec(inst.deps.as_slice()),
            final_deps: slice_to_vec(inst.final_deps.as_slice()),
            committed: inst.committed,
        }
    }
}

} // verus!
