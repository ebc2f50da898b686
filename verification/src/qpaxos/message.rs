//! Replication requests and replies, and building a request of each phase for an
//! instance.
use crate::command::{cmds_view, copy_cmds, Command};
use crate::qpaxos::deps::Deps;
use crate::qpaxos::errors::QError;
use crate::qpaxos::ids::{BallotNum, InstanceId};
use crate::qpaxos::instance::{opt_deps_view, Instance};
use crate::qpaxos::replicate_reply;
use crate::qpaxos::replicate_request;
use vstd::prelude::*;
use vstd::std_specs::convert::{FromSpecImpl, TryFromSpecImpl};

verus! {

/// PrepareRequest asks a replica to record the instance and reply with its dependencies.
#[derive(Clone, Debug, Default, PartialEq, Eq)]
pub struct PrepareRequest {
    pub cmds: Vec<Command>,
    pub deps: Option<Deps>,
    pub deps_committed: Vec<bool>,
}

/// AcceptRequest asks a replica to accept the dependencies of the instance.
#[derive(Clone, Debug, Default, PartialEq, Eq)]
pub struct AcceptRequest {
    pub deps: Option<Deps>,
}

/// CommitRequest tells a replica the instance is committed with these commands and
/// dependencies.
#[derive(Clone, Debug, Default, PartialEq, Eq)]
pub struct CommitRequest {
    pub cmds: Vec<Command>,
    pub deps: Option<Deps>,
}

/// PrepareReply returns the dependencies a replica sees, and which are committed.
#[derive(Clone, Debug, Default, PartialEq, Eq)]
pub struct PrepareReply {
    pub deps: Option<Deps>,
    pub deps_committed: Vec<bool>,
}

/// AcceptReply acknowledges an accept request.
#[derive(Clone, Copy, Debug, Default, PartialEq, Eq, Structural)]
pub struct AcceptReply {}

/// CommitReply acknowledges a commit request.
#[derive(Clone, Copy, Debug, Default, PartialEq, Eq, Structural)]
pub struct CommitReply {}

/// ReplicateRequest is a replication request for an instance.
#[derive(Clone, Debug, Default, PartialEq, Eq)]
pub struct ReplicateRequest {
    pub to_replica_id: i64,
    pub ballot: Option<BallotNum>,
    pub instance_id: Option<InstanceId>,
    pub phase: Option<replicate_request::Phase>,
}

/// ReplicateReply is a replica's reply to a replication request.
#[derive(Clone, Debug, Default, PartialEq, Eq)]
pub struct ReplicateReply {
    pub err: Option<QError>,
    pub last_ballot: Option<BallotNum>,
    pub instance_id: Option<InstanceId>,
    pub phase: Option<replicate_reply::Phase>,
}

/// copy_opt_deps returns a copy of an optional dependency list.
pub fn copy_opt_deps(d: &Option<Deps>) -> (r: Option<Deps>)
    ensures
        opt_deps_view(r) == opt_deps_view(*d),
{
    match d {
        Some(x) => Some(x.copy()),
        None => None,
    }
}

/// copy_bools returns a copy of a list of flags.
pub fn copy_bools(v: &[bool]) -> (r: Vec<bool>)
    ensures
        r@ == v@,
{
    vstd::slice::slice_to_vec(v)
}

/// MakeRequest builds replication requests for an instance.
pub struct MakeRequest {}

/// A request to replica `to` of the phase given, for the ballot and id of `inst`.
pub open spec fn request_for(r: ReplicateRequest, to: i64, inst: Instance) -> bool {
    &&& r.to_replica_id == to
    &&& r.ballot == inst.ballot
    &&& r.instance_id == inst.instance_id
    &&& r.phase is Some
}

impl MakeRequest {
    /// prepare builds the request of the first phase: the commands and dependencies of
    /// `inst`, and which dependencies are committed.
    pub fn prepare(to_replica_id: i64, inst: &Instance, deps_committed: &[bool]) -> (r:
        ReplicateRequest)
        ensures
            request_for(r, to_replica_id, *inst),
            r.phase->0 matches replicate_request::Phase::Prepare(p) && cmds_view(p.cmds@)
                == cmds_view(inst.cmds@) && opt_deps_view(p.deps) == opt_deps_view(inst.deps)
                && p.deps_committed@ == deps_committed@,
    {
        let p = PrepareRequest {
            cmds: copy_cmds(inst.cmds.as_slice()),
            deps: copy_opt_deps(&inst.deps),
            deps_committed: copy_bools(deps_committed),
        };
        ReplicateRequest {
            to_replica_id,
            ballot: inst.ballot,
            instance_id: inst.instance_id,
            phase: Some(replicate_request::Phase::Prepare(p)),
        }
    }

    /// fast_accept builds the request of the fast-accept phase, which is the first phase:
    /// the same request `prepare` builds.
    pub fn fast_accept(to_replica_id: i64, inst: &Instance, deps_committed: &[bool]) -> (r:
        ReplicateRequest)
        ensures
            request_for(r, to_replica_id, *inst),
            r.phase->0 matches replicate_request::Phase::Prepare(p) && cmds_view(p.cmds@)
                == cmds_view(inst.cmds@) && opt_deps_view(p.deps) == opt_deps_view(inst.deps)
                && p.deps_committed@ == deps_committed@,
    {
        MakeRequest::prepare(to_replica_id, inst, deps_committed)
    }

    /// accept builds the request of the accept phase: the dependencies of `inst`.
    pub fn accept(to_replica_id: i64, inst: &Instance) -> (r: ReplicateRequest)
        ensures
            request_for(r, to_replica_id, *inst),
            r.phase->0 matches replicate_request::Phase::Accept(p) && opt_deps_view(p.deps)
                == opt_deps_view(inst.deps),
    {
        let p = AcceptRequest { deps: copy_opt_deps(&inst.deps) };
        ReplicateRequest {
            to_replica_id,
            ballot: inst.ballot,
            instance_id: inst.instance_id,
            phase: Some(replicate_request::Phase::Accept(p)),
        }
    }

    /// commit builds the request of the commit phase: the commands and dependencies of
    /// `inst`.
    pub fn commit(to_replica_id: i64, inst: &Instance) -> (r: ReplicateRequest)
        ensures
            request_for(r, to_replica_id, *inst),
            r.phase->0 matches replicate_request::Phase::Commit(p) && cmds_view(p.cmds@)
                == cmds_view(inst.cmds@) && opt_deps_view(p.deps) == opt_deps_view(inst.deps),
    {
        let p = CommitRequest {
            cmds: copy_cmds(inst.cmds.as_slice()),
            deps: copy_opt_deps(&inst.deps),
        };
        ReplicateRequest {
            to_replica_id,
            ballot: inst.ballot,
            instance_id: inst.instance_id,
            phase: Some(replicate_request::Phase::Commit(p)),
        }
    }
}

impl From<PrepareRequest> for replicate_request::Phase {
    fn from(p: PrepareRequest) -> (r: replicate_request::Phase) {
        replicate_request::Phase::Prepare(p)
    }
}

impl FromSpecImpl<PrepareRequest> for replicate_request::Phase {
    open spec fn obeys_from_spec() -> bool {
        true
    }

    open spec fn from_spec(p: PrepareRequest) -> replicate_request::Phase {
        replicate_request::Phase::Prepare(p)
    }
}

impl From<AcceptRequest> for replicate_request::Phase {
    fn from(p: AcceptRequest) -> (r: replicate_request::Phase) {
        replicate_request::Phase::Accept(p)
    }
}

impl FromSpecImpl<AcceptRequest> for replicate_request::Phase {
    open spec fn obeys_from_spec() -> bool {
        true
    }

    open spec fn from_spec(p: AcceptRequest) -> replicate_request::Phase {
        replicate_request::Phase::Accept(p)
    }
}

impl From<CommitRequest> for replicate_request::Phase {
    fn from(p: CommitRequest) -> (r: replicate_request::Phase) {
        replicate_request::Phase::Commit(p)
    }
}

impl FromSpecImpl<CommitRequest> for replicate_request::Phase {
    open spec fn obeys_from_spec() -> bool {
        true
    }

    open spec fn from_spec(p: CommitRequest) -> replicate_request::Phase {
        replicate_request::Phase::Commit(p)
    }
}

impl From<PrepareReply> for replicate_reply::Phase {
    fn from(p: PrepareReply) -> (r: replicate_reply::Phase) {
        replicate_reply::Phase::Prepare(p)
    }
}

impl FromSpecImpl<PrepareReply> for replicate_reply::Phase {
    open spec fn obeys_from_spec() -> bool {
        true
    }

    open spec fn from_spec(p: PrepareReply) -> replicate_reply::Phase {
        replicate_reply::Phase::Prepare(p)
    }
}

impl From<AcceptReply> for replicate_reply::Phase {
    fn from(p: AcceptReply) -> (r: replicate_reply::Phase) {
        replicate_reply::Phase::Accept(p)
    }
}

impl FromSpecImpl<AcceptReply> for replicate_reply::Phase {
    open spec fn obeys_from_spec() -> bool {
        true
    }

    open spec fn from_spec(p: AcceptReply) -> replicate_reply::Phase {
        replicate_reply::Phase::Accept(p)
    }
}

impl From<CommitReply> for replicate_reply::Phase {
    fn from(p: CommitReply) -> (r: replicate_reply::Phase) {
        replicate_reply::Phase::Commit(p)
    }
}

impl FromSpecImpl<CommitReply> for replicate_reply::Phase {
    open spec fn obeys_from_spec() -> bool {
        true
    }

    open spec fn from_spec(p: CommitReply) -> replicate_reply::Phase {
        replicate_reply::Phase::Commit(p)
    }
}

impl TryFrom<replicate_request::Phase> for PrepareRequest {
    type Error = ();

    fn try_from(p: replicate_request::Phase) -> (r: Result<PrepareRequest, ()>) {
        match p {
            replicate_request::Phase::Prepare(x) => Ok(x),
            _ => Err(()),
        }
    }
}

impl TryFromSpecImpl<replicate_request::Phase> for PrepareRequest {
    open spec fn obeys_try_from_spec() -> bool {
        true
    }

    open spec fn try_from_spec(p: replicate_request::Phase) -> Result<PrepareRequest, ()> {
        match p {
            replicate_request::Phase::Prepare(x) => Ok(x),
            _ => Err(()),
        }
    }
}

impl TryFrom<replicate_request::Phase> for AcceptRequest {
    type Error = ();

    fn try_from(p: replicate_request::Phase) -> (r: Result<AcceptRequest, ()>) {
        match p {
            replicate_request::Phase::Accept(x) => Ok(x),
            _ => Err(()),
        }
    }
}

impl TryFromSpecImpl<replicate_request::Phase> for AcceptRequest {
    open spec fn obeys_try_from_spec() -> bool {
        true
    }

    open spec fn try_from_spec(p: replicate_request::Phase) -> Result<AcceptRequest, ()> {
        match p {
            replicate_request::Phase::Accept(x) => Ok(x),
            _ => Err(()),
        }
    }
}

impl TryFrom<replicate_request::Phase> for CommitRequest {
    type Error = ();

    fn try_from(p: replicate_request::Phase) -> (r: Result<CommitRequest, ()>) {
        match p {
            replicate_request::Phase::Commit(x) => Ok(x),
            _ => Err(()),
        }
    }
}

impl TryFromSpecImpl<replicate_request::Phase> for CommitRequest {
    open spec fn obeys_try_from_spec() -> bool {
        true
    }

    open spec fn try_from_spec(p: replicate_request::Phase) -> Result<CommitRequest, ()> {
        match p {
            replicate_request::Phase::Commit(x) => Ok(x),
            _ => Err(()),
        }
    }
}

impl TryFrom<replicate_reply::Phase> for PrepareReply {
    type Error = ();

    fn try_from(p: replicate_reply::Phase) -> (r: Result<PrepareReply, ()>) {
        match p {
            replicate_reply::Phase::Prepare(x) => Ok(x),
            _ => Err(()),
        }
    }
}

impl TryFromSpecImpl<replicate_reply::Phase> for PrepareReply {
    open spec fn obeys_try_from_spec() -> bool {
        true
    }

    open spec fn try_from_spec(p: replicate_reply::Phase) -> Result<PrepareReply, ()> {
        match p {
            replicate_reply::Phase::Prepare(x) => Ok(x),
            _ => Err(()),
        }
    }
}

} // verus!
