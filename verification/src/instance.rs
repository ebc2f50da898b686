//! Instance records whose ballots carry an epoch, and which keep their initial, current
//! and final dependency lists apart.
use crate::command::{cmds_view, copy_cmds, Command};
use crate::qpaxos::ids::{instance_key, key_of, spec_of_key};
use crate::qpaxos::InstanceId as QInstanceId;
use vstd::prelude::*;
use vstd::slice::slice_to_vec;

verus! {

/// InstanceIdx is the position of an instance among those of its leader.
pub type InstanceIdx = i64;

/// InstanceId names the `idx`-th instance proposed by replica `replica_id`; ids are
/// ordered by replica, then by index.
#[derive(Clone, Copy, Debug, Default, PartialEq, Eq, Structural, Hash, PartialOrd, Ord)]
pub struct InstanceId {
    pub replica_id: i64,
    pub idx: i64,
}

/// InstanceID is the name the rest of this generation uses for `InstanceId`.
pub type InstanceID = InstanceId;

/// The id of the current generation with the same replica and index.
pub open spec fn current_id(iid: InstanceID) -> QInstanceId {
    QInstanceId { replica_id: iid.replica_id, idx: iid.idx }
}

impl InstanceId {
    /// of builds an instance id.
    pub fn of(replica_id: i64, idx: i64) -> (r: InstanceID)
        ensures
            r == (InstanceId { replica_id, idx }),
    {
        InstanceId { replica_id, idx }
    }

    /// of_key reads an instance id from a key `/instance/{replica_id}/{idx}` whose two
    /// numbers are signed decimals. `s` must hold a `/`.
    pub fn of_key(s: &str) -> (r: Option<InstanceID>)
        requires
            s@.contains('/'),
        ensures
            r == (match spec_of_key(s@) {
                Some(q) => Some(InstanceId { replica_id: q.replica_id, idx: q.idx }),
                None => None::<InstanceId>,
            }),
    {
        match QInstanceId::of_key(s) {
            Some(q) => Some(InstanceId { replica_id: q.replica_id, idx: q.idx }),
            None => None,
        }
    }

    /// to_key returns the storage key `/instance/{replica_id:016x}/{idx:016x}`.
    pub fn to_key(&self) -> (k: Vec<u8>)
        ensures
            k@ == instance_key(current_id(*self)),
    {
        key_of(QInstanceId { replica_id: self.replica_id, idx: self.idx })
    }
}

/// BallotNum orders the leaders of an instance: by epoch, then number, then replica.
#[derive(Clone, Copy, Debug, Default, PartialEq, Eq, Structural, Hash, PartialOrd, Ord)]
pub struct BallotNum {
    pub epoch: i32,
    pub num: i32,
    pub replica_id: i64,
}

impl BallotNum {
    /// of builds a ballot.
    pub fn of(epoch: i32, num: i32, replica_id: i64) -> (b: BallotNum)
        ensures
            b == (BallotNum { epoch, num, replica_id }),
    {
        BallotNum { epoch, num, replica_id }
    }
}

/// Instance is a proposal of commands with the dependencies it was given at each step.
#[derive(Clone, Debug, Default, PartialEq, Eq)]
pub struct Instance {
    pub instance_id: Option<InstanceID>,
    pub cmds: Vec<Command>,
    pub ballot: Option<BallotNum>,
    pub last_ballot: Option<BallotNum>,
    pub initial_deps: Vec<InstanceID>,
    pub deps: Vec<InstanceID>,
    pub final_deps: Vec<InstanceID>,
    pub committed: bool,
}

impl Instance {
    /// of builds an instance with commands `cmds`, ballot `ballot` and initial
    /// dependencies `deps`; everything else is empty.
    pub fn of(cmds: &[Command], ballot: &BallotNum, deps: &[InstanceID]) -> (r: Instance)
        ensures
            cmds_view(r.cmds@) == cmds_view(cmds@),
            r.ballot == Some(*ballot),
            r.initial_deps@ == deps@,
            r.instance_id is None,
            r.last_ballot is None,
            r.deps@.len() == 0,
            r.final_deps@.len() == 0,
            !r.committed,
    {
        Instance {
            instance_id: None,
            cmds: copy_cmds(cmds),
            ballot: Some(*ballot),
            last_ballot: None,
            initial_deps: slice_to_vec(deps),
            deps: Vec::new(),
            final_deps: Vec::new(),
            committed: false,
        }
    }
}

} // verus!
