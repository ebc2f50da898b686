//! Instances: the commands a leader proposes, with their ballots and dependencies.
use crate::command::{cmds_view, commands_conflict, copy_cmds, Command, Conflict};
use crate::qpaxos::deps::{lookup, Deps};
use crate::qpaxos::ids::{instance_key, BallotNum, Dep, InstanceId};
use vstd::prelude::*;

verus! {

/// Instance is a proposal of commands by a leader, with what is known of its progress.
#[derive(Clone, Debug, Default, PartialEq, Eq)]
pub struct Instance {
    pub instance_id: Option<InstanceId>,
    pub ballot: Option<BallotNum>,
    pub cmds: Vec<Command>,
    pub deps: Option<Deps>,
    pub vballot: Option<BallotNum>,
    pub committed: bool,
    pub executed: bool,
}

/// The dependencies an optional list holds, as plain values.
pub open spec fn opt_deps_view(d: Option<Deps>) -> Option<Seq<Dep>> {
    match d {
        Some(x) => Some(x@),
        None => None,
    }
}

/// What an instance holds, as plain values: id, ballot, commands, dependencies, the
/// ballot its dependencies were accepted at, whether it is committed, and whether it is
/// executed.
pub type InstanceView = (
    Option<InstanceId>,
    Option<BallotNum>,
    Seq<(i32, Seq<u8>, Seq<u8>)>,
    Option<Seq<Dep>>,
    Option<BallotNum>,
    bool,
    bool,
);

/// What an instance holds, as plain values.
pub open spec fn inst_view(i: Instance) -> InstanceView {
    (
        i.instance_id,
        i.ballot,
        cmds_view(i.cmds@),
        opt_deps_view(i.deps),
        i.vballot,
        i.committed,
        i.executed,
    )
}

/// The progress of an instance.
#[derive(Clone, Copy, Debug, PartialEq, Eq, Structural, PartialOrd, Ord, Hash)]
pub enum InstanceStatus {
    Na,
    Prepared,
    Accepted,
    Committed,
    Executed,
}

/// The progress an instance shows: executed, else committed, else accepted once it has
/// an accepted ballot, else prepared once it has dependencies.
pub open spec fn spec_status(inst: Instance) -> InstanceStatus {
    if inst.executed {
        InstanceStatus::Executed
    } else if inst.committed {
        InstanceStatus::Committed
    } else if inst.vballot is Some {
        InstanceStatus::Accepted
    } else if inst.deps is Some {
        InstanceStatus::Prepared
    } else {
        InstanceStatus::Na
    }
}

/// `a` comes after `b`: every dependency of `b` whose replica `a` also depends on is
/// matched by one of `a` at least as high, and one of them is strictly higher.
pub open spec fn deps_after(a: Seq<Dep>, b: Seq<Dep>) -> bool {
    &&& forall|i: int|
        0 <= i < b.len() ==> match #[trigger] lookup(a, b[i].replica_id) {
            Some(m) => m.idx >= b[i].idx,
            None => true,
        }
    &&& exists|i: int|
        0 <= i < b.len() && match #[trigger] lookup(a, b[i].replica_id) {
            Some(m) => m.idx > b[i].idx,
            None => false,
        }
}

/// Two instances conflict when a command of one conflicts with a command of the other.
pub open spec fn insts_conflict(a: Instance, b: Instance) -> bool {
    cmds_conflict_with(a.cmds@, b)
}

/// Some command of `cmds` conflicts with some command of `l`.
pub open spec fn cmds_conflict_with(cmds: Seq<Command>, l: Instance) -> bool {
    exists|i: int, j: int|
        0 <= i < cmds.len() && 0 <= j < l.cmds@.len() && commands_conflict(
            #[trigger] cmds[i],
            #[trigger] l.cmds@[j],
        )
}

/// cmds_conflict tells whether some command of `cmds` conflicts with some command of
/// `with`.
pub fn cmds_conflict(cmds: &[Command], with: &Instance) -> (r: bool)
    ensures
        r == cmds_conflict_with(cmds@, *with),
{
    let mut i: usize = 0;
    while i < cmds.len()
        invariant
            i <= cmds@.len(),
            forall|x: int, y: int|
                0 <= x < i && 0 <= y < with.cmds@.len() ==> !commands_conflict(
                    #[trigger] cmds@[x],
                    #[trigger] with.cmds@[y],
                ),
        decreases cmds@.len() - i,
    {
        let mut j: usize = 0;
        while j < with.cmds.len()
            invariant
                i < cmds@.len(),
                j <= with.cmds@.len(),
                forall|x: int, y: int|
                    0 <= x < i && 0 <= y < with.cmds@.len() ==> !commands_conflict(
                        #[trigger] cmds@[x],
                        #[trigger] with.cmds@[y],
                    ),
                forall|y: int|
                    0 <= y < j ==> !commands_conflict(cmds@[i as int], #[trigger] with.cmds@[y]),
            decreases with.cmds@.len() - j,
        {
            if cmds[i].conflict(&with.cmds[j]) {
                return true;
            }
            j = j + 1;
        }
        i = i + 1;
    }
    false
}

impl Conflict for Instance {
    open spec fn conflicts_with(&self, with: &Self) -> bool {
        insts_conflict(*self, *with)
    }

    fn conflict(&self, with: &Self) -> (r: bool) {
        cmds_conflict(self.cmds.as_slice(), with)
    }
}

/// Conflict between instances is symmetric.
pub proof fn lemma_instance_conflict_symmetric(a: Instance, b: Instance)
    ensures
        insts_conflict(a, b) == insts_conflict(b, a),
{
    if insts_conflict(a, b) {
        let (i, j) = choose|i: int, j: int|
            0 <= i < a.cmds@.len() && 0 <= j < b.cmds@.len() && commands_conflict(
                #[trigger] a.cmds@[i],
                #[trigger] b.cmds@[j],
            );
        crate::command::lemma_command_conflict_symmetric(a.cmds@[i], b.cmds@[j]);
        assert(commands_conflict(b.cmds@[j], a.cmds@[i]));
    }
    if insts_conflict(b, a) {
        let (i, j) = choose|i: int, j: int|
            0 <= i < b.cmds@.len() && 0 <= j < a.cmds@.len() && commands_conflict(
                #[trigger] b.cmds@[i],
                #[trigger] a.cmds@[j],
            );
        crate::command::lemma_command_conflict_symmetric(b.cmds@[i], a.cmds@[j]);
        assert(commands_conflict(a.cmds@[j], b.cmds@[i]));
    }
}

/// A list in which no replica occurs twice.
pub open spec fn unique_replicas(s: Seq<Dep>) -> bool {
    forall|i: int, j: int|
        0 <= i < j < s.len() ==> #[trigger] s[i].replica_id != #[trigger] s[j].replica_id
}

/// In a list in which no replica occurs twice, each entry is what its replica looks up.
pub proof fn lemma_lookup_unique(s: Seq<Dep>, i: int)
    requires
        unique_replicas(s),
        0 <= i < s.len(),
    ensures
        lookup(s, s[i].replica_id) == Some(s[i]),
{
    assert forall|j: int| 0 <= j < i implies s[j].replica_id != s[i].replica_id by {}
    crate::qpaxos::deps::lemma_first_pos_unique(s, s[i].replica_id, i);
}

/// With no replica twice in a list, no instance comes after itself, and of two instances
/// at most one comes after the other.
pub proof fn lemma_after_irreflexive_asymmetric(a: Seq<Dep>, b: Seq<Dep>)
    requires
        unique_replicas(a),
        unique_replicas(b),
    ensures
        !deps_after(a, a),
        !(deps_after(a, b) && deps_after(b, a)),
{
    if deps_after(a, a) {
        let i = choose|i: int|
            0 <= i < a.len() && match #[trigger] lookup(a, a[i].replica_id) {
                Some(m) => m.idx > a[i].idx,
                None => false,
            };
        lemma_lookup_unique(a, i);
    }
    if deps_after(a, b) && deps_after(b, a) {
        let i = choose|i: int|
            0 <= i < b.len() && match #[trigger] lookup(a, b[i].replica_id) {
                Some(m) => m.idx > b[i].idx,
                None => false,
            };
        let m = lookup(a, b[i].replica_id)->0;
        crate::qpaxos::deps::lemma_first_pos(a, b[i].replica_id);
        let k = crate::qpaxos::deps::first_pos(a, b[i].replica_id)->0;
        lemma_lookup_unique(b, i);
        assert(a[k] == m);
        assert(lookup(b, a[k].replica_id) == Some(b[i]));
        assert(match lookup(b, a[k].replica_id) {
            Some(mm) => mm.idx >= a[k].idx,
            None => true,
        });
    }
}

impl Instance {
    /// to_key returns the storage key of the instance: that of its id, which it must
    /// have, with an index that is not negative.
    pub fn to_key(&self) -> (k: Vec<u8>)
        requires
            self.instance_id matches Some(iid) && iid.idx >= 0,
        ensures
            k@ == instance_key(self.instance_id->0),
    {
        self.instance_id.unwrap().to_key()
    }

    /// of builds an instance of the given commands, ballot and dependencies.
    pub fn of(cmds: &[Command], ballot: BallotNum, deps: &[Dep]) -> (r: Instance)
        ensures
            r.instance_id is None,
            r.ballot == Some(ballot),
            cmds_view(r.cmds@) == cmds_view(cmds@),
            opt_deps_view(r.deps) == Some(deps@),
            r.vballot is None,
            !r.committed,
            !r.executed,
    {
        Instance {
            instance_id: None,
            ballot: Some(ballot),
            cmds: copy_cmds(cmds),
            deps: Some(Deps { dep_vec: vstd::slice::slice_to_vec(deps) }),
            vballot: None,
            committed: false,
            executed: false,
        }
    }

    /// status returns the progress this instance shows.
    pub fn status(&self) -> (s: InstanceStatus)
        ensures
            s == spec_status(*self),
    {
        if self.executed {
            return InstanceStatus::Executed;
        }
        if self.committed {
            return InstanceStatus::Committed;
        }
        if self.vballot.is_some() {
            return InstanceStatus::Accepted;
        }
        if self.deps.is_some() {
            return InstanceStatus::Prepared;
        }
        InstanceStatus::Na
    }

    /// after tells whether this instance comes after `other`. `other` must have
    /// dependencies, and so must this instance when `other` has any.
    pub fn after(&self, other: &Instance) -> (r: bool)
        requires
            other.deps is Some,
            other.deps->0@.len() > 0 ==> self.deps is Some,
        ensures
            r == deps_after(opt_deps_view(self.deps)->0, other.deps->0@),
    {
        let theirs = other.deps.as_ref().unwrap();
        let n = theirs.dep_vec.len();
        if n == 0 {
            return false;
        }
        let mine = self.deps.as_ref().unwrap();
        let ghost a = mine@;
        let ghost b = theirs@;
        assert(a == opt_deps_view(self.deps)->0);
        assert(b == other.deps->0@);
        let mut great = false;
        let mut i: usize = 0;
        while i < n
            invariant
                n == b.len(),
                b == theirs@,
                a == mine@,
                a == opt_deps_view(self.deps)->0,
                b == other.deps->0@,
                i <= n,
                forall|k: int|
                    0 <= k < i ==> match #[trigger] lookup(a, b[k].replica_id) {
                        Some(m) => m.idx >= b[k].idx,
                        None => true,
                    },
                great == exists|k: int|
                    0 <= k < i && match #[trigger] lookup(a, b[k].replica_id) {
                        Some(m) => m.idx > b[k].idx,
                        None => false,
                    },
            decreases n - i,
        {
            let d = theirs.dep_vec[i];
            let myiid = mine.get(d.replica_id);
            match myiid {
                Some(m) => {
                    if m.idx < d.idx {
                        assert(d == b[i as int]);
                        assert(lookup(a, b[i as int].replica_id) == Some(m));
                        assert(!deps_after(a, b));
                        return false;
                    }
                    if m.idx > d.idx {
                        great = true;
                    }
                },
                None => {},
            }
            i = i + 1;
        }
        great
    }
}

} // verus!
