//! A replica and how it answers replication requests: the decisions, given the instance
//! it has stored and the instances it holds of each replica of its group.
use crate::command::{cmds_view, commands_conflict, copy_cmds, Command, Conflict};
use crate::qpaxos::deps::{
    deps_from_iids, deps_of_iids, lemma_first_pos, lookup, set_item, set_result, Deps, InstanceIdVec,
};
use crate::conf::{ascending_keys, ascending_of, group_known, replica_node, ClusterInfo};
use crate::qpaxos::errors::{ProtocolError, ProtocolErrorView};
use crate::qpaxos::ids::{dep_of, opt_ballot_lt, opt_ballot_precedes, BallotNum, Dep, InstanceId, ReplicaId};
use crate::qpaxos::instance::{
    cmds_conflict, cmds_conflict_with, inst_view, opt_deps_view, Instance, InstanceView,
};
use crate::qpaxos::message::{
    copy_bools, copy_opt_deps, AcceptReply, AcceptRequest, CommitReply, CommitRequest,
    PrepareReply, PrepareRequest, ReplicateReply, ReplicateRequest,
};
use crate::qpaxos::replicate_reply;
use crate::qpaxos::replicate_request::Phase;
use crate::replication::errors::{ReplicaError, RpcErrorView, RpcHandlerError};
use vstd::prelude::*;

verus! {

/// ReplicaPeer is another replica of the group, and where to reach it.
#[derive(Clone, Debug, PartialEq, Eq)]
pub struct ReplicaPeer {
    pub replica_id: ReplicaId,
    pub addr: String,
    pub alive: bool,
}

impl ReplicaPeer {
    /// new describes a peer.
    pub fn new(rid: ReplicaId, addr: String, alive: bool) -> (p: ReplicaPeer)
        ensures
            p == (ReplicaPeer { replica_id: rid, addr, alive }),
    {
        ReplicaPeer { replica_id: rid, addr, alive }
    }
}

impl From<(ReplicaId, String, bool)> for ReplicaPeer {
    fn from(t: (ReplicaId, String, bool)) -> (p: ReplicaPeer) {
        ReplicaPeer::new(t.0, t.1, t.2)
    }
}

impl vstd::std_specs::convert::FromSpecImpl<(ReplicaId, String, bool)> for ReplicaPeer {
    open spec fn obeys_from_spec() -> bool {
        true
    }

    open spec fn from_spec(t: (ReplicaId, String, bool)) -> ReplicaPeer {
        ReplicaPeer { replica_id: t.0, addr: t.1, alive: t.2 }
    }
}

impl<'a> From<(ReplicaId, &'a str, bool)> for ReplicaPeer {
    fn from(t: (ReplicaId, &'a str, bool)) -> (p: ReplicaPeer)
        ensures
            p.replica_id == t.0,
            p.addr@ == t.1@,
            p.alive == t.2,
    {
        ReplicaPeer::new(t.0, String::from_str(t.1), t.2)
    }
}

impl<'a> vstd::std_specs::convert::FromSpecImpl<(ReplicaId, &'a str, bool)> for ReplicaPeer {
    open spec fn obeys_from_spec() -> bool {
        false
    }

    open spec fn from_spec(t: (ReplicaId, &'a str, bool)) -> ReplicaPeer {
        arbitrary()
    }
}

/// Replica is one replica of a replication group.
#[derive(Debug)]
pub struct Replica {
    pub replica_id: ReplicaId,
    pub group_replica_ids: Vec<ReplicaId>,
    pub peers: Vec<ReplicaPeer>,
    pub committed_timeout: i32,
}

/// A dependency list holds, for the replica of `iid`, an instance at least as high.
pub open spec fn deps_reach(s: Seq<Dep>, iid: InstanceId) -> bool {
    lookup(s, iid.replica_id) matches Some(d) && d.idx >= iid.idx
}

/// A dependency list holds, for the replica of `iid`, an instance strictly higher.
pub open spec fn deps_pass(s: Seq<Dep>, iid: InstanceId) -> bool {
    lookup(s, iid.replica_id) matches Some(d) && d.idx > iid.idx
}

/// A local instance the incoming one (with commands `cmds`) has to be ordered with: it
/// does not already depend on the incoming instance or a later one of its leader, and
/// it conflicts with it or is committed.
pub open spec fn interferes(l: Instance, iid: InstanceId, cmds: Seq<Command>) -> bool {
    !deps_reach(opt_deps_view(l.deps)->0, iid) && (cmds_conflict_with(cmds, l) || l.committed)
}

/// The position of the first local instance in `ls` that interferes.
pub open spec fn first_interfering(ls: Seq<Instance>, iid: InstanceId, cmds: Seq<Command>) -> Option<int>
    decreases ls.len(),
{
    if ls.len() == 0 {
        None
    } else {
        match first_interfering(ls.drop_last(), iid, cmds) {
            Some(p) => Some(p),
            None => if interferes(ls.last(), iid, cmds) {
                Some(ls.len() - 1)
            } else {
                None
            },
        }
    }
}

/// The dependencies and committed flags after seeing the first interfering instance `l`
/// of a replica: unless the request already depends on a later one, the dependency on
/// `l` replaces the one on its replica, and its flag records whether `l` is committed.
pub open spec fn add_interfering(st: (Seq<Dep>, Seq<bool>), req_deps: Seq<Dep>, l: Instance) -> (
    Seq<Dep>,
    Seq<bool>,
) {
    let liid = l.instance_id->0;
    if deps_pass(req_deps, liid) {
        st
    } else {
        let d = dep_of(liid);
        let ith = set_result(st.0, d).0 as int;
        (
            set_item(st.0, d),
            if ith == st.1.len() {
                st.1.push(l.committed)
            } else {
                st.1.update(ith, st.1[ith] || l.committed)
            },
        )
    }
}

/// The dependencies and committed flags a replica replies in the first phase, after
/// looking at the instances it holds of each replica of its group, highest first.
pub open spec fn fast_accept_deps(
    st: (Seq<Dep>, Seq<bool>),
    req_deps: Seq<Dep>,
    iid: InstanceId,
    cmds: Seq<Command>,
    locals: Seq<Seq<Instance>>,
) -> (Seq<Dep>, Seq<bool>)
    decreases locals.len(),
{
    if locals.len() == 0 {
        st
    } else {
        let prev = fast_accept_deps(st, req_deps, iid, cmds, locals.drop_last());
        let ls = locals.last();
        match first_interfering(ls, iid, cmds) {
            None => prev,
            Some(p) => add_interfering(prev, req_deps, ls[p]),
        }
    }
}

/// Seeing the interfering instance `l` touches a committed flag that exists or the one
/// just past the end: the dependency on `l` lands at a position no further than the
/// number of flags.
pub open spec fn flag_fits(st: (Seq<Dep>, Seq<bool>), req_deps: Seq<Dep>, l: Instance) -> bool {
    deps_pass(req_deps, l.instance_id->0) || set_result(st.0, dep_of(l.instance_id->0)).0 <= st.1.len()
}

/// Seeing an interfering instance never clears a committed flag, nor drops one.
pub proof fn lemma_add_interfering_keeps_flags(st: (Seq<Dep>, Seq<bool>), req_deps: Seq<Dep>, l: Instance)
    requires
        flag_fits(st, req_deps, l),
    ensures
        add_interfering(st, req_deps, l).1.len() >= st.1.len(),
        forall|i: int| 0 <= i < st.1.len() && st.1[i] ==> #[trigger] add_interfering(st, req_deps, l).1[i],
{
    let liid = l.instance_id->0;
    if !deps_pass(req_deps, liid) {
        let ith = set_result(st.0, dep_of(liid)).0 as int;
        let fl = add_interfering(st, req_deps, l).1;
        if ith == st.1.len() {
            assert(fl == st.1.push(l.committed));
            assert forall|i: int| 0 <= i < st.1.len() && st.1[i] implies #[trigger] fl[i] by {
                assert(fl[i] == st.1[i]);
            }
        } else {
            assert(0 <= ith < st.1.len());
            assert(fl == st.1.update(ith, st.1[ith] || l.committed));
            assert forall|i: int| 0 <= i < st.1.len() && st.1[i] implies #[trigger] fl[i] by {
                if i != ith {
                    assert(fl[i] == st.1[i]);
                }
            }
        }
    }
}

/// Answering a first-phase request never clears a committed flag the request carried:
/// each flag set in the request is set in the reply, at the same position.
pub proof fn lemma_fast_accept_keeps_flags(
    st: (Seq<Dep>, Seq<bool>),
    req_deps: Seq<Dep>,
    iid: InstanceId,
    cmds: Seq<Command>,
    locals: Seq<Seq<Instance>>,
)
    requires
        flags_fit(st, req_deps, iid, cmds, locals),
    ensures
        fast_accept_deps(st, req_deps, iid, cmds, locals).1.len() >= st.1.len(),
        forall|i: int|
            0 <= i < st.1.len() && st.1[i] ==> #[trigger] fast_accept_deps(st, req_deps, iid, cmds, locals).1[i],
    decreases locals.len(),
{
    if locals.len() > 0 {
        lemma_fast_accept_keeps_flags(st, req_deps, iid, cmds, locals.drop_last());
        let prev = fast_accept_deps(st, req_deps, iid, cmds, locals.drop_last());
        match first_interfering(locals.last(), iid, cmds) {
            None => {},
            Some(p) => {
                lemma_add_interfering_keeps_flags(prev, req_deps, locals.last()[p]);
                assert forall|i: int| 0 <= i < st.1.len() && st.1[i] implies #[trigger] fast_accept_deps(
                    st,
                    req_deps,
                    iid,
                    cmds,
                    locals,
                ).1[i] by {
                    assert(prev.1[i]);
                }
            },
        }
    }
}

/// Every interfering instance seen, of every replica, touches a committed flag that
/// exists or the one just past the end.
pub open spec fn flags_fit(
    st: (Seq<Dep>, Seq<bool>),
    req_deps: Seq<Dep>,
    iid: InstanceId,
    cmds: Seq<Command>,
    locals: Seq<Seq<Instance>>,
) -> bool
    decreases locals.len(),
{
    if locals.len() == 0 {
        true
    } else {
        &&& flags_fit(st, req_deps, iid, cmds, locals.drop_last())
        &&& match first_interfering(locals.last(), iid, cmds) {
            None => true,
            Some(p) => flag_fits(
                fast_accept_deps(st, req_deps, iid, cmds, locals.drop_last()),
                req_deps,
                locals.last()[p],
            ),
        }
    }
}

/// Flags that fit for all the replicas fit for the first `k` of them.
pub proof fn lemma_flags_fit_prefix(
    st: (Seq<Dep>, Seq<bool>),
    req_deps: Seq<Dep>,
    iid: InstanceId,
    cmds: Seq<Command>,
    locals: Seq<Seq<Instance>>,
    k: int,
)
    requires
        0 <= k <= locals.len(),
        flags_fit(st, req_deps, iid, cmds, locals),
    ensures
        flags_fit(st, req_deps, iid, cmds, locals.take(k)),
    decreases locals.len() - k,
{
    if k < locals.len() {
        assert(locals.drop_last() =~= locals.take(locals.len() - 1));
        lemma_flags_fit_prefix(st, req_deps, iid, cmds, locals.drop_last(), k);
        assert(locals.drop_last().take(k) =~= locals.take(k));
    } else {
        assert(locals.take(k) =~= locals);
    }
}

/// Every instance of `ls` that is looked at, that is every one before which no instance
/// interferes, has an id and dependencies.
pub open spec fn examined_complete(ls: Seq<Instance>, iid: InstanceId, cmds: Seq<Command>) -> bool {
    forall|j: int|
        0 <= j < ls.len() && first_interfering(ls.take(j), iid, cmds) is None ==> (
        #[trigger] ls[j]).instance_id is Some && ls[j].deps is Some
}

/// Every instance looked at, of every replica, has an id and dependencies.
pub open spec fn locals_complete(locals: Seq<Vec<Instance>>, iid: InstanceId, cmds: Seq<Command>) -> bool {
    forall|k: int| 0 <= k < locals.len() ==> examined_complete(#[trigger] locals[k]@, iid, cmds)
}

/// The instances of each replica, as sequences.
pub open spec fn locals_view(locals: Seq<Vec<Instance>>) -> Seq<Seq<Instance>> {
    locals.map_values(|v: Vec<Instance>| v@)
}

/// deps_reach_exec tells whether `d` holds, for the replica of `iid`, an instance at
/// least as high.
fn deps_reach_exec(d: &Deps, iid: &InstanceId) -> (r: bool)
    ensures
        r == deps_reach(d@, *iid),
{
    match d.get(iid.replica_id) {
        Some(x) => x.idx >= iid.idx,
        None => false,
    }
}

/// deps_pass_exec tells whether `d` holds, for the replica of `iid`, an instance
/// strictly higher.
fn deps_pass_exec(d: &Deps, iid: &InstanceId) -> (r: bool)
    ensures
        r == deps_pass(d@, *iid),
{
    match d.get(iid.replica_id) {
        Some(x) => x.idx > iid.idx,
        None => false,
    }
}

impl Replica {
    /// handle_prepare answers an explicit prepare; it leaves the instance as it is and
    /// replies with nothing.
    pub fn handle_prepare(&self, req: &PrepareRequest, inst: &mut Instance) -> (r: Result<
        PrepareReply,
        RpcHandlerError,
    >)
        ensures
            *final(inst) == *old(inst),
            r matches Ok(p) && p.deps is None && p.deps_committed@.len() == 0,
    {
        Ok(PrepareReply { deps: None, deps_committed: Vec::new() })
    }

    /// handle_fast_accept records the commands and dependencies of a first-phase request
    /// in `inst`, then adds a dependency on the highest instance of each replica of the
    /// group that the incoming one has to be ordered after, and replies with the
    /// dependencies and which of them are committed. `locals[k]` holds the instances of
    /// the `k`-th replica of the group, highest first.
    pub fn handle_fast_accept(
        &self,
        req: &PrepareRequest,
        inst: &mut Instance,
        locals: &Vec<Vec<Instance>>,
    ) -> (r: Result<PrepareReply, RpcHandlerError>)
        requires
            old(inst).instance_id is Some,
            req.deps is Some,
            locals_complete(locals@, old(inst).instance_id->0, req.cmds@),
            flags_fit(
                (req.deps->0@, req.deps_committed@),
                req.deps->0@,
                old(inst).instance_id->0,
                req.cmds@,
                locals_view(locals@),
            ),
        ensures
            final(inst).instance_id == old(inst).instance_id,
            final(inst).ballot == old(inst).ballot,
            final(inst).vballot == old(inst).vballot,
            final(inst).committed == old(inst).committed,
            final(inst).executed == old(inst).executed,
            cmds_view(final(inst).cmds@) == cmds_view(req.cmds@),
            r matches Ok(p) && ({
                let got = fast_accept_deps(
                    (req.deps->0@, req.deps_committed@),
                    req.deps->0@,
                    old(inst).instance_id->0,
                    req.cmds@,
                    locals_view(locals@),
                );
                &&& opt_deps_view(final(inst).deps) == Some(got.0)
                &&& opt_deps_view(p.deps) == Some(got.0)
                &&& p.deps_committed@ == got.1
            }),
            r matches Ok(p) && p.deps_committed@.len() >= req.deps_committed@.len() && forall|i: int|
                0 <= i < req.deps_committed@.len() && req.deps_committed@[i] ==> #[trigger] p.deps_committed@[i],
    {
        proof {
            lemma_fast_accept_keeps_flags(
                (req.deps->0@, req.deps_committed@),
                req.deps->0@,
                old(inst).instance_id->0,
                req.cmds@,
                locals_view(locals@),
            );
        }
        let iid = inst.instance_id.unwrap();
        let req_deps = req.deps.as_ref().unwrap();
        inst.cmds = copy_cmds(req.cmds.as_slice());
        let mut deps = req_deps.copy();
        let mut deps_committed = copy_bools(req.deps_committed.as_slice());
        let ghost rd = req_deps@;
        let ghost cmds = req.cmds@;
        let mut k: usize = 0;
        while k < locals.len()
            invariant
                locals_complete(locals@, iid, cmds),
                cmds == req.cmds@,
                k <= locals@.len(),
                flags_fit((rd, req.deps_committed@), rd, iid, cmds, locals_view(locals@)),
                (deps@, deps_committed@) == fast_accept_deps(
                    (rd, req.deps_committed@),
                    rd,
                    iid,
                    cmds,
                    locals_view(locals@).take(k as int),
                ),
                rd == req_deps@,
            decreases locals@.len() - k,
        {
            let ls = &locals[k];
            let found = find_interfering(ls, &iid, req.cmds.as_slice());
            proof {
                assert(locals_view(locals@).take(k + 1).drop_last() =~= locals_view(locals@).take(
                    k as int,
                ));
                assert(locals_view(locals@).take(k + 1).last() == ls@);
            }
            let ghost prev = (deps@, deps_committed@);
            let ghost rc = req.deps_committed@;
            proof {
                lemma_flags_fit_prefix((rd, rc), rd, iid, cmds, locals_view(locals@), k + 1);
            }
            assert(fast_accept_deps((rd, rc), rd, iid, cmds, locals_view(locals@).take(k + 1)) == (
            match first_interfering(ls@, iid, cmds) {
                None => prev,
                Some(q) => add_interfering(prev, rd, ls@[q]),
            }));
            match found {
                None => {
                    assert(first_interfering(ls@, iid, cmds) is None);
                },
                Some(p) => {
                    assert(first_interfering(ls@, iid, cmds) == Some(p as int));
                    let l = &ls[p];
                    assert(locals@[k as int]@[p as int] == ls@[p as int]);
                    let liid = l.instance_id.unwrap();
                    if !deps_pass_exec(req_deps, &liid) {
                        let d = Dep { replica_id: liid.replica_id, idx: liid.idx, seq: 0 };
                        proof {
                            lemma_first_pos(deps@, d.replica_id);
                        }
                        let (ith, _) = deps.set(d);
                        if ith == deps_committed.len() {
                            deps_committed.push(l.committed);
                        } else {
                            let c = deps_committed[ith] || l.committed;
                            deps_committed.set(ith, c);
                        }
                    }
                    assert((deps@, deps_committed@) == add_interfering(prev, rd, ls@[p as int]));
                },
            }
            assert((deps@, deps_committed@) == fast_accept_deps((rd, rc), rd, iid, cmds, locals_view(locals@).take(k + 1)));
            k = k + 1;
        }
        assert(locals_view(locals@).take(k as int) =~= locals_view(locals@));
        let reply_deps = deps.copy();
        inst.deps = Some(deps);
        Ok(PrepareReply { deps: Some(reply_deps), deps_committed })
    }

    /// handle_accept records the dependencies of an accept request in `inst`.
    pub fn handle_accept(&self, req: &AcceptRequest, inst: &mut Instance) -> (r: Result<
        AcceptReply,
        RpcHandlerError,
    >)
        ensures
            r is Ok,
            final(inst).instance_id == old(inst).instance_id,
            final(inst).ballot == old(inst).ballot,
            final(inst).vballot == old(inst).vballot,
            final(inst).committed == old(inst).committed,
            final(inst).executed == old(inst).executed,
            cmds_view(final(inst).cmds@) == cmds_view(old(inst).cmds@),
            opt_deps_view(final(inst).deps) == opt_deps_view(req.deps),
    {
        inst.deps = copy_opt_deps(&req.deps);
        Ok(AcceptReply {  })
    }

    /// handle_commit records the commands and dependencies of a commit request in `inst`
    /// and marks it committed.
    pub fn handle_commit(&self, req: &CommitRequest, inst: &mut Instance) -> (r: Result<
        CommitReply,
        RpcHandlerError,
    >)
        ensures
            r is Ok,
            final(inst).instance_id == old(inst).instance_id,
            final(inst).ballot == old(inst).ballot,
            final(inst).vballot == old(inst).vballot,
            final(inst).committed,
            final(inst).executed == old(inst).executed,
            cmds_view(final(inst).cmds@) == cmds_view(req.cmds@),
            opt_deps_view(final(inst).deps) == opt_deps_view(req.deps),
    {
        inst.cmds = copy_cmds(req.cmds.as_slice());
        inst.deps = copy_opt_deps(&req.deps);
        inst.committed = true;
        Ok(CommitReply {  })
    }
}

/// What an instance holds that has only the id `iid`: no ballot, commands or
/// dependencies, and not committed.
pub open spec fn empty_view(iid: Option<InstanceId>) -> InstanceView {
    (iid, None, Seq::empty(), None, None, false, false)
}

/// What the instance a replica works on for `iid` holds: the stored one, or a new one
/// that has only its id.
pub open spec fn start_view(stored: Option<Instance>, iid: InstanceId) -> InstanceView {
    match stored {
        Some(s) => inst_view(s),
        None => empty_view(Some(iid)),
    }
}

impl Replica {
    /// get_instance returns the instance stored for `iid` (`stored`), or, where none is,
    /// a new one that has only its id.
    pub fn get_instance(&self, iid: InstanceId, stored: Option<Instance>) -> (r: Instance)
        ensures
            match stored {
                Some(s) => r == s,
                None => inst_view(r) == empty_view(Some(iid)),
            },
    {
        match stored {
            Some(inst) => inst,
            None => self.empty_instance(Some(iid)),
        }
    }

    /// empty_instance returns an instance that has only the id `iid`.
    fn empty_instance(&self, iid: Option<InstanceId>) -> (r: Instance)
        ensures
            inst_view(r) == empty_view(iid),
    {
        Instance {
            instance_id: iid,
            ballot: None,
            cmds: Vec::new(),
            deps: None,
            vballot: None,
            committed: false,
            executed: false,
        }
    }
}

/// The ballot of a request is lower than the one the instance has seen.
pub open spec fn stale(req: ReplicateRequest, start: InstanceView) -> bool {
    opt_ballot_lt(req.ballot, start.1)
}

/// The request would reach the first phase with an instance without id, without
/// dependencies in the request, with a local instance that is looked at and lacks its id
/// or dependencies, or with a committed flag to update past the end of those of the
/// request.
pub open spec fn replicate_unfit(req: ReplicateRequest, stored: Option<Instance>, locals: Seq<Vec<Instance>>) -> bool {
    &&& req.ballot is Some
    &&& req.instance_id is Some
    &&& req.phase matches Some(Phase::Prepare(p))
    &&& !stale(req, start_view(stored, req.instance_id->0))
    &&& {
        let start = start_view(stored, req.instance_id->0);
        ||| start.0 is None
        ||| p.deps is None
        ||| !locals_complete(locals, start.0->0, p.cmds@)
        ||| !flags_fit(
            (p.deps->0@, p.deps_committed@),
            p.deps->0@,
            start.0->0,
            p.cmds@,
            locals_view(locals),
        )
    }
}

/// The result is the error that `field` is missing.
pub open spec fn lacks(r: Result<(ReplicateReply, Option<Instance>), RpcHandlerError>, field: Seq<char>) -> bool {
    r matches Err(e) && e@ == RpcErrorView::Protocol(ProtocolErrorView::LackOf(field))
}

/// What a replica stores and replies for a request that is not stale: the first phase
/// takes the ballot, the commands and the dependencies it finds; accept takes the ballot
/// and the dependencies; commit takes the commands and the dependencies and marks the
/// instance committed.
pub open spec fn replicated(
    phase: Phase,
    ballot: Option<BallotNum>,
    start: InstanceView,
    locals: Seq<Vec<Instance>>,
    out: InstanceView,
    reply: Option<replicate_reply::Phase>,
) -> bool {
    match phase {
        Phase::Prepare(p) => {
            let got = fast_accept_deps(
                (p.deps->0@, p.deps_committed@),
                p.deps->0@,
                start.0->0,
                p.cmds@,
                locals.map_values(|v: Vec<Instance>| v@),
            );
            &&& out == (start.0, ballot, cmds_view(p.cmds@), Some(got.0), start.4, start.5, start.6)
            &&& reply matches Some(replicate_reply::Phase::Prepare(rp))
            &&& opt_deps_view(rp.deps) == Some(got.0)
            &&& rp.deps_committed@ == got.1
        },
        Phase::Accept(a) => {
            &&& out == (start.0, ballot, start.2, opt_deps_view(a.deps), start.4, start.5, start.6)
            &&& reply matches Some(replicate_reply::Phase::Accept(_))
        },
        Phase::Commit(c) => {
            &&& out == (start.0, start.1, cmds_view(c.cmds@), opt_deps_view(c.deps), start.4, true, start.6)
            &&& reply matches Some(replicate_reply::Phase::Commit(_))
        },
    }
}

/// What `handle_replicate` returns: the missing field, or a reply that carries the
/// ballot the instance had and its id, with the instance to store unless the request
/// is stale.
pub open spec fn replicate_outcome(
    req: ReplicateRequest,
    stored: Option<Instance>,
    locals: Seq<Vec<Instance>>,
    r: Result<(ReplicateReply, Option<Instance>), RpcHandlerError>,
) -> bool {
    if req.ballot is None {
        lacks(r, "ballot"@)
    } else if req.instance_id is None {
        lacks(r, "instance_id"@)
    } else if req.phase is None {
        lacks(r, "phase"@)
    } else {
        let start = start_view(stored, req.instance_id->0);
        let phase = req.phase->0;
        &&& r is Ok
        &&& r->Ok_0.0.err is None
        &&& r->Ok_0.0.last_ballot == start.1
        &&& r->Ok_0.0.instance_id == req.instance_id
        &&& if stale(req, start) && !(phase is Commit) {
            r->Ok_0.0.phase is None && r->Ok_0.1 is None
        } else {
            &&& r->Ok_0.1 is Some
            &&& replicated(phase, req.ballot, start, locals, inst_view(r->Ok_0.1->0), r->Ok_0.0.phase)
        }
    }
}

impl Replica {
    /// handle_replicate answers a replication request for the instance the replica has
    /// stored (`stored`, or `None` where it has none yet), given the instances of each
    /// replica of the group, highest first (`locals`). It returns the reply and the
    /// instance to store, `None` where nothing changes.
    pub fn handle_replicate(
        &self,
        req: &ReplicateRequest,
        stored: Option<Instance>,
        locals: &Vec<Vec<Instance>>,
    ) -> (r: Result<(ReplicateReply, Option<Instance>), RpcHandlerError>)
        requires
            !replicate_unfit(*req, stored, locals@),
        ensures
            replicate_outcome(*req, stored, locals@, r),
    {
        proof {
            reveal_strlit("ballot");
            reveal_strlit("instance_id");
            reveal_strlit("phase");
        }
        if req.ballot.is_none() {
            return Err(RpcHandlerError::Protocol(ProtocolError::LackOf(String::from_str("ballot"))));
        }
        let iid = match req.instance_id {
            Some(i) => i,
            None => {
                return Err(
                    RpcHandlerError::Protocol(ProtocolError::LackOf(String::from_str("instance_id"))),
                );
            },
        };
        let mut inst = self.get_instance(iid, stored);
        let ghost start = start_view(stored, iid);
        assert(inst_view(inst) == start);
        let last_ballot = inst.ballot;
        let phase = match &req.phase {
            Some(p) => p,
            None => {
                return Err(RpcHandlerError::Protocol(ProtocolError::LackOf(String::from_str("phase"))));
            },
        };
        match phase {
            Phase::Commit(_) => {},
            _ => {
                if opt_ballot_precedes(&req.ballot, &inst.ballot) {
                    return Ok(
                        (
                            ReplicateReply {
                                err: None,
                                last_ballot,
                                instance_id: Some(iid),
                                phase: None,
                            },
                            None,
                        ),
                    );
                }
                inst.ballot = req.ballot;
            },
        }
        let reply_phase = match phase {
            Phase::Prepare(p) => match self.handle_fast_accept(p, &mut inst, locals) {
                Ok(rp) => replicate_reply::Phase::Prepare(rp),
                Err(e) => {
                    return Err(e);
                },
            },
            Phase::Accept(a) => match self.handle_accept(a, &mut inst) {
                Ok(rp) => replicate_reply::Phase::Accept(rp),
                Err(e) => {
                    return Err(e);
                },
            },
            Phase::Commit(c) => match self.handle_commit(c, &mut inst) {
                Ok(rp) => replicate_reply::Phase::Commit(rp),
                Err(e) => {
                    return Err(e);
                },
            },
        };
        Ok(
            (
                ReplicateReply {
                    err: None,
                    last_ballot,
                    instance_id: Some(iid),
                    phase: Some(reply_phase),
                },
                Some(inst),
            ),
        )
    }
}

/// The highest instance id of each replica: the highest one stored, or `(rid, -1)` for
/// a replica with none.
pub open spec fn max_ids(rids: Seq<ReplicaId>, highest: Seq<Option<InstanceId>>) -> Seq<InstanceId> {
    Seq::new(
        rids.len(),
        |i: int|
            match highest[i] {
                Some(h) => h,
                None => InstanceId { replica_id: rids[i], idx: -1i64 },
            },
    )
}

impl Replica {
    /// get_max_instance_ids returns the highest instance id of each replica of `rids`,
    /// given the highest instance stored of each (`highest[i]` for `rids[i]`); a replica
    /// with no instance gets `(rid, -1)`.
    pub fn get_max_instance_ids(&self, rids: &[ReplicaId], highest: &[Option<InstanceId>]) -> (r: InstanceIdVec)
        requires
            highest@.len() == rids@.len(),
        ensures
            r@ == max_ids(rids@, highest@),
    {
        let mut ids: Vec<InstanceId> = Vec::with_capacity(rids.len());
        let mut i: usize = 0;
        while i < rids.len()
            invariant
                highest@.len() == rids@.len(),
                i <= rids@.len(),
                ids@ =~= max_ids(rids@, highest@).take(i as int),
            decreases rids@.len() - i,
        {
            let m = match highest[i] {
                Some(h) => h,
                None => InstanceId { replica_id: rids[i], idx: -1 },
            };
            ids.push(m);
            i = i + 1;
        }
        assert(max_ids(rids@, highest@).take(i as int) =~= max_ids(rids@, highest@));
        InstanceIdVec { ids }
    }

    /// new_instance builds the next instance of this replica for `cmds`, given the highest
    /// instance id of each replica of the group (`maxs`, which must hold this replica):
    /// its index follows this replica's highest, its ballot is `(0, replica_id)`, and it
    /// depends on every instance of `maxs`.
    pub fn new_instance(&self, cmds: &[Command], maxs: &InstanceIdVec) -> (inst: Instance)
        requires
            lookup(maxs@, self.replica_id) matches Some(m) && m.idx < i64::MAX,
        ensures
            inst.instance_id == Some(
                InstanceId { replica_id: self.replica_id, idx: (lookup(maxs@, self.replica_id)->0.idx + 1) as i64 },
            ),
            inst.ballot == Some(BallotNum { num: 0, replica_id: self.replica_id }),
            cmds_view(inst.cmds@) == cmds_view(cmds@),
            opt_deps_view(inst.deps) == Some(deps_of_iids(maxs@)),
            inst.vballot is None,
            !inst.committed,
    {
        let rid = self.replica_id;
        let this_iid = maxs.get(rid).unwrap();
        let iid = InstanceId { replica_id: rid, idx: this_iid.idx + 1 };
        let deps = deps_from_iids(maxs.ids.as_slice());
        let mut inst = Instance::of(cmds, BallotNum { num: 0, replica_id: rid }, deps.as_slice());
        inst.instance_id = Some(iid);
        inst
    }
}

/// What a peer holds, as plain values.
pub open spec fn peer_view(p: ReplicaPeer) -> (i64, Seq<char>, bool) {
    (p.replica_id, p.addr@, p.alive)
}

/// The first replica of `ks`, from the `k`-th on, whose node the cluster does not know.
pub open spec fn first_unplaced(c: ClusterInfo, ks: Seq<i64>, k: int) -> Option<i64>
    decreases ks.len() - k,
{
    if k < 0 || k >= ks.len() {
        None
    } else if replica_node(c, ks[k]) is None {
        Some(ks[k])
    } else {
        first_unplaced(c, ks, k + 1)
    }
}

/// The peers of replica `rid` among the first `n` replicas of `ks`: every other one,
/// reached over HTTP at the replication address of its node, taken to be alive.
pub open spec fn peers_of(c: ClusterInfo, ks: Seq<i64>, rid: i64, n: int) -> Seq<(i64, Seq<char>, bool)>
    decreases n,
{
    if n <= 0 {
        Seq::empty()
    } else {
        let prev = peers_of(c, ks, rid, n - 1);
        let p = ks[n - 1];
        if p == rid {
            prev
        } else {
            prev.push((p, "http://"@ + replica_node(c, p)->0.replication@, true))
        }
    }
}

/// The replicas of the group of replica `rid`, lowest first.
pub open spec fn group_ids(c: ClusterInfo, rid: i64) -> Seq<i64> {
    ascending_of(c.groups@[c.replicas@[rid].group_idx as int].replicas@.dom())
}

impl Replica {
    /// new sets up replica `rid` of cluster `cinfo`: its group, and a peer for every
    /// other replica of the group. It fails on a replica the cluster does not know, or
    /// whose node it does not know: `rid` first, then the others, lowest first.
    pub fn new(rid: ReplicaId, cinfo: &ClusterInfo) -> (r: Result<Replica, ReplicaError>)
        requires
            group_known(*cinfo, rid),
        ensures
            !cinfo.replicas@.contains_key(rid) ==> r == Err::<Replica, ReplicaError>(ReplicaError::ReplicaNotFound(rid)),
            cinfo.replicas@.contains_key(rid) ==> match first_unplaced(*cinfo, group_ids(*cinfo, rid), 0) {
                Some(p) => r == Err::<Replica, ReplicaError>(ReplicaError::ReplicaNotFound(p)),
                None => r matches Ok(rp) && rp.replica_id == rid && rp.group_replica_ids@ == group_ids(*cinfo, rid)
                    && rp.peers@.map_values(|p: ReplicaPeer| peer_view(p)) == peers_of(*cinfo, group_ids(*cinfo, rid), rid, group_ids(*cinfo, rid).len() as int)
                    && rp.committed_timeout == 10000,
            },
    {
        proof {
            reveal_strlit("http://");
        }
        let group = match cinfo.get_group(rid) {
            Some(g) => g,
            None => {
                return Err(ReplicaError::ReplicaNotFound(rid));
            },
        };
        let ks = ascending_keys(&group.replicas);
        let ghost gk = group_ids(*cinfo, rid);
        assert(ks@ == gk);
        let mut peers: Vec<ReplicaPeer> = Vec::new();
        let mut k: usize = 0;
        while k < ks.len()
            invariant
                cinfo.replicas@.contains_key(rid),
                gk == group_ids(*cinfo, rid),
                ks@ == gk,
                k <= ks@.len(),
                first_unplaced(*cinfo, gk, 0) == first_unplaced(*cinfo, gk, k as int),
                peers@.map_values(|p: ReplicaPeer| peer_view(p)) == peers_of(*cinfo, gk, rid, k as int),
            decreases ks@.len() - k,
        {
            let prid = ks[k];
            let node = match cinfo.get_replica_node(prid) {
                Some(n) => n,
                None => {
                    return Err(ReplicaError::ReplicaNotFound(prid));
                },
            };
            if prid != rid {
                let mut addr = String::from_str("http://");
                addr.append(node.replication.as_str());
                let ghost before = peers@;
                peers.push(ReplicaPeer { replica_id: prid, addr, alive: true });
                assert(peers@.map_values(|p: ReplicaPeer| peer_view(p)) =~= before.map_values(|p: ReplicaPeer| peer_view(p)).push((prid, "http://"@ + node.replication@, true)));
            }
            k = k + 1;
        }
        Ok(Replica { replica_id: rid, group_replica_ids: ks, peers, committed_timeout: 10000 })
    }
}

/// find_interfering returns the position of the first instance of `ls` that an
/// incoming instance with id `iid` and commands `cmds` has to be ordered after.
fn find_interfering(ls: &Vec<Instance>, iid: &InstanceId, cmds: &[Command]) -> (r: Option<usize>)
    requires
        examined_complete(ls@, *iid, cmds@),
    ensures
        r matches Some(p) ==> p < ls@.len() && first_interfering(ls@, *iid, cmds@) == Some(p as int)
            && ls@[p as int].instance_id is Some,
        r is None ==> first_interfering(ls@, *iid, cmds@) is None,
{
    let mut j: usize = 0;
    while j < ls.len()
        invariant
            examined_complete(ls@, *iid, cmds@),
            j <= ls@.len(),
            first_interfering(ls@.take(j as int), *iid, cmds@) is None,
        decreases ls@.len() - j,
    {
        let l = &ls[j];
        assert(ls@.take(j + 1).drop_last() =~= ls@.take(j as int));
        assert(ls@.take(j + 1).last() == ls@[j as int]);
        let ldeps = l.deps.as_ref().unwrap();
        let reach = deps_reach_exec(ldeps, iid);
        if !reach && (cmds_conflict(cmds, l) || l.committed) {
            assert(first_interfering(ls@.take(j + 1), *iid, cmds@) == Some(j as int));
            proof {
                lemma_first_interfering_prefix(ls@, *iid, cmds@, j as int);
            }
            return Some(j);
        }
        j = j + 1;
    }
    assert(ls@.take(j as int) =~= ls@);
    None
}

/// Once an interfering instance is found, the ones after it do not matter.
pub proof fn lemma_first_interfering_prefix(ls: Seq<Instance>, iid: InstanceId, cmds: Seq<Command>, j: int)
    requires
        0 <= j < ls.len(),
        first_interfering(ls.take(j + 1), iid, cmds) == Some(j),
    ensures
        first_interfering(ls, iid, cmds) == Some(j),
{
    lemma_first_interfering_prefix_gen(ls, iid, cmds, j, ls.len() as int);
    assert(ls.take(ls.len() as int) =~= ls);
}

/// The first interfering position of a prefix stays the first in every longer prefix.
pub proof fn lemma_first_interfering_prefix_gen(
    ls: Seq<Instance>,
    iid: InstanceId,
    cmds: Seq<Command>,
    j: int,
    n: int,
)
    requires
        0 <= j < n <= ls.len(),
        first_interfering(ls.take(j + 1), iid, cmds) == Some(j),
    ensures
        first_interfering(ls.take(n), iid, cmds) == Some(j),
    decreases n - j,
{
    if n > j + 1 {
        lemma_first_interfering_prefix_gen(ls, iid, cmds, j, n - 1);
        assert(ls.take(n).drop_last() =~= ls.take(n - 1));
    }
}

} // verus!
