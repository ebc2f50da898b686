//! The decisions of a leader replicating a new instance to its group: commit on the fast
//! path when enough replicas agree, else propose the dependencies a quorum saw, and
//! commit once a quorum accepts them. Sending the requests and storing the instance is
//! left to the caller, which hands each reply back.
use crate::command::Command;
use crate::qpaxos::deps::{lookup, InstanceIdVec};
use crate::qpaxos::ids::{Dep, ReplicaId};
use crate::qpaxos::instance::{opt_deps_view, InstanceStatus};
use crate::qpaxos::message::{request_for, MakeRequest, ReplicateReply, ReplicateRequest};
use crate::qpaxos::quorums::{spec_fast_quorum, spec_quorum};
use crate::qpaxos::replicate_request;
use crate::replica::replica::Replica;
use crate::replica::status::{
    accept_dep_of, fast_dep_of, initial_prepared, lemma_sorted_rdeps, lemma_wf_choices_fit, prepared_view,
    same_but_sorted,
    DepStatusView, Status,
};
use crate::replication::errors::{ReplicaError, RpcErrorView, RpcHandlerError, StorageError};
use crate::replication::hdlreply::{
    accept_reply_outcome, fast_reply_outcome, handle_accept_reply, handle_fast_accept_reply,
};
use vstd::prelude::*;

verus! {

/// ReplicationError is why an instance could not be made safe: too few replicas
/// answered in a phase (the phase, how many were needed, how many answered), or a reply
/// could not be handled, or the replica or its storage failed.
#[derive(Debug, PartialEq, Eq)]
pub enum ReplicationError {
    NotEnoughQuorum(InstanceStatus, i32, i32),
    Replica(ReplicaError),
    Handler(RpcHandlerError),
    Storage(StorageError),
}

impl From<ReplicaError> for ReplicationError {
    fn from(e: ReplicaError) -> (r: ReplicationError) {
        ReplicationError::Replica(e)
    }
}

impl vstd::std_specs::convert::FromSpecImpl<ReplicaError> for ReplicationError {
    open spec fn obeys_from_spec() -> bool {
        true
    }

    open spec fn from_spec(e: ReplicaError) -> ReplicationError {
        ReplicationError::Replica(e)
    }
}

impl From<RpcHandlerError> for ReplicationError {
    fn from(e: RpcHandlerError) -> (r: ReplicationError) {
        ReplicationError::Handler(e)
    }
}

impl vstd::std_specs::convert::FromSpecImpl<RpcHandlerError> for ReplicationError {
    open spec fn obeys_from_spec() -> bool {
        true
    }

    open spec fn from_spec(e: RpcHandlerError) -> ReplicationError {
        ReplicationError::Handler(e)
    }
}

impl From<StorageError> for ReplicationError {
    fn from(e: StorageError) -> (r: ReplicationError) {
        ReplicationError::Storage(e)
    }
}

impl vstd::std_specs::convert::FromSpecImpl<StorageError> for ReplicationError {
    open spec fn obeys_from_spec() -> bool {
        true
    }

    open spec fn from_spec(e: StorageError) -> ReplicationError {
        ReplicationError::Storage(e)
    }
}

/// What the leader does next.
#[derive(Debug)]
pub enum ReplicationStep {
    /// The instance is safe to commit with the dependencies it holds now.
    Commit,
    /// Send this first-phase request to the other replicas and hand back each reply.
    SendPrepare(ReplicateRequest),
    /// Store the instance, send this accept request to the other replicas and hand back
    /// each reply.
    SendAccept(ReplicateRequest),
}

/// The fast-path dependency on every replica of `grids` given the replies kept, when
/// each has one.
pub open spec fn fast_choice(m: Map<i64, DepStatusView>, fq: int, grids: Seq<ReplicaId>) -> Option<Seq<Dep>> {
    if forall|k: int| 0 <= k < grids.len() ==> #[trigger] fast_dep_of(m, grids[k], fq) is Some {
        Some(Seq::new(grids.len(), |k: int| fast_dep_of(m, grids[k], fq)->0))
    } else {
        None
    }
}

/// The slow-path dependency on every replica of `grids` given the replies kept, when
/// each has one.
pub open spec fn accept_choice(m: Map<i64, DepStatusView>, q: int, grids: Seq<ReplicaId>) -> Option<Seq<Dep>> {
    if forall|k: int| 0 <= k < grids.len() ==> #[trigger] accept_dep_of(m, grids[k], q) is Some {
        Some(Seq::new(grids.len(), |k: int| accept_dep_of(m, grids[k], q)->0))
    } else {
        None
    }
}

/// The fast-path dependencies of a status.
pub open spec fn fast_deps(st: Status, grids: Seq<ReplicaId>) -> Option<Seq<Dep>> {
    fast_choice(prepared_view(st.prepared@), st.fast_quorum as int, grids)
}

/// The slow-path dependencies of a status.
pub open spec fn accept_deps(st: Status, grids: Seq<ReplicaId>) -> Option<Seq<Dep>> {
    accept_choice(prepared_view(st.prepared@), st.quorum as int, grids)
}

/// The replies kept in `a` are those of `b`, with some of them sorted: what they give
/// on either path is the same.
pub open spec fn same_choices(a: Status, b: Status, grids: Seq<ReplicaId>) -> bool {
    &&& fast_deps(a, grids) == fast_deps(b, grids)
    &&& accept_deps(a, grids) == accept_deps(b, grids)
}

/// A status of the leader: positive quorums, and a reply kept for every dependency.
pub open spec fn leader_wf(st: Status) -> bool {
    &&& st.wf()
    &&& st.instance.instance_id is Some
}

/// Every dependency the leader stands for has one reply.
pub proof fn lemma_initial_prepared_nonempty(m: Map<i64, DepStatusView>, deps: Seq<Dep>, leader: i64)
    requires
        forall|rid: i64| #[trigger] m.contains_key(rid) ==> m[rid].1.len() > 0,
    ensures
        forall|rid: i64| #[trigger] initial_prepared(m, deps, leader).contains_key(rid) ==> initial_prepared(m, deps, leader)[rid].1.len() > 0,
    decreases deps.len(),
{
    if deps.len() > 0 {
        lemma_initial_prepared_nonempty(m, deps.drop_last(), leader);
        let inner = initial_prepared(m, deps.drop_last(), leader);
        let d = deps.last();
        assert forall|rid: i64| #[trigger] initial_prepared(m, deps, leader).contains_key(rid) implies initial_prepared(m, deps, leader)[rid].1.len() > 0 by {
            if rid != d.replica_id {
                assert(inner.contains_key(rid));
            }
        }
    }
}

/// Sorting some of the replies kept changes neither path's choice.
pub proof fn lemma_sorted_same_choices(a: Status, b: Status, grids: Seq<ReplicaId>)
    requires
        same_but_sorted(prepared_view(b.prepared@), prepared_view(a.prepared@)),
        a.fast_quorum == b.fast_quorum,
        a.quorum == b.quorum,
    ensures
        same_choices(a, b, grids),
{
    let ma = prepared_view(a.prepared@);
    let mb = prepared_view(b.prepared@);
    assert forall|rid: i64| fast_dep_of(ma, rid, a.fast_quorum as int) == fast_dep_of(mb, rid, b.fast_quorum as int)
        && accept_dep_of(ma, rid, a.quorum as int) == accept_dep_of(mb, rid, b.quorum as int) by {
        if ma.contains_key(rid) {
            lemma_sorted_rdeps(mb[rid].1);
        }
    }
    assert(fast_deps(a, grids) =~= fast_deps(b, grids));
    assert(accept_deps(a, grids) =~= accept_deps(b, grids));
}

/// fast_path gets the fast-path dependency on every replica of `grids`, or None; the
/// replies it looks at end up sorted.
fn fast_path(st: &mut Status, grids: &[ReplicaId]) -> (r: Option<Vec<Dep>>)
    requires
        old(st).wf(),
    ensures
        final(st).wf(),
        final(st).instance == old(st).instance,
        final(st).fast_quorum == old(st).fast_quorum,
        final(st).quorum == old(st).quorum,
        final(st).accept_oks@ == old(st).accept_oks@,
        same_choices(*final(st), *old(st), grids@),
        match r {
            Some(v) => fast_deps(*old(st), grids@) == Some(v@),
            None => fast_deps(*old(st), grids@) is None,
        },
{
    let ghost before = *st;
    proof {
        lemma_wf_choices_fit(*st, grids@, true);
    }
    let r = st.get_fast_commit_deps(grids);
    proof {
        lemma_sorted_same_choices(*st, before, grids@);
        if r is Some {
            assert(Seq::new(grids@.len(), |k: int| fast_dep_of(prepared_view(before.prepared@), grids@[k], before.fast_quorum as int)->0) =~= r->0@);
        }
    }
    r
}

/// start_replication builds the next instance of replica `r` for `cmds` (given the
/// highest instance of each replica, `maxs`, which must hold `r`), and the status of
/// its replication to the group `grids`. Alone, or when its own dependencies already
/// make the fast path, it is safe to commit at once; else the first-phase request goes
/// out, with no dependency known to be committed.
pub fn start_replication(r: &Replica, cmds: &[Command], grids: &[ReplicaId], maxs: &InstanceIdVec) -> (res: (
    Status,
    ReplicationStep,
))
    requires
        lookup(maxs@, r.replica_id) matches Some(m) && m.idx < i64::MAX,
        grids@.len() <= i32::MAX,
    ensures
        leader_wf(res.0),
        res.0.quorum == spec_quorum(grids@.len() as int),
        res.0.fast_quorum == spec_fast_quorum(grids@.len() as int),
        res.0.instance.instance_id == Some(
            crate::qpaxos::ids::InstanceId { replica_id: r.replica_id, idx: (lookup(maxs@, r.replica_id)->0.idx + 1) as i64 },
        ),
        res.0.accept_oks@.len() == 0,
        match res.1 {
            ReplicationStep::Commit => fast_deps(res.0, grids@) matches Some(d) && opt_deps_view(res.0.instance.deps) == Some(d),
            ReplicationStep::SendPrepare(req) => {
                &&& fast_deps(res.0, grids@) is None
                &&& request_for(req, 0, res.0.instance)
                &&& req.phase matches Some(replicate_request::Phase::Prepare(p)) && p.deps_committed@ == Seq::new(grids@.len(), |i: int| false)
            },
            ReplicationStep::SendAccept(_) => false,
        },
{
    let inst = r.new_instance(cmds, maxs);
    let n = grids.len() as i32;
    let mut st = Status::new(n, inst);
    proof {
        lemma_initial_prepared_nonempty(Map::empty(), st.instance.deps->0@, st.instance.instance_id->0.replica_id);
        assert forall|rid: i64| #[trigger] st.prepared@.contains_key(rid) implies st.prepared@[rid].rdeps@.len() > 0 by {
            assert(prepared_view(st.prepared@).contains_key(rid));
        }
    }
    let ghost before = st;
    match fast_path(&mut st, grids) {
        Some(fdeps) => {
            st.instance.deps = Some(crate::qpaxos::deps::Deps { dep_vec: fdeps });
            proof {
                assert(fast_deps(st, grids@) =~= fast_deps(before, grids@));
            }
            (st, ReplicationStep::Commit)
        },
        None => {
            let mut deps_committed: Vec<bool> = Vec::new();
            let mut i: usize = 0;
            while i < grids.len()
                invariant
                    i <= grids@.len(),
                    deps_committed@ == Seq::new(i as nat, |j: int| false),
                decreases grids@.len() - i,
            {
                deps_committed.push(false);
                i = i + 1;
            }
            let req = MakeRequest::prepare(0, &st.instance, deps_committed.as_slice());
            (st, ReplicationStep::SendPrepare(req))
        },
    }
}

/// The reply was refused for `e`.
pub open spec fn refused(r: Result<bool, ReplicationError>, e: RpcErrorView) -> bool {
    r matches Err(ReplicationError::Handler(x)) && x@ == e
}

/// on_prepare_reply records the first-phase reply `repl` of replica `from_rid`. It
/// returns true when the instance is now safe to commit on the fast path, its
/// dependencies set to the fast-path ones; a refused reply is an error.
pub fn on_prepare_reply(st: &mut Status, grids: &[ReplicaId], from_rid: i64, repl: ReplicateReply) -> (r: Result<bool, ReplicationError>)
    requires
        leader_wf(*old(st)),
    ensures
        leader_wf(*final(st)),
        final(st).instance.instance_id == old(st).instance.instance_id,
        final(st).instance.ballot == old(st).instance.ballot,
        final(st).fast_quorum == old(st).fast_quorum,
        final(st).quorum == old(st).quorum,
        final(st).accept_oks@ == old(st).accept_oks@,
        ({
            let (res, m) = fast_reply_outcome(*old(st), from_rid, repl);
            &&& fast_deps(*final(st), grids@) == fast_choice(m, old(st).fast_quorum as int, grids@)
            &&& accept_deps(*final(st), grids@) == accept_choice(m, old(st).quorum as int, grids@)
            &&& match res {
                Err(e) => refused(r, e) && final(st).instance == old(st).instance,
                Ok(_) => match fast_choice(m, old(st).fast_quorum as int, grids@) {
                    Some(d) => r == Ok::<bool, ReplicationError>(true) && opt_deps_view(final(st).instance.deps) == Some(d),
                    None => r == Ok::<bool, ReplicationError>(false) && final(st).instance == old(st).instance,
                },
            }
        }),
{
    let ghost start = *st;
    match handle_fast_accept_reply(st, from_rid, repl) {
        Err(e) => {
            proof {
                lemma_choices_of_view(*st, grids@);
            }
            return Err(ReplicationError::Handler(e));
        },
        Ok(_) => {},
    }
    let ghost mid = *st;
    proof {
        lemma_choices_of_view(mid, grids@);
    }
    match fast_path(st, grids) {
        Some(fdeps) => {
            st.instance.deps = Some(crate::qpaxos::deps::Deps { dep_vec: fdeps });
            Ok(true)
        },
        None => Ok(false),
    }
}

/// The choices of a status are those of its replies.
pub proof fn lemma_choices_of_view(st: Status, grids: Seq<ReplicaId>)
    ensures
        fast_deps(st, grids) == fast_choice(prepared_view(st.prepared@), st.fast_quorum as int, grids),
        accept_deps(st, grids) == accept_choice(prepared_view(st.prepared@), st.quorum as int, grids),
{
}

/// prepare_failure reports that too few replicas answered the first phase: how many
/// replied about the dependency on replica 0.
fn prepare_failure(st: &Status) -> (e: ReplicationError)
    requires
        prepared_view(st.prepared@).contains_key(0),
    ensures
        e == ReplicationError::NotEnoughQuorum(
            InstanceStatus::Prepared,
            st.quorum,
            prepared_view(st.prepared@)[0].0.len() as i32,
        ),
{
    broadcast use vstd::std_specs::hash::group_hash_axioms;

    let ds = st.prepared.get(&0).unwrap();
    let got = ds.replied.len() as i32;
    ReplicationError::NotEnoughQuorum(InstanceStatus::Prepared, st.quorum, got)
}

/// after_prepare_replies ends the first phase without a fast commit: it proposes the
/// slow-path dependencies, has the leader accept them and returns the accept request
/// to send once the instance is stored; with fewer replies than a quorum on some
/// replica it fails, telling how many replied about replica 0, whose replies must be
/// kept.
pub fn after_prepare_replies(st: &mut Status, grids: &[ReplicaId]) -> (r: Result<ReplicateRequest, ReplicationError>)
    requires
        leader_wf(*old(st)),
        prepared_view(old(st).prepared@).contains_key(0),
    ensures
        leader_wf(*final(st)),
        final(st).instance.instance_id == old(st).instance.instance_id,
        final(st).fast_quorum == old(st).fast_quorum,
        final(st).quorum == old(st).quorum,
        same_choices(*final(st), *old(st), grids@),
        match accept_deps(*old(st), grids@) {
            None => r == Err::<ReplicateRequest, ReplicationError>(ReplicationError::NotEnoughQuorum(
                InstanceStatus::Prepared,
                old(st).quorum,
                prepared_view(old(st).prepared@)[0].0.len() as i32,
            )),
            Some(d) => {
                &&& opt_deps_view(final(st).instance.deps) == Some(d)
                &&& final(st).accept_oks@ == old(st).accept_oks@.insert(old(st).instance.instance_id->0.replica_id)
                &&& r is Ok
                &&& request_for(r->Ok_0, 0, final(st).instance)
                &&& r->Ok_0.phase matches Some(replicate_request::Phase::Accept(a)) && opt_deps_view(a.deps) == Some(d)
            },
        },
{
    let e = prepare_failure(st);
    let ghost before = *st;
    proof {
        lemma_wf_choices_fit(*st, grids@, false);
    }
    let adeps = st.get_accept_deps(grids);
    proof {
        lemma_sorted_same_choices(*st, before, grids@);
    }
    match adeps {
        None => Err(e),
        Some(d) => {
            proof {
                assert(Seq::new(grids@.len(), |k: int| accept_dep_of(prepared_view(before.prepared@), grids@[k], before.quorum as int)->0) =~= d@);
            }
            st.instance.deps = Some(crate::qpaxos::deps::Deps { dep_vec: d });
            st.start_accept();
            Ok(MakeRequest::accept(0, &st.instance))
        },
    }
}

/// on_accept_reply records the accept reply `repl` of replica `from_rid`; it returns
/// true once a quorum has accepted, and a refused reply is an error.
pub fn on_accept_reply(st: &mut Status, from_rid: i64, repl: ReplicateReply) -> (r: Result<bool, ReplicationError>)
    requires
        leader_wf(*old(st)),
    ensures
        leader_wf(*final(st)),
        final(st).instance == old(st).instance,
        final(st).fast_quorum == old(st).fast_quorum,
        final(st).quorum == old(st).quorum,
        final(st).prepared@ == old(st).prepared@,
        match accept_reply_outcome(*old(st), from_rid, repl) {
            Err(e) => refused(r, e) && final(st).accept_oks@ == old(st).accept_oks@,
            Ok(_) => final(st).accept_oks@ == old(st).accept_oks@.insert(from_rid)
                && r == Ok::<bool, ReplicationError>(final(st).accept_oks@.len() as i32 >= old(st).quorum),
        },
{
    broadcast use vstd::std_specs::hash::group_hash_axioms;

    match handle_accept_reply(st, from_rid, repl) {
        Err(e) => Err(ReplicationError::Handler(e)),
        Ok(_) => Ok(st.accept_oks.len() as i32 >= st.quorum),
    }
}

/// accept_failure reports that too few replicas accepted: how many did.
pub fn accept_failure(st: &Status) -> (e: ReplicationError)
    ensures
        e == ReplicationError::NotEnoughQuorum(InstanceStatus::Accepted, st.quorum, st.accept_oks@.len() as i32),
{
    broadcast use vstd::std_specs::hash::group_hash_axioms;

    ReplicationError::NotEnoughQuorum(InstanceStatus::Accepted, st.quorum, st.accept_oks.len() as i32)
}

} // verus!
