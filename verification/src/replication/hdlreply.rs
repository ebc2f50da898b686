//! Checking a replication reply and recording it in the status of the instance.
use crate::qpaxos::display::ToStringExt;
use crate::qpaxos::errors::{qerror_view, ProtocolError, ProtocolErrorView};
use crate::qpaxos::ids::{opt_ballot_lt, opt_ballot_precedes, BallotNum, Dep, InstanceId};
use crate::qpaxos::instance::{spec_status, Instance, InstanceStatus};
use crate::qpaxos::message::{PrepareReply, ReplicateReply};
use crate::qpaxos::replicate_reply::Phase;
use crate::replica::status::{prepared_view, DepStatus, DepStatusView, RepliedDep, Status};
use crate::replication::errors::{Direction, RpcErrorView, RpcHandlerError};
use std::collections::HashSet;
use vstd::prelude::*;

verus! {

broadcast use vstd::std_specs::hash::group_hash_axioms;

/// The ballot that stands for a missing one.
pub open spec fn zero_ballot() -> BallotNum {
    BallotNum { num: 0, replica_id: 0 }
}

/// What checking the fields every reply has gives: `Ok` when the reply is about the
/// instance, has a phase, and saw no higher ballot.
pub open spec fn repl_common_outcome(inst: Instance, reply: ReplicateReply) -> Result<
    (),
    RpcErrorView,
> {
    match reply.instance_id {
        None => Err(RpcErrorView::Protocol(ProtocolErrorView::LackOf("instance_id"@))),
        Some(iid) => if iid != inst.instance_id->0 {
            Err(
                RpcErrorView::Protocol(
                    ProtocolErrorView::NotMatch(
                        "instance_id"@,
                        inst.instance_id->0.text(),
                        iid.text(),
                    ),
                ),
            )
        } else if reply.phase is None {
            Err(RpcErrorView::Protocol(ProtocolErrorView::LackOf("phase"@)))
        } else if opt_ballot_lt(inst.ballot, reply.last_ballot) {
            Err(
                RpcErrorView::StaleBallot(
                    match inst.ballot {
                        Some(b) => b,
                        None => zero_ballot(),
                    },
                    match reply.last_ballot {
                        Some(b) => b,
                        None => zero_ballot(),
                    },
                ),
            )
        } else {
            Ok(())
        },
    }
}

/// check_repl_common checks the fields every reply has and returns the phase of the
/// reply. The instance must have an id when the reply names one.
pub fn check_repl_common(inst: &Instance, reply: ReplicateReply) -> (r: Result<
    Phase,
    RpcHandlerError,
>)
    requires
        reply.instance_id is Some ==> inst.instance_id is Some,
    ensures
        r matches Ok(p) ==> repl_common_outcome(*inst, reply) is Ok && reply.phase == Some(p),
        r matches Err(e) ==> repl_common_outcome(*inst, reply) == Err::<(), RpcErrorView>(e@),
{
    proof {
        reveal_strlit("instance_id");
        reveal_strlit("phase");
    }
    let ghost orig = reply;
    let iid = match reply.instance_id {
        Some(i) => i,
        None => {
            return Err(
                RpcHandlerError::Protocol(ProtocolError::LackOf(String::from_str("instance_id"))),
            );
        },
    };
    let my = inst.instance_id.unwrap();
    if iid != my {
        let err = ProtocolError::NotMatch(
            String::from_str("instance_id"),
            my.tostr_ext(),
            iid.tostr_ext(),
        );
        return Err(RpcHandlerError::Protocol(err));
    }
    let last_ballot = reply.last_ballot;
    let phase = match reply.phase {
        Some(p) => p,
        None => {
            return Err(RpcHandlerError::Protocol(ProtocolError::LackOf(String::from_str("phase"))));
        },
    };
    if opt_ballot_precedes(&inst.ballot, &last_ballot) {
        let zero = BallotNum { num: 0, replica_id: 0 };
        let a = match inst.ballot {
            Some(b) => b,
            None => zero,
        };
        let b = match last_ballot {
            Some(b) => b,
            None => zero,
        };
        return Err(RpcHandlerError::StaleBallot(a, b));
    }
    Ok(phase)
}

/// The replies kept after recording the dependencies replied by `from`, in order: each
/// is appended to the replies about its replica and `from` is marked as having replied,
/// until a replica that `from` already replied about, where it stops and the flag is set.
pub open spec fn record_replies(
    m: Map<i64, DepStatusView>,
    deps: Seq<Dep>,
    dc: Seq<bool>,
    from: i64,
) -> (Map<i64, DepStatusView>, bool)
    decreases deps.len(),
{
    if deps.len() == 0 {
        (m, false)
    } else {
        let (m1, dup) = record_replies(m, deps.drop_last(), dc, from);
        if dup {
            (m1, true)
        } else {
            let d = deps.last();
            let k = deps.len() - 1;
            let cur = if m1.contains_key(d.replica_id) {
                m1[d.replica_id]
            } else {
                (Set::empty(), Seq::empty())
            };
            if cur.0.contains(from) {
                (m1, true)
            } else {
                (
                    m1.insert(
                        d.replica_id,
                        (cur.0.insert(from), cur.1.push(RepliedDep { idx: d.idx, seq: d.seq, committed: dc[k] })),
                    ),
                    false,
                )
            }
        }
    }
}

/// What handling a fast-accept reply gives: the error, if any, and the replies kept after
/// it.
pub open spec fn fast_reply_outcome(st: Status, from: i64, repl: ReplicateReply) -> (Result<
    (),
    RpcErrorView,
>, Map<i64, DepStatusView>) {
    let m = prepared_view(st.prepared@);
    if repl.err is Some {
        (Err(RpcErrorView::RemoteError(qerror_view(repl.err->0))), m)
    } else if repl_common_outcome(st.instance, repl) is Err {
        (repl_common_outcome(st.instance, repl), m)
    } else if !(repl.phase->0 is Prepare) {
        (Err(RpcErrorView::Protocol(ProtocolErrorView::LackOf("phase::Prepare"@))), m)
    } else {
        let p = repl.phase->0->Prepare_0;
        if p.deps is None {
            (Err(RpcErrorView::Protocol(ProtocolErrorView::LackOf("phase::Prepare.deps"@))), m)
        } else if p.deps_committed@.len() < p.deps->0@.len() {
            (
                Err(
                    RpcErrorView::Protocol(
                        ProtocolErrorView::Incomplete(
                            "phase::Prepare.deps_committed"@,
                            p.deps->0@.len() as i32,
                            p.deps_committed@.len() as i32,
                        ),
                    ),
                ),
                m,
            )
        } else {
            let (m2, dup) = record_replies(m, p.deps->0@, p.deps_committed@, from);
            if dup {
                (
                    Err(
                        RpcErrorView::DupRpc(
                            InstanceStatus::Prepared,
                            Direction::Reply,
                            from,
                            st.instance.instance_id->0,
                        ),
                    ),
                    m2,
                )
            } else {
                (Ok(()), m2)
            }
        }
    }
}

/// Recording replies keeps at least one reply about each replica.
pub proof fn lemma_record_replies_wf(m: Map<i64, DepStatusView>, deps: Seq<Dep>, dc: Seq<bool>, from: i64)
    requires
        forall|rid: i64| #[trigger] m.contains_key(rid) ==> m[rid].1.len() > 0,
    ensures
        forall|rid: i64| #[trigger]
            record_replies(m, deps, dc, from).0.contains_key(rid) ==> record_replies(
                m,
                deps,
                dc,
                from,
            ).0[rid].1.len() > 0,
    decreases deps.len(),
{
    if deps.len() > 0 {
        lemma_record_replies_wf(m, deps.drop_last(), dc, from);
        let r = record_replies(m, deps, dc, from).0;
        assert forall|rid: i64| #[trigger] r.contains_key(rid) implies r[rid].1.len() > 0 by {
            let (m1, dup) = record_replies(m, deps.drop_last(), dc, from);
            if !dup && rid == deps.last().replica_id {
                let cur = if m1.contains_key(rid) {
                    m1[rid]
                } else {
                    (Set::<i64>::empty(), Seq::<RepliedDep>::empty())
                };
                if !cur.0.contains(from) {
                    assert(r[rid].1 == cur.1.push(
                        RepliedDep { idx: deps.last().idx, seq: deps.last().seq, committed: dc[deps.len() - 1] },
                    ));
                }
            }
        }
    }
}

/// handle_fast_accept_reply records the dependencies a replica replied in the first
/// phase. A reply with an error, about another instance, without a phase, with a higher
/// ballot, of another phase, without dependencies or with fewer committed flags than
/// dependencies is refused; a replica replying twice about a dependency is refused, the
/// dependencies before it staying recorded. The instance must have an id when a reply
/// without error names one.
pub fn handle_fast_accept_reply(st: &mut Status, from_rid: i64, repl: ReplicateReply) -> (r: Result<
    (),
    RpcHandlerError,
>)
    requires
        repl.err is None && repl.instance_id is Some ==> old(st).instance.instance_id is Some,
    ensures
        old(st).wf() ==> final(st).wf(),
        final(st).instance == old(st).instance,
        final(st).fast_quorum == old(st).fast_quorum,
        final(st).quorum == old(st).quorum,
        final(st).accept_oks@ == old(st).accept_oks@,
        prepared_view(final(st).prepared@) == fast_reply_outcome(*old(st), from_rid, repl).1,
        r matches Ok(_) ==> fast_reply_outcome(*old(st), from_rid, repl).0 is Ok,
        r matches Err(e) ==> fast_reply_outcome(*old(st), from_rid, repl).0 == Err::<
            (),
            RpcErrorView,
        >(e@),
{
    proof {
        reveal_strlit("phase::Prepare");
        reveal_strlit("phase::Prepare.deps");
        reveal_strlit("phase::Prepare.deps_committed");
    }
    let ghost orig = repl;
    let ghost m0 = prepared_view(st.prepared@);
    if let Some(ref e) = repl.err {
        return Err(RpcHandlerError::RemoteError(e.copy()));
    }
    let phase = check_repl_common(&st.instance, repl)?;
    let frepl: PrepareReply = match phase {
        Phase::Prepare(p) => p,
        _ => {
            return Err(
                RpcHandlerError::Protocol(ProtocolError::LackOf(String::from_str("phase::Prepare"))),
            );
        },
    };
    let deps = match frepl.deps {
        Some(ref d) => d,
        None => {
            return Err(
                RpcHandlerError::Protocol(
                    ProtocolError::LackOf(String::from_str("phase::Prepare.deps")),
                ),
            );
        },
    };
    let n = deps.dep_vec.len();
    if frepl.deps_committed.len() < n {
        return Err(
            RpcHandlerError::Protocol(
                ProtocolError::Incomplete(
                    String::from_str("phase::Prepare.deps_committed"),
                    n as i32,
                    frepl.deps_committed.len() as i32,
                ),
            ),
        );
    }
    let iid = st.instance.instance_id.unwrap();
    record_fast_reply(st, from_rid, deps, &frepl.deps_committed, iid)
}

/// record_fast_reply records the dependencies `deps` replied by `from_rid`, with their
/// committed flags `dc`, stopping at a dependency the replica already replied about.
fn record_fast_reply(
    st: &mut Status,
    from_rid: i64,
    deps: &crate::qpaxos::deps::Deps,
    dc: &Vec<bool>,
    iid: InstanceId,
) -> (r: Result<(), RpcHandlerError>)
    requires
        dc@.len() >= deps@.len(),
    ensures
        old(st).wf() ==> final(st).wf(),
        final(st).instance == old(st).instance,
        final(st).fast_quorum == old(st).fast_quorum,
        final(st).quorum == old(st).quorum,
        final(st).accept_oks@ == old(st).accept_oks@,
        prepared_view(final(st).prepared@) == record_replies(
            prepared_view(old(st).prepared@),
            deps@,
            dc@,
            from_rid,
        ).0,
        r is Ok <==> !record_replies(prepared_view(old(st).prepared@), deps@, dc@, from_rid).1,
        r matches Err(e) ==> e@ == RpcErrorView::DupRpc(
            InstanceStatus::Prepared,
            Direction::Reply,
            from_rid,
            iid,
        ),
{
    let ghost m0 = prepared_view(st.prepared@);
    let ghost ds_seq = deps@;
    let n = deps.dep_vec.len();
    let mut i: usize = 0;
    assert(ds_seq.take(0) =~= Seq::<Dep>::empty());
    while i < n
        invariant
            old(st).wf() ==> st.wf(),
            st.instance == old(st).instance,
            st.fast_quorum == old(st).fast_quorum,
            st.quorum == old(st).quorum,
            st.accept_oks@ == old(st).accept_oks@,
            m0 == prepared_view(old(st).prepared@),
            n == ds_seq.len(),
            ds_seq == deps@,
            dc@.len() >= n,
            i <= n,
            record_replies(m0, ds_seq.take(i as int), dc@, from_rid) == (
                prepared_view(st.prepared@),
                false,
            ),
        decreases n - i,
    {
        let d = deps.dep_vec[i];
        let c = dc[i];
        let rid = d.replica_id;
        let ghost before = st.prepared@;
        assert(ds_seq.take(i + 1).drop_last() =~= ds_seq.take(i as int));
        assert(ds_seq.take(i + 1).last() == d);
        let removed = st.prepared.remove(&rid);
        let mut ds = match removed {
            Some(x) => x,
            None => DepStatus { replied: HashSet::new(), rdeps: Vec::new() },
        };
        proof {
            if before.contains_key(rid) {
                assert(prepared_view(before)[rid] == (ds.replied@, ds.rdeps@));
            } else {
                assert(ds.replied@ =~= Set::<i64>::empty());
                assert(ds.rdeps@ =~= Seq::<RepliedDep>::empty());
            }
        }
        let ghost old_view: DepStatusView = (ds.replied@, ds.rdeps@);
        if ds.replied.insert(from_rid) {
            ds.rdeps.push(RepliedDep { idx: d.idx, seq: d.seq, committed: c });
            st.prepared.insert(rid, ds);
            proof {
                assert(prepared_view(st.prepared@) =~= prepared_view(before).insert(
                    rid,
                    (ds.replied@, ds.rdeps@),
                ));
            }
        } else {
            st.prepared.insert(rid, ds);
            proof {
                assert(ds.replied@ =~= old_view.0);
                assert(before.contains_key(rid));
                assert(prepared_view(st.prepared@) =~= prepared_view(before));
                assert(record_replies(m0, ds_seq.take(i + 1), dc@, from_rid) == (
                    prepared_view(st.prepared@),
                    true,
                ));
                lemma_dup_stops(m0, ds_seq, dc@, from_rid, i + 1);
            }
            return Err(RpcHandlerError::DupRpc(InstanceStatus::Prepared, Direction::Reply, from_rid, iid));
        }
        i = i + 1;
    }
    assert(ds_seq.take(n as int) =~= ds_seq);
    Ok(())
}

/// Once recording stops at a repeated replier, later dependencies change nothing.
pub proof fn lemma_dup_stops(m: Map<i64, DepStatusView>, deps: Seq<Dep>, dc: Seq<bool>, from: i64, k: int)
    requires
        0 <= k <= deps.len(),
        record_replies(m, deps.take(k), dc, from).1,
    ensures
        record_replies(m, deps, dc, from) == record_replies(m, deps.take(k), dc, from),
    decreases deps.len() - k,
{
    if k < deps.len() {
        assert(deps.take(k + 1).drop_last() =~= deps.take(k));
        lemma_dup_stops(m, deps, dc, from, k + 1);
    } else {
        assert(deps.take(k) =~= deps);
    }
}

/// What handling an accept reply gives: `Ok` when the reply is sound, the instance is in
/// its accept phase and the replica had not accepted yet.
pub open spec fn accept_reply_outcome(st: Status, from: i64, repl: ReplicateReply) -> Result<
    (),
    RpcErrorView,
> {
    if repl.err is Some {
        Err(RpcErrorView::RemoteError(qerror_view(repl.err->0)))
    } else if repl_common_outcome(st.instance, repl) is Err {
        repl_common_outcome(st.instance, repl)
    } else if spec_status(st.instance) != InstanceStatus::Accepted {
        Err(RpcErrorView::DelayedReply(InstanceStatus::Accepted, spec_status(st.instance)))
    } else if st.accept_oks@.contains(from) {
        Err(
            RpcErrorView::DupRpc(
                InstanceStatus::Accepted,
                Direction::Reply,
                from,
                st.instance.instance_id->0,
            ),
        )
    } else {
        Ok(())
    }
}

/// handle_accept_reply records that a replica accepted the instance. A reply with an
/// error, about another instance, without a phase or with a higher ballot is refused, as
/// is a reply that arrives when the instance is not in its accept phase or a second one
/// from the same replica. The instance must have an id when a reply without error names
/// one.
pub fn handle_accept_reply(st: &mut Status, from_rid: i64, repl: ReplicateReply) -> (r: Result<
    (),
    RpcHandlerError,
>)
    requires
        repl.err is None && repl.instance_id is Some ==> old(st).instance.instance_id is Some,
    ensures
        final(st).instance == old(st).instance,
        final(st).fast_quorum == old(st).fast_quorum,
        final(st).quorum == old(st).quorum,
        final(st).prepared@ == old(st).prepared@,
        r is Ok ==> final(st).accept_oks@ == old(st).accept_oks@.insert(from_rid),
        r is Err ==> final(st).accept_oks@ == old(st).accept_oks@,
        r matches Ok(_) ==> accept_reply_outcome(*old(st), from_rid, repl) is Ok,
        r matches Err(e) ==> accept_reply_outcome(*old(st), from_rid, repl) == Err::<
            (),
            RpcErrorView,
        >(e@),
{
    if let Some(ref e) = repl.err {
        return Err(RpcHandlerError::RemoteError(e.copy()));
    }
    let _ = check_repl_common(&st.instance, repl)?;
    let status = st.instance.status();
    if status != InstanceStatus::Accepted {
        return Err(RpcHandlerError::DelayedReply(InstanceStatus::Accepted, status));
    }
    let iid = st.instance.instance_id.unwrap();
    if st.accept_oks.insert(from_rid) {
        Ok(())
    } else {
        Err(RpcHandlerError::DupRpc(InstanceStatus::Accepted, Direction::Reply, from_rid, iid))
    }
}

} // verus!
