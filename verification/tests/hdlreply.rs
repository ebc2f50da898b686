use epaxos::qpaxos::errors::ProtocolError;
use epaxos::qpaxos::{
    AcceptReply, BallotNum, Command, CommitReply, Dep, Deps, Instance, InstanceId, InstanceStatus,
    PrepareReply, QError, ReplicateReply,
};
use epaxos::replica::status::{RepliedDep, ReplicationStatus};
use epaxos::replication::{handle_accept_reply, handle_fast_accept_reply, Direction, RpcHandlerError};

fn inst(deps: &[(i64, i64)]) -> Instance {
    let d: Vec<Dep> = deps.iter().map(|t| Dep::from(*t)).collect();
    Instance {
        instance_id: Some(InstanceId::from((1, 2))),
        ballot: Some(BallotNum { num: 0, replica_id: 1 }),
        cmds: vec![Command::from(("Set", "x", "1"))],
        deps: Some(Deps::from(d)),
        ..Default::default()
    }
}

fn blt(t: Option<(i32, i64)>) -> Option<BallotNum> {
    t.map(|x| x.into())
}

fn iid(t: Option<(i64, i64)>) -> Option<InstanceId> {
    t.map(|x| x.into())
}

fn deps(v: Option<&[(i64, i64)]>) -> Option<Deps> {
    v.map(|s| {
        let d: Vec<Dep> = s.iter().map(|t| Dep::from(*t)).collect();
        Deps::from(d)
    })
}

fn frepl(b: Option<(i32, i64)>, id: Option<(i64, i64)>) -> ReplicateReply {
    ReplicateReply {
        last_ballot: blt(b),
        instance_id: iid(id),
        phase: Some(PrepareReply { ..Default::default() }.into()),
        ..Default::default()
    }
}

fn frepl_deps(
    b: Option<(i32, i64)>,
    id: Option<(i64, i64)>,
    d: Option<&[(i64, i64)]>,
    cmts: Vec<bool>,
) -> ReplicateReply {
    ReplicateReply {
        last_ballot: blt(b),
        instance_id: iid(id),
        phase: Some(PrepareReply { deps: deps(d), deps_committed: cmts }.into()),
        ..Default::default()
    }
}

#[test]
fn test_handle_prepare_reply_err() {
    let inst = inst(&[(1, 1)]);

    let cases: Vec<(ReplicateReply, RpcHandlerError)> = vec![
        (frepl(None, None), ProtocolError::LackOf("instance_id".into()).into()),
        (frepl(Some((2, 3)), None), ProtocolError::LackOf("instance_id".into()).into()),
        (
            ReplicateReply {
                last_ballot: blt(Some((2, 3))),
                instance_id: iid(Some((1, 2))),
                phase: None,
                ..Default::default()
            },
            ProtocolError::LackOf("phase".into()).into(),
        ),
        (
            ReplicateReply {
                last_ballot: blt(Some((0, 1))),
                instance_id: iid(Some((1, 2))),
                phase: Some(CommitReply { ..Default::default() }.into()),
                ..Default::default()
            },
            ProtocolError::LackOf("phase::Prepare".into()).into(),
        ),
        (
            frepl_deps(Some((0, 1)), Some((1, 2)), None, vec![]),
            ProtocolError::LackOf("phase::Prepare.deps".into()).into(),
        ),
        (
            frepl_deps(Some((0, 1)), Some((1, 2)), Some(&[(1, 2), (2, 3)]), vec![true]),
            ProtocolError::Incomplete("phase::Prepare.deps_committed".into(), 2, 1).into(),
        ),
    ];

    for (repl, want) in cases.iter() {
        let mut st = ReplicationStatus::new(3, inst.clone());
        let r = handle_fast_accept_reply(&mut st, 3, repl.clone());
        assert_eq!(r.err().unwrap(), *want, "Prepare-reply: {:?}", repl);
    }
}

#[test]
fn test_handle_prepare_reply() {
    let inst = inst(&[]);
    let mut st = ReplicationStatus::new(3, inst.clone());

    {
        // positive reply updates the Status.
        let repl = frepl_deps(Some((0, 1)), Some((1, 2)), Some(&[(1, 2), (2, 3)]), vec![false, true]);
        let from_rid = 5;

        let r = handle_fast_accept_reply(&mut st, from_rid, repl.clone());
        assert_eq!(r.unwrap(), ());
        assert!(st.prepared[&1].replied.contains(&from_rid));

        assert_eq!(st.prepared[&1].rdeps, vec![RepliedDep { idx: 2, seq: 0, committed: false }]);
        assert_eq!(st.prepared[&2].rdeps, vec![RepliedDep { idx: 3, seq: 0, committed: true }]);
    }
    {
        // greater ballot should be ignored
        let repl = frepl_deps(Some((100, 1)), Some((1, 2)), Some(&[(3, 4)]), vec![true]);
        let from_rid = 4;

        let r = handle_fast_accept_reply(&mut st, from_rid, repl.clone());
        assert_eq!(r.err().unwrap(), RpcHandlerError::StaleBallot((0, 1).into(), (100, 1).into()));
        assert_eq!(
            false,
            st.prepared[&1].replied.contains(&from_rid),
            "reply with higher ballot is still be recorded"
        );

        assert_eq!(false, st.prepared.contains_key(&3));
    }
    {
        // duplicated message
        let inst = self::inst(&[]);
        let mut st = ReplicationStatus::new(3, inst.clone());

        let repl = frepl_deps(Some((0, 1)), Some((1, 2)), Some(&[(3, 4)]), vec![true]);
        let from_rid = 4;

        let r = handle_fast_accept_reply(&mut st, from_rid, repl.clone());
        assert_eq!(None, r.err());

        let r = handle_fast_accept_reply(&mut st, from_rid, repl.clone());
        assert_eq!(
            r.err().unwrap(),
            RpcHandlerError::DupRpc(
                InstanceStatus::Prepared,
                Direction::Reply,
                from_rid,
                st.instance.instance_id.unwrap()
            )
        );
    }

    {
        // reply contains `err` is ignored
        let mut repl = frepl_deps(Some((0, 1)), Some((1, 2)), Some(&[(3, 4)]), vec![true]);
        repl.err = Some(QError { ..Default::default() });
        let from_rid = 6;

        let r = handle_fast_accept_reply(&mut st, from_rid, repl.clone());
        assert_eq!(r.err().unwrap(), RpcHandlerError::RemoteError(repl.err.unwrap()));
    }
}

#[test]
fn test_handle_accept_reply() {
    let replica_id = 2;
    let group_replica_ids: Vec<i64> = vec![0, 1, 2];

    let mut inst = inst(&[]);
    let n = group_replica_ids.len() as i32;

    {
        // with high ballot num
        let mut st = ReplicationStatus::new(n, inst.clone());
        st.start_accept();
        let repl = ReplicateReply { last_ballot: Some((10, replica_id).into()), ..Default::default() };
        let r = handle_accept_reply(&mut st, 0, repl.clone());
        assert!(r.is_err());

        assert_eq!(st.get_accept_deps(&group_replica_ids), None);
        assert_eq!(1, st.accept_oks.len());
    }

    {
        // with reply err
        let mut st = ReplicationStatus::new(n, inst.clone());
        st.start_accept();
        let repl = ReplicateReply {
            err: Some(ProtocolError::LackOf("test".to_string()).into()),
            ..Default::default()
        };
        let r = handle_accept_reply(&mut st, 0, repl.clone());
        assert!(r.is_err());

        assert_eq!(st.get_accept_deps(&group_replica_ids), None);

        assert_eq!(1, st.accept_oks.len());
    }

    {
        // success
        inst.vballot = Some((2, 3).into());
        let mut st = ReplicationStatus::new(n, inst.clone());
        st.start_accept();
        let repl = ReplicateReply {
            err: None,
            last_ballot: Some((0, 0).into()),
            instance_id: inst.instance_id,
            phase: Some(AcceptReply {}.into()),
        };
        let r = handle_accept_reply(&mut st, 0, repl.clone());
        assert!(r.is_ok());

        assert_eq!(2, st.accept_oks.len());

        // a second accept from the same replica is refused
        let r = handle_accept_reply(&mut st, 0, repl.clone());
        assert!(r.is_err());
        assert_eq!(2, st.accept_oks.len());
    }
}

#[test]
fn test_handle_accept_reply_delayed() {
    let inst = inst(&[]);
    let mut st = ReplicationStatus::new(3, inst.clone());
    let repl = ReplicateReply {
        err: None,
        last_ballot: Some((0, 0).into()),
        instance_id: inst.instance_id,
        phase: Some(AcceptReply {}.into()),
    };
    let r = handle_accept_reply(&mut st, 0, repl);
    assert_eq!(
        r.err().unwrap(),
        RpcHandlerError::DelayedReply(InstanceStatus::Accepted, InstanceStatus::Prepared)
    );
}
