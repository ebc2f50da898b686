use epaxos::conf::{ClusterInfo, GroupInfo, Node};
use epaxos::replication::ReplicaError;
use std::collections::BTreeMap;
use epaxos::qpaxos::errors::ProtocolError;
use epaxos::qpaxos::replicate_reply;
use epaxos::qpaxos::{
    BallotNum, Command, Dep, Deps, Instance, InstanceId, InstanceIdVec, MakeRequest, PrepareReply,
    ReplicateRequest,
};
use epaxos::replica::{find_missing_insts, Replica, ReplicaPeer};
use epaxos::replication::RpcHandlerError;

fn new_replica(replica_id: i64) -> Replica {
    Replica { replica_id, group_replica_ids: vec![0, 1, 2], peers: vec![], committed_timeout: 10000 }
}

fn deps(v: &[(i64, i64)]) -> Option<Deps> {
    let d: Vec<Dep> = v.iter().map(|t| Dep::from(*t)).collect();
    Some(d.into())
}

/// An instance with a single command setting `key`.
fn foo_inst(id: (i64, i64), key: &str, d: &[(i64, i64)]) -> Instance {
    Instance {
        instance_id: Some(id.into()),
        ballot: Some(BallotNum { num: 0, replica_id: id.0 }),
        cmds: vec![Command::from(("Set", key, key))],
        deps: deps(d),
        ..Default::default()
    }
}

#[test]
fn test_handle_fast_accept_request() {
    let replica_id = 1;
    let replica = new_replica(replica_id);

    {
        let mut inst = Instance {
            instance_id: Some((replica_id, 1).into()),
            ballot: Some((2, replica_id).into()),
            cmds: vec![("NoOp", "k1", "v1").into(), ("Get", "k2", "v2").into()],
            deps: deps(&[(1, 10), (2, 20), (3, 30)]),
            ..Default::default()
        };
        let iid = inst.instance_id.unwrap();
        let blt = inst.ballot;

        let deps_committed = vec![false, false, false];
        let req = MakeRequest::fast_accept(replica_id, &inst, &deps_committed);
        let locals: Vec<Vec<Instance>> = vec![vec![], vec![], vec![]];
        let (repl, stored) = replica.handle_replicate(&req, None, &locals).unwrap();

        inst.deps = deps(&[(1, 10), (2, 20), (3, 30)]);

        assert_eq!(None, repl.err);
        assert_eq!(Some(iid), repl.instance_id);
        let p = match repl.phase.unwrap() {
            replicate_reply::Phase::Prepare(p) => p,
            _ => panic!("not a first-phase reply"),
        };
        assert_eq!(deps_committed, p.deps_committed);
        assert_eq!(inst.deps, p.deps);

        // the instance to write.
        let stored = stored.unwrap();
        assert_eq!(Some(iid), stored.instance_id);
        assert_eq!(blt, stored.ballot);
        assert_eq!(inst.cmds, stored.cmds);
        assert!(!stored.committed);
    }

    {
        // instance space layout, then a is replicated to R1
        //               .c
        //             /  |
        // d          d   |
        // |          |\ /
        // a          a-b            c
        // x y z      x y z      x y z
        // -----      -----      -----
        // R0         R1         R2

        let x_iid = InstanceId::from((0, 0));
        let instx = foo_inst((0, 0), "key_x", &[(0, 0), (0, 0), (0, 0)]);

        let y_iid = InstanceId::from((1, 0));
        let insty = foo_inst((1, 0), "key_y", &[(0, 0), (0, 0), (0, 0)]);

        let z_iid = InstanceId::from((2, 0));
        let instz = foo_inst((2, 0), "key_z", &[(0, 0), (0, 0), (0, 0)]);

        // instb -> {x, y, z} committed
        let b_iid = InstanceId::from((1, 1));
        let mut instb = foo_inst((1, 1), "key_b", &[(0, 0), (1, 0), (2, 0)]);
        instb.committed = true;

        // insta -> {x, y, z}
        let mut insta = foo_inst((0, 1), "key_a", &[(0, 0), (1, 0), (2, 0)]);

        // instd -> {a, b, z}
        let instd = foo_inst((0, 2), "key_d", &[(0, 1), (1, 1), (2, 0)]);

        // instc -> {d, b, z}
        let instc = foo_inst((2, 3), "key_z", &[(0, 2), (1, 1), (2, 0)]);

        let locals = vec![vec![instd, instx], vec![instb, insty], vec![instc, instz]];

        let deps_committed = vec![false, true, false];
        let req = MakeRequest::fast_accept(replica_id, &insta, &deps_committed);
        let (repl, stored) = replica.handle_replicate(&req, None, &locals).unwrap();

        insta.deps = Some(vec![x_iid, b_iid, z_iid].into());

        assert_eq!(None, repl.err);
        let p = match repl.phase.unwrap() {
            replicate_reply::Phase::Prepare(p) => p,
            _ => panic!("not a first-phase reply"),
        };
        assert_eq!(deps_committed, p.deps_committed);
        assert_eq!(insta.deps, p.deps);
        assert_eq!(insta.instance_id, repl.instance_id);

        let stored = stored.unwrap();
        assert_eq!(insta.instance_id, stored.instance_id);
        assert_eq!(insta.ballot, stored.ballot);
        assert_eq!(insta.cmds, stored.cmds);
        assert_eq!(insta.deps, stored.deps);
        let _ = y_iid;
    }
}

#[test]
fn test_handle_replicate_lack_of() {
    let replica = new_replica(1);
    let inst = foo_inst((0, 1), "k", &[(0, 0)]);
    let locals: Vec<Vec<Instance>> = vec![];

    let mut req = MakeRequest::accept(1, &inst);
    req.ballot = None;
    assert_eq!(
        RpcHandlerError::Protocol(ProtocolError::LackOf("ballot".into())),
        replica.handle_replicate(&req, None, &locals).unwrap_err()
    );

    let mut req = MakeRequest::accept(1, &inst);
    req.instance_id = None;
    assert_eq!(
        RpcHandlerError::Protocol(ProtocolError::LackOf("instance_id".into())),
        replica.handle_replicate(&req, None, &locals).unwrap_err()
    );

    let req = ReplicateRequest { phase: None, ..MakeRequest::accept(1, &inst) };
    assert_eq!(
        RpcHandlerError::Protocol(ProtocolError::LackOf("phase".into())),
        replica.handle_replicate(&req, None, &locals).unwrap_err()
    );
}

#[test]
fn test_handle_replicate_stale_ballot() {
    let replica = new_replica(1);
    let mut stored = foo_inst((0, 1), "k", &[(0, 0)]);
    stored.ballot = Some((5, 0).into());
    let mut inst = stored.clone();
    inst.ballot = Some((3, 0).into());
    let locals: Vec<Vec<Instance>> = vec![];

    let req = MakeRequest::accept(1, &inst);
    let (repl, write) = replica.handle_replicate(&req, Some(stored.clone()), &locals).unwrap();
    assert_eq!(None, write);
    assert_eq!(None, repl.phase);
    assert_eq!(Some(BallotNum::from((5, 0))), repl.last_ballot);

    // a commit is taken whatever its ballot.
    let req = MakeRequest::commit(1, &inst);
    let (repl, write) = replica.handle_replicate(&req, Some(stored.clone()), &locals).unwrap();
    let write = write.unwrap();
    assert!(write.committed);
    assert_eq!(Some(BallotNum::from((5, 0))), write.ballot);
    assert_eq!(Some(BallotNum::from((5, 0))), repl.last_ballot);
}

#[test]
fn test_handle_replicate_accept() {
    let replica = new_replica(1);
    let stored = foo_inst((0, 1), "k", &[(0, 0)]);
    let mut inst = stored.clone();
    inst.ballot = Some((7, 0).into());
    inst.deps = deps(&[(0, 0), (2, 5)]);
    let locals: Vec<Vec<Instance>> = vec![];

    let req = MakeRequest::accept(1, &inst);
    let (repl, write) = replica.handle_replicate(&req, Some(stored.clone()), &locals).unwrap();
    let write = write.unwrap();
    assert_eq!(inst.ballot, write.ballot);
    assert_eq!(inst.deps, write.deps);
    assert_eq!(stored.cmds, write.cmds);
    assert!(!write.committed);
    assert_eq!(stored.ballot, repl.last_ballot);
    assert!(matches!(repl.phase, Some(replicate_reply::Phase::Accept(_))));
}

#[test]
fn test_new_instance() {
    let r = new_replica(2);
    let maxs = r.get_max_instance_ids(&[0, 1, 2], &[Some((0, 4).into()), None, Some((2, 7).into())]);
    assert_eq!(vec![InstanceId::from((0, 4)), InstanceId::from((1, -1)), InstanceId::from((2, 7))], maxs.ids);

    let cmds = vec![Command::from(("Set", "x", "1"))];
    let inst = r.new_instance(&cmds, &maxs);
    assert_eq!(Some(InstanceId::from((2, 8))), inst.instance_id);
    assert_eq!(Some(BallotNum::from((0, 2))), inst.ballot);
    assert_eq!(cmds, inst.cmds);
    assert_eq!(deps(&[(0, 4), (1, -1), (2, 7)]), inst.deps);
    assert!(!inst.committed);
}

#[test]
fn test_replica_peer_from() {
    let p: ReplicaPeer = (3, "127.0.0.1:4441", true).into();
    assert_eq!(ReplicaPeer::new(3, "127.0.0.1:4441".to_string(), true), p);
    let q: ReplicaPeer = (3, "127.0.0.1:4441".to_string(), true).into();
    assert_eq!(p, q);
}

#[test]
fn test_exec_test_find_missing_instances() {
    let dinst = |id: (i64, i64), d: &[(i64, i64)]| Instance {
        instance_id: Some(id.into()),
        deps: deps(d),
        ..Default::default()
    };
    let ids = |v: &[(i64, i64)]| -> InstanceIdVec {
        let x: Vec<InstanceId> = v.iter().map(|t| InstanceId::from(*t)).collect();
        x.into()
    };

    let cases1 = [
        (vec![dinst((1, 2), &[(1, 1)])], ids(&[(1, 1)])),
        (
            vec![dinst((1, 2), &[(1, 1), (2, 1), (3, 3)]), dinst((2, 2), &[(1, 1), (2, 1), (3, 5)])],
            ids(&[(1, 1), (2, 1), (3, 10)]),
        ),
    ];

    for (insts, up_to) in cases1.iter() {
        match find_missing_insts(insts, up_to) {
            None => assert!(true),
            Some(_) => assert!(false),
        };
    }

    let case2 = [
        (vec![dinst((1, 2), &[(1, 1), (2, 6), (3, 6)])], ids(&[(1, 1), (2, 5), (3, 5)]), ids(&[(2, 6), (3, 6)])),
        (
            vec![dinst((1, 2), &[(1, 1), (2, 1), (3, 1)]), dinst((2, 2), &[(1, 1), (2, 1), (3, 3)])],
            ids(&[(1, 1), (2, 1), (3, 1)]),
            ids(&[(3, 2)]),
        ),
    ];

    for (insts, up_to, exp) in case2.iter() {
        match find_missing_insts(insts, up_to) {
            None => assert!(false),
            Some(s) => assert_eq!(exp, &s),
        };
    }
}

#[test]
fn test_handle_prepare_replies_nothing() {
    let replica = new_replica(1);
    let mut inst = foo_inst((0, 1), "k", &[(0, 0)]);
    let before = inst.clone();
    let req = epaxos::qpaxos::PrepareRequest::default();
    let r = replica.handle_prepare(&req, &mut inst).unwrap();
    assert_eq!(PrepareReply::default(), r);
    assert_eq!(before, inst);
}

#[test]
fn test_replica_new() {
    let node = |nid: &str| Node {
        node_id: nid.to_string(),
        api_addr: "127.0.0.1:3331".to_string(),
        api_uaddr: None,
        replication: nid.to_string(),
    };
    let mut reps = BTreeMap::new();
    reps.insert(3, "127.0.0.1:4443".to_string());
    reps.insert(1, "127.0.0.1:4441".to_string());
    reps.insert(2, "127.0.0.1:4442".to_string());
    let mut ci = ClusterInfo {
        nodes: vec![node("127.0.0.1:4441"), node("127.0.0.1:4442"), node("127.0.0.1:4443")],
        groups: vec![GroupInfo { range: ("a".to_string(), "z".to_string()), replicas: reps }],
        replicas: BTreeMap::new(),
    };
    ci.validate().unwrap();

    let r = Replica::new(2, &ci).unwrap();
    assert_eq!(2, r.replica_id);
    assert_eq!(vec![1, 2, 3], r.group_replica_ids);
    assert_eq!(
        vec![ReplicaPeer::new(1, "http://127.0.0.1:4441".into(), true), ReplicaPeer::new(3, "http://127.0.0.1:4443".into(), true)],
        r.peers
    );
    assert_eq!(10000, r.committed_timeout);

    assert_eq!(Some(ReplicaError::ReplicaNotFound(9)), Replica::new(9, &ci).err());
}

#[test]
fn test_get_instance_stored_or_empty() {
    let rp = new_replica(1);
    let stored = foo_inst((1, 3), "x", &[(0, 1)]);
    let got = rp.get_instance(InstanceId::from((1, 3)), Some(stored.clone()));
    assert_eq!(got, stored);

    let got = rp.get_instance(InstanceId::from((2, 7)), None);
    assert_eq!(got.instance_id, Some(InstanceId::from((2, 7))));
    assert_eq!(got.ballot, None);
    assert!(got.cmds.is_empty());
    assert_eq!(got.deps, None);
    assert_eq!(got.vballot, None);
    assert!(!got.committed);
}

#[test]
fn test_handle_accept_request() {
    let replica_id = 2;
    let mut inst = Instance {
        instance_id: Some((replica_id, 1).into()),
        ballot: Some(BallotNum { num: 2, replica_id }),
        cmds: vec![Command::from(("NoOp", "k1", "v1")), Command::from(("Get", "k2", "v2"))],
        deps: deps(&[(2, 20)]),
        ..Default::default()
    };
    let iid = inst.instance_id.unwrap();
    let blt = inst.ballot;
    let fdeps = inst.deps.clone();
    inst.vballot = None;

    let replica = new_replica(replica_id);
    let locals: Vec<Vec<Instance>> = vec![];
    // What storage holds for `iid`; nothing yet.
    let mut stored: Option<Instance> = None;

    {
        // ok reply with none instance.
        let req = MakeRequest::accept(replica_id, &inst);
        let (repl, write) = replica.handle_replicate(&req, stored.clone(), &locals).unwrap();
        assert_eq!(None, repl.err);
        assert_eq!(Some(iid), repl.instance_id);
        assert_eq!(None, repl.last_ballot);

        // the written instance.
        let got = write.unwrap();
        assert_eq!(Some(iid), got.instance_id);
        assert_eq!(blt, got.ballot);
        assert_eq!(Vec::<Command>::new(), got.cmds);
        assert_eq!(fdeps, got.deps);
        assert!(!got.committed);
        stored = Some(got);
    }

    {
        // ok reply when replacing instance. same ballot.
        let req = MakeRequest::accept(replica_id, &inst);
        assert_eq!(req.ballot, stored.as_ref().unwrap().ballot);

        let (repl, write) = replica.handle_replicate(&req, stored.clone(), &locals).unwrap();
        assert_eq!(None, repl.err);
        assert_eq!(Some(iid), repl.instance_id);
        assert_eq!(blt, repl.last_ballot);

        // the accepted instance.
        let got = write.unwrap();
        assert_eq!(blt, got.ballot);
        assert_eq!(Vec::<Command>::new(), got.cmds);
        assert_eq!(fdeps, got.deps);
        assert!(!got.committed);
        stored = Some(got);
    }

    {
        // ok reply but not written because of a higher ballot.
        let req = MakeRequest::accept(replica_id, &inst);

        // make an instance with bigger ballot.
        let mut curr = stored.clone().unwrap();
        let mut bigger = blt.unwrap();
        bigger.num += 1;
        let bigger = Some(bigger);
        curr.ballot = bigger;
        curr.deps = Some(Deps::from(Vec::<Dep>::new()));
        stored = Some(curr);
        assert!(stored.as_ref().unwrap().ballot > blt);

        // accept wont update this instance.
        let (repl, write) = replica.handle_replicate(&req, stored.clone(), &locals).unwrap();
        assert_eq!(None, repl.err);
        assert_eq!(Some(iid), repl.instance_id);
        assert_eq!(bigger, repl.last_ballot);

        // the instance stays intact.
        assert!(write.is_none());
        let got = stored.unwrap();
        assert_eq!(bigger, got.ballot);
        assert_eq!(Some(Deps::from(Vec::<Dep>::new())), got.deps);
        assert!(!got.committed);
    }
}

#[test]
fn exec_tests_test_find_missing_instances() {
    let dinst = |id: (i64, i64), d: &[(i64, i64)]| Instance {
        instance_id: Some(id.into()),
        deps: deps(d),
        ..Default::default()
    };
    let ids = |v: &[(i64, i64)]| -> InstanceIdVec {
        let x: Vec<InstanceId> = v.iter().map(|t| InstanceId::from(*t)).collect();
        x.into()
    };

    let cases1 = [
        (vec![dinst((1, 2), &[(1, 1)])], ids(&[(1, 1)])),
        // R1 2 depends on 1 everywhere executed; R2 2 on R3 5, below R3's executed 10.
        (
            vec![dinst((1, 2), &[(1, 1), (2, 1), (3, 3)]), dinst((2, 2), &[(1, 1), (2, 1), (3, 5)])],
            ids(&[(1, 1), (2, 1), (3, 10)]),
        ),
    ];
    for (insts, up_to) in cases1.iter() {
        match find_missing_insts(insts, up_to) {
            None => assert!(true),
            Some(_) => assert!(false),
        };
    }

    let case2 = [
        // need recover (2, 6) and (3, 6)
        (vec![dinst((1, 2), &[(1, 1), (2, 6), (3, 6)])], ids(&[(1, 1), (2, 5), (3, 5)]), ids(&[(2, 6), (3, 6)])),
        // need recover (3, 2)
        (
            vec![dinst((1, 2), &[(1, 1), (2, 1), (3, 1)]), dinst((2, 2), &[(1, 1), (2, 1), (3, 3)])],
            ids(&[(1, 1), (2, 1), (3, 1)]),
            ids(&[(3, 2)]),
        ),
    ];
    for (insts, up_to, exp) in case2.iter() {
        match find_missing_insts(insts, up_to) {
            None => assert!(false),
            Some(s) => assert_eq!(exp, &s),
        };
    }
}
