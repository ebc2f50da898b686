use epaxos::qpaxos::{BallotNum, Command, Conflict, Dep, Deps, Instance, InstanceId, InstanceStatus};

fn cmds(v: &[(&str, &str, &str)]) -> Vec<Command> {
    v.iter().map(|t| Command::from(*t)).collect()
}

fn deps(v: &[(i64, i64)]) -> Option<Deps> {
    let d: Vec<Dep> = v.iter().map(|t| Dep::from(*t)).collect();
    Some(d.into())
}

#[test]
fn test_macro_inst_all_arg() {
    let want = Instance {
        instance_id: Some((1, 2).into()),
        ballot: Some((4, 2).into()),
        cmds: vec![("Set", "x", "y").into(), ("Get", "a", "").into()],
        deps: Some(Deps { dep_vec: vec![(12, 13).into(), (14, 15).into()] }),
        vballot: Some((2, 3).into()),
        committed: true,
        executed: false,
    };

    let got = Instance {
        instance_id: Some(InstanceId::from((1, 2))),
        ballot: Some(BallotNum { num: 4, replica_id: 2 }),
        cmds: cmds(&[("Set", "x", "y"), ("Get", "a", "")]),
        deps: deps(&[(12, 13), (14, 15)]),
        vballot: Some(BallotNum { num: 2, replica_id: 3 }),
        committed: true,
        executed: false,
    };
    assert_eq!(want, got);

    // id is InstanceId
    let got = Instance { instance_id: Some(InstanceId::from((1, 2))), ..got };
    assert_eq!(want, got);
}

#[test]
fn test_instance_test_macro_inst() {
    let mut want = Instance {
        instance_id: Some((1, 2).into()),
        ballot: Some((4, 1).into()),
        cmds: vec![("Set", "x", "y").into(), ("Get", "a", "").into()],
        deps: Some(Deps { dep_vec: vec![(11, 12).into(), (13, 14).into()] }),
        vballot: None,
        committed: false,
        executed: false,
    };

    let base = Instance {
        instance_id: Some(InstanceId::from((1, 2))),
        ballot: Some(BallotNum { num: 4, replica_id: 1 }),
        cmds: cmds(&[("Set", "x", "y"), ("Get", "a", "")]),
        ..Default::default()
    };

    // only initial_deps
    assert_eq!(want, Instance { deps: deps(&[(11, 12), (13, 14)]), ..base.clone() });

    // deps
    want.deps = Some(vec![InstanceId::from((10, 0)), InstanceId::from((11, 12))].into());
    assert_eq!(want, Instance { deps: deps(&[(10, 0), (11, 12)]), ..base.clone() });

    // initial_deps is None
    want.deps = None;
    assert_eq!(want, base);
}

#[test]
fn test_instance_conflict() {
    let nx = Command::from(("NoOp", "x", "1"));
    let gx = Command::from(("Get", "x", "1"));
    let sx = Command::from(("Set", "x", "1"));

    let ny = Command::from(("NoOp", "y", "1"));
    let _gy = Command::from(("Get", "y", "1"));
    let sy = Command::from(("Set", "y", "1"));

    let nxny = Instance::of(&[nx.clone(), ny.clone()], (0, 0).into(), &[]);
    let gxny = Instance::of(&[gx.clone(), ny.clone()], (0, 0).into(), &[]);
    let sxny = Instance::of(&[sx.clone(), ny.clone()], (0, 0).into(), &[]);
    let sxsy = Instance::of(&[sx.clone(), sy.clone()], (0, 0).into(), &[]);
    let gxsy = Instance::of(&[gx.clone(), sy.clone()], (0, 0).into(), &[]);

    assert!(!nxny.conflict(&nxny));
    assert!(!nxny.conflict(&gxny));
    assert!(!nxny.conflict(&sxny));
    assert!(!nxny.conflict(&sxsy));
    assert!(!nxny.conflict(&gxsy));

    assert!(!gxny.conflict(&gxny));
    assert!(gxny.conflict(&sxny));
    assert!(gxny.conflict(&sxsy));
    assert!(!gxny.conflict(&gxsy));

    assert!(sxny.conflict(&sxny));
    assert!(sxny.conflict(&sxsy));
    assert!(sxny.conflict(&gxsy));

    assert!(sxsy.conflict(&sxsy));
    assert!(sxsy.conflict(&gxsy));

    assert!(gxsy.conflict(&gxsy));
}

fn dinst(v: &[(i64, i64)]) -> Instance {
    Instance { deps: deps(v), ..Default::default() }
}

#[test]
fn t_test_instance_after() {
    let cases = vec![
        (dinst(&[(1, 1)]), dinst(&[(1, 1)]), false),
        (dinst(&[(1, 1)]), dinst(&[(1, 0)]), true),
        (dinst(&[(1, 1), (2, 1)]), dinst(&[(1, 1), (2, 1)]), false),
        (dinst(&[(1, 1), (2, 1)]), dinst(&[(1, 1), (2, 0)]), true),
        (dinst(&[(1, 1), (2, 1), (3, 1)]), dinst(&[(1, 1), (2, 1)]), false),
        (dinst(&[(1, 1), (2, 1)]), dinst(&[(1, 1), (2, 1), (3, 1)]), false),
        (dinst(&[(1, 2), (2, 1)]), dinst(&[(1, 1), (2, 1), (3, 1)]), true),
    ];

    for (a, b, r) in cases {
        assert_eq!(r, a.after(&b));
    }
}

#[test]
fn test_instance_after_is_irreflexive_and_asymmetric() {
    let a = dinst(&[(1, 2), (2, 1)]);
    let b = dinst(&[(1, 1), (2, 1)]);
    assert!(!a.after(&a));
    assert!(a.after(&b));
    assert!(!b.after(&a));
}

#[test]
fn test_instance_status() {
    let mut inst = Instance::default();
    assert_eq!(InstanceStatus::Na, inst.status());
    inst.deps = deps(&[(1, 1)]);
    assert_eq!(InstanceStatus::Prepared, inst.status());
    inst.vballot = Some((1, 1).into());
    assert_eq!(InstanceStatus::Accepted, inst.status());
    inst.committed = true;
    assert_eq!(InstanceStatus::Committed, inst.status());
}

#[test]
fn test_instance_of() {
    let inst = Instance::of(&cmds(&[("Set", "x", "1")]), (3, 4).into(), &[(1, 2).into()]);
    assert_eq!(None, inst.instance_id);
    assert_eq!(Some(BallotNum { num: 3, replica_id: 4 }), inst.ballot);
    assert_eq!(deps(&[(1, 2)]), inst.deps);
    assert!(!inst.committed);
}

#[test]
fn test_deps_index() {
    let d = Deps { dep_vec: vec![Dep::from((1, 2)), Dep::from((3, 4, 5)), Dep::from((1, 9))] };
    assert_eq!(*d.index(1), Dep::from((1, 2)));
    assert_eq!(*d.index(3), Dep { replica_id: 3, idx: 4, seq: 5 });

    let v = epaxos::qpaxos::InstanceIdVec { ids: vec![InstanceId::from((2, 6)), InstanceId::from((4, 1))] };
    assert_eq!(*v.index(4), InstanceId::from((4, 1)));

    let dv = epaxos::qpaxos::DepVec { ids: vec![Dep::from((7, 8))] };
    assert_eq!(*dv.index(7), Dep::from((7, 8)));
}
