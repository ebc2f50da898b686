use epaxos::qpaxos::{fast_quorum, quorum, BallotNum, Command, Dep, Deps, Instance, InstanceId, ReplicaId};
use epaxos::replica::status::{get_accept_dep, get_fast_commit_dep, DepStatus, RepliedDep, ReplicationStatus};
use std::collections::HashMap;

fn inst_12() -> Instance {
    let deps: Vec<Dep> = vec![Dep::from((1, 1)), Dep::from((2, 0))];
    Instance {
        instance_id: Some(InstanceId::from((1, 2))),
        ballot: Some(BallotNum { num: 4, replica_id: 1 }),
        cmds: vec![Command::from(("Set", "x", "1"))],
        deps: Some(Deps::from(deps)),
        ..Default::default()
    }
}

fn rdep(idx: i64, committed: bool) -> RepliedDep {
    RepliedDep { idx, seq: 0, committed }
}

#[test]
fn test_status_new() {
    let inst = inst_12();

    let st = ReplicationStatus::new(7, inst.clone());

    assert_eq!(4, st.quorum);
    assert_eq!(5, st.fast_quorum);
    assert_eq!(st.instance, inst);

    assert!(st.prepared.contains_key(&1));
    assert!(st.prepared.contains_key(&2));
    assert!(st.prepared[&1].replied.contains(&1));
    assert!(!st.prepared[&1].replied.contains(&2));
    assert_eq!(vec![RepliedDep { idx: 1, seq: 0, committed: false }], st.prepared[&1].rdeps);
    assert_eq!(vec![RepliedDep { idx: 0, seq: 0, committed: false }], st.prepared[&2].rdeps);

    assert!(!st.accept_oks.contains(&1));
    assert!(!st.accept_oks.contains(&2));
}

#[test]
fn test_status_start_accept() {
    let inst = inst_12();
    let mut st = ReplicationStatus::new(7, inst.clone());

    assert!(!st.accept_oks.contains(&1));

    st.start_accept();

    assert!(st.accept_oks.contains(&1));
}

#[test]
fn test_get_fast_commit_dep() {
    let cases: Vec<(i32, Vec<RepliedDep>, Option<Dep>)> = vec![
        (1, vec![rdep(2, false)], Some(Dep::from((1, 2)))),
        (2, vec![rdep(2, false)], None),
        (2, vec![rdep(2, true)], None),
        (2, vec![rdep(2, false), rdep(3, false)], None),
        (2, vec![rdep(2, true), rdep(3, false)], None),
        (2, vec![rdep(2, true), rdep(3, true)], None),
        (2, vec![rdep(2, false), rdep(2, false)], Some(Dep::from((1, 2)))),
        (2, vec![rdep(2, false), rdep(2, true)], Some(Dep::from((1, 2)))),
        (2, vec![rdep(2, false), rdep(2, true), rdep(3, false)], Some(Dep::from((1, 2)))),
        (2, vec![rdep(2, false), rdep(2, false), rdep(3, false), rdep(3, false)], Some(Dep::from((1, 2)))),
        (2, vec![rdep(2, false), rdep(2, false), rdep(3, false), rdep(3, true)], Some(Dep::from((1, 2)))),
        (3, vec![rdep(2, false), rdep(2, false), rdep(3, false), rdep(3, true)], None),
        (3, vec![rdep(2, false), rdep(2, false), rdep(2, false), rdep(3, true)], Some(Dep::from((1, 2)))),
        (3, vec![rdep(2, false), rdep(2, false), rdep(2, true), rdep(3, false)], Some(Dep::from((1, 2)))),
        (3, vec![rdep(2, true), rdep(3, false), rdep(3, false), rdep(3, false)], None),
        (3, vec![rdep(2, false), rdep(3, false), rdep(3, false), rdep(3, true)], Some(Dep::from((1, 3)))),
    ];

    for (fast_quorum, deps, want) in cases.iter() {
        let fdep = get_fast_commit_dep(1, deps, *fast_quorum);
        assert_eq!(*want, fdep, "deps:{:?}, qf:{}", deps, fast_quorum);
    }
}

#[test]
fn test_get_accept_dep() {
    let case = |q: i32, idxs: &[i64], want: Option<Dep>| -> (i32, Vec<RepliedDep>, Option<Dep>) {
        (q, idxs.iter().map(|i| rdep(*i, false)).collect(), want)
    };
    let cases: Vec<(i32, Vec<RepliedDep>, Option<Dep>)> = vec![
        case(2, &[2], None),
        case(2, &[2, 2], Some(Dep::from((1, 2)))),
        case(2, &[2, 3], Some(Dep::from((1, 3)))),
        case(2, &[2, 2, 3], Some(Dep::from((1, 2)))),
        case(2, &[2, 2, 3, 3], Some(Dep::from((1, 2)))),
        case(3, &[2, 2], None),
        case(3, &[2, 2, 2, 3], Some(Dep::from((1, 2)))),
        case(3, &[2, 2, 3, 3], Some(Dep::from((1, 3)))),
        case(3, &[2, 2, 3, 4], Some(Dep::from((1, 3)))),
    ];

    for (quorum, deps, want) in cases.iter() {
        let adep = get_accept_dep(1, deps, *quorum);
        assert_eq!(*want, adep, "deps:{:?}, f:{}", deps, quorum);
    }
}

fn prepared(groups: &[Vec<RepliedDep>]) -> HashMap<ReplicaId, DepStatus> {
    let mut m = HashMap::new();
    let mut rid = 0;
    for g in groups {
        rid += 1;
        m.insert(rid, DepStatus { rdeps: g.clone(), ..Default::default() });
    }
    m
}

fn depvec(v: &[(i64, i64)]) -> Vec<Dep> {
    v.iter().map(|t| Dep::from(*t)).collect()
}

#[test]
fn test_status_get_fast_commit_deps() {
    let cases: Vec<(i32, Vec<Vec<RepliedDep>>, Option<Vec<Dep>>)> = vec![
        (1, (vec![vec![rdep(2, false)]]), Some(depvec(&[(1, 2)]))),
        (1, (vec![vec![rdep(2, true)]]), Some(depvec(&[(1, 2)]))),
        (2, (vec![vec![rdep(2, false), rdep(3, true)], vec![rdep(2, false)]]), None),
        (
            2,
            (vec![vec![rdep(2, false), rdep(2, false)], vec![rdep(2, false), rdep(2, false)]]),
            Some(depvec(&[(1, 2), (2, 2)])),
        ),
        (
            2,
            (vec![vec![rdep(3, false), rdep(3, true)], vec![rdep(4, false), rdep(4, true)]]),
            Some(depvec(&[(1, 3), (2, 4)])),
        ),
        (3, (vec![vec![rdep(2, false)], vec![rdep(3, false)], vec![rdep(4, false)]]), None),
        (
            3,
            (vec![
                vec![rdep(2, false), rdep(2, false)],
                vec![rdep(3, false), rdep(3, false)],
                vec![rdep(4, false), rdep(4, false)],
            ]),
            Some(depvec(&[(1, 2), (2, 3), (3, 4)])),
        ),
        (
            3,
            (vec![
                vec![rdep(2, false), rdep(2, false), rdep(4, false)],
                vec![rdep(3, false), rdep(4, false), rdep(4, true)],
                vec![rdep(3, false), rdep(5, false), rdep(5, true)],
            ]),
            Some(depvec(&[(1, 2), (2, 4), (3, 5)])),
        ),
    ];

    for (n, deps, want) in cases.iter() {
        let fq = fast_quorum(*n);
        let mut st = ReplicationStatus { fast_quorum: fq, prepared: prepared(deps), ..Default::default() };
        let cluster: Vec<i64> = (1..(*n + 1) as i64).collect();
        let adep = st.get_fast_commit_deps(&cluster);
        assert_eq!(*want, adep, "deps:{:?}, n:{}, fq:{}", deps, n, fq);
    }
}

#[test]
fn test_status_get_accept_deps() {
    let c = |idxs: &[i64]| -> Vec<RepliedDep> { idxs.iter().map(|i| rdep(*i, true)).collect() };
    let cases: Vec<(i32, Vec<Vec<RepliedDep>>, Option<Vec<Dep>>)> = vec![
        (1, (vec![c(&[2])]), Some(depvec(&[(1, 2)]))),
        (2, (vec![c(&[2]), c(&[2])]), None),
        (2, (vec![c(&[2, 3]), c(&[2, 4])]), Some(depvec(&[(1, 3), (2, 4)]))),
        (3, (vec![c(&[2]), c(&[3]), c(&[4])]), None),
        (3, (vec![c(&[2, 2]), c(&[3, 4]), c(&[3, 5])]), Some(depvec(&[(1, 2), (2, 4), (3, 5)]))),
        (
            3,
            (vec![c(&[2, 2, 4]), c(&[3, 4, 4]), c(&[3, 5, 5])]),
            Some(depvec(&[(1, 2), (2, 4), (3, 5)])),
        ),
    ];

    for (n, deps, want) in cases.iter() {
        let q = quorum(*n);
        let mut st = ReplicationStatus { quorum: q, prepared: prepared(deps), ..Default::default() };
        let cluster: Vec<i64> = (1..(*n + 1) as i64).collect();
        let adep = st.get_accept_deps(&cluster);
        assert_eq!(*want, adep, "deps:{:?}, n:{}, q:{}", deps, n, q);
    }
}

#[test]
fn test_get_fast_commit_deps_sorts_replies() {
    let mut st = ReplicationStatus {
        fast_quorum: 2,
        quorum: 2,
        prepared: prepared(&[vec![rdep(3, true), rdep(2, false), rdep(3, false)]]),
        ..Default::default()
    };
    assert_eq!(Some(depvec(&[(1, 3)])), st.get_fast_commit_deps(&[1]));
    assert_eq!(vec![rdep(2, false), rdep(3, false), rdep(3, true)], st.prepared[&1].rdeps);
}
