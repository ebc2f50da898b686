use epaxos::qpaxos::{Command, Dep, Deps, Instance, InstanceId, InstanceIdVec, OpCode};
use epaxos::qpaxos::Record;
use epaxos::qpaxos::InstanceStatus;
use epaxos::replica::execute::{
    execution_entries, keys_to_read, make_cmd_entry, make_inst_entry, ExecAction, ExecuteResult, WriteEntry,
};
use epaxos::replica::{select_executable, Replica};

fn replica() -> Replica {
    Replica { replica_id: 1, group_replica_ids: vec![1, 2, 3], peers: vec![], committed_timeout: 100 }
}

fn inst(id: (i64, i64), cmds: &[(&str, &str, &str)], deps: &[i64]) -> Instance {
    let d: Vec<Dep> = deps.iter().enumerate().map(|(i, x)| Dep::from((i as i64 + 1, *x))).collect();
    Instance {
        instance_id: Some(id.into()),
        cmds: cmds.iter().map(|c| Command::from(*c)).collect(),
        deps: Some(Deps::from(d)),
        ..Default::default()
    }
}

fn ids(v: &[(i64, i64)]) -> InstanceIdVec {
    let x: Vec<InstanceId> = v.iter().map(|t| InstanceId::from(*t)).collect();
    x.into()
}

fn val(s: &str) -> ExecuteResult {
    ExecuteResult::SuccessWithVal(Some(s.as_bytes().to_vec()))
}

#[test]
fn test_execute_commands_results() {
    let rp = replica();
    let stored = vec![
        (b"x".to_vec(), Some(vec![11])),
        (b"y".to_vec(), Some(vec![22])),
        (b"xx".to_vec(), None),
    ];
    let insts = vec![
        inst((2, 2), &[], &[]),
        inst((2, 3), &[("Get", "xx", "")], &[]),
        inst((2, 4), &[("Get", "x", ""), ("Get", "y", "")], &[]),
        inst((2, 5), &[("NoOp", "", ""), ("Set", "y", "foo"), ("Get", "y", "")], &[]),
        inst((2, 6), &[("Get", "y", ""), ("Delete", "y", ""), ("Get", "y", "")], &[]),
    ];
    let (done, replies) = rp.execute_commands(&insts, &stored);
    assert_eq!(vec![InstanceId::from((2, 2)), (2, 3).into(), (2, 4).into(), (2, 5).into(), (2, 6).into()], done);
    assert_eq!(5, replies.len());
    assert_eq!(Vec::<ExecuteResult>::new(), replies[0].1);
    assert_eq!(vec![ExecuteResult::SuccessWithVal(None)], replies[1].1);
    assert_eq!(vec![ExecuteResult::SuccessWithVal(Some(vec![11])), ExecuteResult::SuccessWithVal(Some(vec![22]))], replies[2].1);
    assert_eq!(vec![ExecuteResult::Success, ExecuteResult::Success, val("foo")], replies[3].1);
    assert_eq!(vec![val("foo"), ExecuteResult::Success, ExecuteResult::SuccessWithVal(None)], replies[4].1);
    assert_eq!(InstanceId::from((2, 6)), replies[4].0);
}

/// Executes what `decide_execution` chose, with nothing stored before, and returns the
/// ids of the instances executed.
fn executed(rp: &Replica, a: ExecAction) -> Vec<InstanceId> {
    match a {
        ExecAction::Execute(v) => {
            let stored: Vec<(Vec<u8>, Option<Vec<u8>>)> =
                keys_to_read(&v).into_iter().map(|k| (k, None)).collect();
            let (sel, ids, _) = rp.execute_instances(v, &stored);
            assert_eq!(ids, sel.iter().map(|i| i.instance_id.unwrap()).collect::<Vec<_>>());
            ids
        }
        other => panic!("not an execution: {:?}", other),
    }
}

#[test]
fn test_exec_test_execute_instances() {
    let rp = replica();
    let up_to = ids(&[(1, 0), (2, 0), (3, 0)]);

    // (3, 1)→(2, 1)→(1, 1)
    let min_insts = vec![
        inst((1, 1), &[("Set", "x", "vx")], &[0, 0, 0]),
        inst((2, 1), &[("NoOp", "", "")], &[1, 0, 0]),
        inst((3, 1), &[("Set", "y", "vy")], &[1, 1, 0]),
    ];
    assert_eq!(vec![InstanceId::from((1, 1))], executed(&rp, rp.decide_execution(min_insts, &up_to)));

    // (3, 1)~(2, 1)~(1, 1)
    let min_insts = vec![
        inst((1, 1), &[("Set", "x", "vx")], &[0, 1, 0]),
        inst((2, 1), &[("NoOp", "", "")], &[1, 0, 0]),
        inst((3, 1), &[("Set", "y", "vy")], &[1, 0, 0]),
    ];
    assert_eq!(
        vec![InstanceId::from((1, 1)), (2, 1).into(), (3, 1).into()],
        executed(&rp, rp.decide_execution(min_insts, &up_to))
    );

    // (3, 1) →(1, 1)
    //       ↘   ~
    //         (2, 1)
    let min_insts = vec![
        inst((1, 1), &[("Set", "x", "vx")], &[0, 1, 0]),
        inst((2, 1), &[("NoOp", "", "")], &[1, 0, 0]),
        inst((3, 1), &[("Set", "y", "vy")], &[1, 1, 0]),
    ];
    assert_eq!(vec![InstanceId::from((1, 1)), (2, 1).into()], executed(&rp, rp.decide_execution(min_insts, &up_to)));
}

#[test]
fn test_decide_execution_recover_and_idle() {
    let rp = replica();
    assert!(matches!(rp.decide_execution(vec![], &ids(&[])), ExecAction::Idle));

    let a = rp.decide_execution(vec![inst((1, 2), &[], &[1, 6, 6])], &ids(&[(1, 1), (2, 5), (3, 5)]));
    match a {
        ExecAction::Recover(v) => assert_eq!(ids(&[(2, 6), (3, 6)]), v),
        other => panic!("not a recovery: {:?}", other),
    }

    let a = rp.decide_execution(vec![inst((1, 2), &[], &[1, 1, 1])], &ids(&[(1, 1), (2, 1), (3, 1)]));
    assert_eq!(vec![InstanceId::from((1, 2))], executed(&rp, a));
}

#[test]
fn test_exec_targets() {
    let rp = replica();
    let (up_to, next) = rp.exec_targets(
        &[Some((1, 3).into()), None, Some((3, 7).into())],
        &[Some((1, 5).into()), Some((2, 0).into()), Some((3, 7).into())],
    );
    assert_eq!(ids(&[(1, 3), (2, -1), (3, 7)]), up_to);
    assert_eq!(ids(&[(1, 4), (2, 0)]), next);

    let (up_to, next) = rp.exec_targets(&[None, None, None], &[None, Some((2, 0).into()), None]);
    assert_eq!(ids(&[(2, -1)]), up_to);
    assert_eq!(ids(&[(2, 0)]), next);
}

#[test]
fn test_timeout_to_committed() {
    let rp = replica();
    let mut problems: Vec<(InstanceId, u64)> = vec![];
    let a = InstanceId::from((1, 4));
    assert!(!rp.timeout_to_committed(&mut problems, a, 1000));
    assert_eq!(vec![(a, 1000)], problems);
    assert!(!rp.timeout_to_committed(&mut problems, a, 1050));
    assert!(rp.timeout_to_committed(&mut problems, a, 1100));

    // a later instance of the same replica takes its place
    let b = InstanceId::from((1, 5));
    assert!(!rp.timeout_to_committed(&mut problems, b, 1200));
    assert_eq!(vec![(b, 1200)], problems);

    let c = InstanceId::from((2, 1));
    assert!(!rp.timeout_to_committed(&mut problems, c, 1300));
    assert_eq!(vec![(b, 1200), (c, 1300)], problems);
}

#[test]
fn test_get_insts_if_committed() {
    let rp = replica();
    let mut problems: Vec<(InstanceId, u64)> = vec![((3, 1).into(), 0)];
    let mut committed = inst((1, 1), &[], &[0, 0, 0]);
    committed.committed = true;
    let pending = inst((3, 1), &[], &[0, 0, 0]);
    let iids = vec![InstanceId::from((1, 1)), (2, 1).into(), (3, 1).into()];
    let (done, rec) = rp.get_insts_if_committed(&iids, vec![Some(committed.clone()), None, Some(pending)], &mut problems, 500);
    assert_eq!(vec![committed], done);
    assert_eq!(ids(&[(2, 1), (3, 1)]), rec);
}

#[test]
fn test_make_cmd_entry() {
    match make_cmd_entry(&Command::from(("Set", "k", "v"))) {
        WriteEntry::SetRecord(k, v) => {
            assert_eq!(k, b"k".to_vec());
            assert_eq!(v, Record::from(b"v".to_vec()));
        }
        e => panic!("unexpected {:?}", e),
    }
    match make_cmd_entry(&Command::from(("Delete", "k", ""))) {
        WriteEntry::DeleteRecord(k) => assert_eq!(k, b"k".to_vec()),
        e => panic!("unexpected {:?}", e),
    }
    assert!(matches!(make_cmd_entry(&Command::from(("Get", "k", ""))), WriteEntry::Nil));
    assert!(matches!(make_cmd_entry(&Command::from(("NoOp", "k", ""))), WriteEntry::Nil));
}

#[test]
fn test_make_inst_entry() {
    let i = inst((1, 10), &[("Set", "x", "1")], &[0]);
    assert_eq!(i.to_key(), b"/instance/0000000000000001/000000000000000a".to_vec());
    match make_inst_entry(i.clone()) {
        WriteEntry::SetInstance(k, got) => {
            assert_eq!(k, b"/instance/0000000000000001/000000000000000a".to_vec());
            assert_eq!(got, i);
        }
        e => panic!("unexpected {:?}", e),
    }
}

#[test]
fn test_keys_to_read() {
    let a = inst((1, 1), &[("Get", "x", ""), ("Set", "y", "1"), ("Get", "y", "")], &[0]);
    let b = inst((2, 1), &[("NoOp", "z", ""), ("Get", "x", "")], &[0]);
    let keys = keys_to_read(&vec![a, b]);
    assert_eq!(keys, vec![b"x".to_vec(), b"y".to_vec(), b"x".to_vec()]);
}

#[test]
fn exec_tests_test_execute_instances() {
    let rp = replica();
    let up_to = ids(&[(1, 0), (2, 0), (3, 0)]);
    let mk = |id: (i64, i64), c: Command, d: &[i64]| {
        let mut i = inst(id, &[], d);
        i.cmds = vec![c];
        i
    };
    let set2 = || Command::of(OpCode::Put, &[2], &[222]);
    let noop = || Command::of(OpCode::NoOp, &[], &[]);
    let set1 = || Command::of(OpCode::Put, &[1], &[11]);

    // (3, 1)→(2, 1)→(1, 1)
    let min_insts = vec![mk((1, 1), set2(), &[0, 0, 0]), mk((2, 1), noop(), &[1, 0, 0]), mk((3, 1), set1(), &[1, 1, 0])];
    assert_eq!(vec![InstanceId::from((1, 1))], executed(&rp, rp.decide_execution(min_insts, &up_to)));

    // (3, 1)~(2, 1)~(1, 1)
    let min_insts = vec![mk((1, 1), set2(), &[0, 1, 0]), mk((2, 1), noop(), &[1, 0, 0]), mk((3, 1), set1(), &[1, 0, 0])];
    assert_eq!(
        vec![InstanceId::from((1, 1)), (2, 1).into(), (3, 1).into()],
        executed(&rp, rp.decide_execution(min_insts, &up_to))
    );

    // (3, 1) →(1, 1)
    //       ↘   ~
    //         (2, 1)
    let min_insts = vec![mk((1, 1), set2(), &[0, 1, 0]), mk((2, 1), noop(), &[1, 0, 0]), mk((3, 1), set1(), &[1, 1, 0])];
    assert_eq!(vec![InstanceId::from((1, 1)), (2, 1).into()], executed(&rp, rp.decide_execution(min_insts, &up_to)));
}

#[test]
fn test_execute_instances_reads_stored_and_written() {
    let rp = replica();
    // (2, 1) comes after (1, 1): only (1, 1) runs.
    let a = inst((1, 1), &[("Get", "x", ""), ("Set", "x", "9"), ("Get", "x", "")], &[0, 0, 0]);
    let b = inst((2, 1), &[("Get", "y", "")], &[1, 0, 0]);
    let stored = vec![(b"x".to_vec(), Some(b"1".to_vec())), (b"y".to_vec(), None)];
    let (sel, ids, replies) = rp.execute_instances(vec![a.clone(), b], &stored);
    assert_eq!(vec![a], sel);
    assert_eq!(vec![InstanceId::from((1, 1))], ids);
    assert_eq!(vec![(InstanceId::from((1, 1)), vec![val("1"), ExecuteResult::Success, val("9")])], replies);
}

// A store of instances and of the "exec" and "max" references of each replica, changed
// the way a storage engine applies a write batch.
struct Store {
    insts: std::collections::BTreeMap<InstanceId, Instance>,
    exec: std::collections::BTreeMap<i64, InstanceId>,
    max: std::collections::BTreeMap<i64, InstanceId>,
}

impl Store {
    fn apply(&mut self, entries: &[WriteEntry]) {
        for e in entries {
            match e {
                WriteEntry::SetInstance(_, inst) => {
                    self.insts.insert(inst.instance_id.unwrap(), inst.clone());
                }
                WriteEntry::SetExecRef(iid) => {
                    self.exec.insert(iid.replica_id, *iid);
                }
                _ => {}
            }
        }
    }

    // One round of execution of replica `rp`, as the loop around the library runs it.
    fn execute(&mut self, rp: &Replica) -> Vec<InstanceId> {
        let exec_refs: Vec<Option<InstanceId>> =
            rp.group_replica_ids.iter().map(|r| self.exec.get(r).cloned()).collect();
        let max_refs: Vec<Option<InstanceId>> =
            rp.group_replica_ids.iter().map(|r| self.max.get(r).cloned()).collect();
        let (up_to, next) = rp.exec_targets(&exec_refs, &max_refs);
        let found: Vec<Option<Instance>> = next.ids.iter().map(|i| self.insts.get(i).cloned()).collect();
        let mut problems = vec![];
        let (done, _recover) = rp.get_insts_if_committed(&next.ids, found, &mut problems, 0);
        let insts = match rp.decide_execution(done, &up_to) {
            ExecAction::Execute(v) => v,
            _ => return vec![],
        };
        let stored: Vec<(Vec<u8>, Option<Vec<u8>>)> =
            keys_to_read(&insts).into_iter().map(|k| (k, None)).collect();
        let (sel, ids, _) = rp.execute_instances(insts, &stored);
        let entries = execution_entries(&sel);
        self.apply(&entries);
        ids
    }
}

fn cinst(id: (i64, i64), deps: &[(i64, i64)]) -> Instance {
    let d: Vec<Dep> = deps.iter().map(|t| Dep::from(*t)).collect();
    Instance { instance_id: Some(id.into()), deps: Some(Deps::from(d)), committed: true, ..Default::default() }
}

#[test]
fn exec_tests_test_replica_execute() {
    let rp = Replica { replica_id: 0, group_replica_ids: vec![1, 2, 3], peers: vec![], committed_timeout: 10000 };
    let mut sto = Store {
        insts: std::collections::BTreeMap::new(),
        exec: std::collections::BTreeMap::new(),
        max: std::collections::BTreeMap::new(),
    };

    let cases: Vec<(Vec<Instance>, Vec<(i64, i64)>, Vec<(i64, i64)>, Vec<InstanceId>)> = vec![
        (
            vec![cinst((1, 1), &[(1, 0), (2, 0), (3, 0)])],
            vec![(1, 1), (2, 0), (3, 0)],
            vec![(1, 0), (2, 0), (3, 0)],
            vec![InstanceId::from((1, 1))],
        ),
        // (3, 2)->(2, 2)->(1, 2)
        (
            vec![
                cinst((1, 2), &[(1, 1), (2, 1), (3, 1)]),
                cinst((2, 2), &[(1, 2), (2, 1), (3, 1)]),
                cinst((3, 2), &[(1, 2), (2, 2), (3, 1)]),
            ],
            vec![(1, 2), (2, 2), (3, 2)],
            vec![(1, 1), (2, 1), (3, 1)],
            vec![InstanceId::from((1, 2))],
        ),
        // (1, 3)~(2, 3)~(3, 3)
        (
            vec![
                cinst((1, 3), &[(1, 2), (2, 3), (3, 2)]),
                cinst((2, 3), &[(1, 3), (2, 2), (3, 2)]),
                cinst((3, 3), &[(1, 3), (2, 2), (3, 2)]),
            ],
            vec![(1, 3), (2, 3), (3, 3)],
            vec![(1, 2), (2, 2), (3, 2)],
            vec![InstanceId::from((1, 3)), (2, 3).into(), (3, 3).into()],
        ),
        // (1, 4)->(2, 4)~(3, 4)
        (
            vec![
                cinst((1, 4), &[(1, 3), (2, 4), (3, 4)]),
                cinst((2, 4), &[(1, 3), (2, 3), (3, 4)]),
                cinst((3, 4), &[(1, 4), (2, 4), (3, 3)]),
            ],
            vec![(1, 4), (2, 4), (3, 4)],
            vec![(1, 3), (2, 3), (3, 3)],
            vec![InstanceId::from((2, 4))],
        ),
        // (1, 5)[NotFound]<-(2, 5)~(3, 5)
        (
            vec![cinst((2, 5), &[(1, 5), (2, 4), (3, 5)]), cinst((3, 5), &[(1, 4), (2, 5), (3, 4)])],
            vec![(1, 4), (2, 5), (3, 5)],
            vec![(1, 4), (2, 4), (3, 4)],
            Vec::<InstanceId>::new(),
        ),
    ];

    for (insts, max_ref, exec_ref, rst) in cases.iter() {
        for inst in insts.iter() {
            sto.insts.insert(inst.instance_id.unwrap(), inst.clone());
        }
        for (rid, idx) in max_ref.iter() {
            sto.max.insert(*rid, (*rid, *idx).into());
        }
        for (rid, idx) in exec_ref.iter() {
            sto.exec.insert(*rid, (*rid, *idx).into());
        }

        let r = sto.execute(&rp);
        assert_eq!(rst, &r);
        for iid in r.iter() {
            assert_eq!(Some(iid), sto.exec.get(&iid.replica_id));
            assert_eq!(true, sto.insts[iid].executed);
        }
    }
}

#[test]
fn test_execution_entries() {
    let a = inst((1, 1), &[("Set", "x", "1"), ("Get", "x", "")], &[0, 0, 0]);
    let b = inst((2, 3), &[("Delete", "y", "")], &[1, 0, 0]);
    let es = execution_entries(&vec![a.clone(), b.clone()]);
    assert_eq!(7, es.len());
    assert!(matches!(&es[0], WriteEntry::SetRecord(k, v) if k == b"x" && *v == Record::from(b"1".to_vec())));
    assert!(matches!(&es[1], WriteEntry::Nil));
    assert!(matches!(&es[2], WriteEntry::SetExecRef(i) if *i == InstanceId::from((1, 1))));
    assert!(matches!(&es[3], WriteEntry::DeleteRecord(k) if k == b"y"));
    assert!(matches!(&es[4], WriteEntry::SetExecRef(i) if *i == InstanceId::from((2, 3))));
    match &es[5] {
        WriteEntry::SetInstance(k, i) => {
            assert_eq!(k, &b"/instance/0000000000000002/0000000000000003".to_vec());
            assert!(i.executed);
            assert_eq!(Instance { executed: true, ..b.clone() }, *i);
        }
        e => panic!("unexpected {:?}", e),
    }
    match &es[6] {
        WriteEntry::SetInstance(_, i) => assert_eq!(Instance { executed: true, ..a.clone() }, *i),
        e => panic!("unexpected {:?}", e),
    }
}

#[test]
fn test_status_executed() {
    let mut i = inst((1, 1), &[], &[0]);
    assert_eq!(InstanceStatus::Prepared, i.status());
    i.committed = true;
    assert_eq!(InstanceStatus::Committed, i.status());
    i.executed = true;
    assert_eq!(InstanceStatus::Executed, i.status());
}

#[test]
fn test_select_executable_ties() {
    // None goes first: all run, same ids in input order.
    let a1 = inst((1, 1), &[("Set", "x", "1")], &[0, 0, 0]);
    let a2 = inst((1, 1), &[("Set", "x", "2")], &[0, 0, 0]);
    let got = select_executable(vec![a1.clone(), a2.clone()]);
    assert_eq!(vec![a1.clone(), a2.clone()], got);

    // Both copies of (1, 1) go first, since (2, 1) comes after them: they are taken
    // last one first, and keep that order.
    let b = inst((2, 1), &[("Set", "y", "1")], &[1, 0, 0]);
    let got = select_executable(vec![a1.clone(), a2.clone(), b]);
    assert_eq!(vec![a2, a1], got);
}
