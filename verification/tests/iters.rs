use epaxos::iters::{BaseIter, InstanceIter};
use epaxos::qpaxos::{BallotNum, Command, Dep, Instance, InstanceId, OpCode};

// A sorted key-value store, read the way a storage engine is: the first record after
// (or before) a key, the key itself included or not.
fn next_raw(
    kvs: &[(Vec<u8>, Vec<u8>)],
    cur: &[u8],
    forward: bool,
    inclusive: bool,
) -> Option<(Vec<u8>, Vec<u8>)> {
    if forward {
        kvs.iter()
            .find(|kv| if inclusive { kv.0.as_slice() >= cur } else { kv.0.as_slice() > cur })
            .cloned()
    } else {
        kvs.iter()
            .rev()
            .find(|kv| if inclusive { kv.0.as_slice() <= cur } else { kv.0.as_slice() < cur })
            .cloned()
    }
}

fn collect_raw(kvs: &[(Vec<u8>, Vec<u8>)], mut it: BaseIter) -> Vec<(Vec<u8>, Vec<u8>)> {
    let mut r = vec![];
    loop {
        let nxt = next_raw(kvs, &it.cursor, !it.reverse, it.inclusive);
        match it.advance(nxt) {
            Some(kv) => r.push(kv),
            None => break,
        }
    }
    r
}

fn base_iter(cur: &str, inclusive: bool, reverse: bool) -> BaseIter {
    BaseIter { cursor: cur.as_bytes().to_vec(), inclusive: inclusive, reverse }
}

#[test]
fn test_base_iter() {
    let mut kvs = vec![];
    let mut ks = vec![];
    let mut vs = vec![];
    for i in 0..100 {
        let k = format!("K{:>03}", i).as_bytes().to_vec();
        let v = format!("V{:?}", i).as_bytes().to_vec();
        kvs.push((k.clone(), v.clone()));
        ks.push(k);
        vs.push(v);
    }

    let r = collect_raw(&kvs, base_iter("K000", false, true));
    assert_eq!(0, r.len());

    let r = collect_raw(&kvs, base_iter("K099", false, false));
    assert_eq!(0, r.len());

    let cases: Vec<(&str, bool, bool, Box<dyn Fn(usize) -> usize>)> = vec![
        ("K000", true, false, Box::new(|x| x)),
        ("K000", false, false, Box::new(|x| x + 1)),
        ("K099", true, true, Box::new(|x| 100 - x - 1)),
        ("K099", false, true, Box::new(|x| 100 - x - 1 - 1)),
        ("K050", true, false, Box::new(|x| x + 50)),
        ("K050", false, false, Box::new(|x| x + 50 + 1)),
        ("K050", true, true, Box::new(|x| 100 - x - 50)),
        ("K050", false, true, Box::new(|x| 100 - x - 50 - 1)),
    ];
    for (cur, inclusive, reverse, idx) in cases.iter() {
        let got = collect_raw(&kvs, base_iter(cur, *inclusive, *reverse));
        for (i, kv) in got.iter().enumerate() {
            assert_eq!(ks[idx(i)], kv.0);
            assert_eq!(vs[idx(i)], kv.1);
        }
    }
}

#[test]
fn test_base_iter_advance_moves_cursor() {
    let mut it = base_iter("K001", true, false);
    let r = it.advance(Some((b"K002".to_vec(), b"V2".to_vec())));
    assert_eq!(r, Some((b"K002".to_vec(), b"V2".to_vec())));
    assert_eq!(it.cursor, b"K002".to_vec());
    assert!(!it.inclusive);
    assert!(!it.reverse);

    let r = it.advance(None);
    assert_eq!(r, None);
    assert_eq!(it.cursor, b"K002".to_vec());
}

// Instances kept in order of their ids, read as storage reads them.
fn next_inst(
    insts: &[(InstanceId, Instance)],
    cur: &InstanceId,
    forward: bool,
    inclusive: bool,
) -> Option<(InstanceId, Instance)> {
    let key = |i: &InstanceId| (i.replica_id, i.idx);
    if forward {
        insts.iter()
            .find(|x| if inclusive { key(&x.0) >= key(cur) } else { key(&x.0) > key(cur) })
            .cloned()
    } else {
        insts.iter()
            .rev()
            .find(|x| if inclusive { key(&x.0) <= key(cur) } else { key(&x.0) < key(cur) })
            .cloned()
    }
}

fn assert_inst_iter(insts: &[(InstanceId, Instance)], mut it: InstanceIter, want: &[&Instance]) {
    let mut n = 0;
    loop {
        let nxt = next_inst(insts, &it.curr_inst_id, !it.reverse, it.inclusive);
        let act_inst = match it.advance(nxt) {
            Some(x) => x,
            None => break,
        };
        assert_eq!(act_inst.cmds, want[n].cmds);
        assert_eq!(act_inst.ballot, want[n].ballot);
        assert_eq!(act_inst.instance_id, want[n].instance_id);
        n = n + 1;
    }
    assert_eq!(want.len(), n);
}

fn inst_iter(iid: InstanceId, inclusive: bool, reverse: bool) -> InstanceIter {
    InstanceIter { curr_inst_id: iid, inclusive: inclusive, reverse }
}

#[test]
fn test_instance_iter() {
    let mut ints = Vec::<Instance>::new();
    let mut sto: Vec<(InstanceId, Instance)> = vec![];
    let s2: Vec<(InstanceId, Instance)> = vec![];

    for rid in 0..3i64 {
        for idx in 0..10i64 {
            let iid = InstanceId::from((rid, idx));

            let cmds = vec![Command::from((
                OpCode::NoOp,
                format!("k1{:}", rid * idx).as_bytes(),
                format!("v1{:}", rid * idx).as_bytes(),
            ))];

            let ballot: BallotNum = (idx as i32, 0).into();
            let depvec = vec![Dep::from((rid + 1, idx + 1))];
            let mut inst = Instance::of(&cmds[..], ballot, &depvec[..]);
            inst.instance_id = Some(iid);

            sto.push((iid, inst.clone()));
            assert_eq!(inst.cmds, cmds);

            ints.push(inst);
        }
    }

    let cases: Vec<(InstanceId, bool, &[Instance], &[Instance])> = vec![
        (InstanceId::from((0, 0)), true, &ints[..10], &ints[0..1]),
        (InstanceId::from((0, 0)), false, &ints[1..10], &[]),
        (InstanceId::from((2, 0)), true, &ints[20..30], &ints[20..21]),
        (InstanceId::from((2, 9)), true, &ints[29..30], &ints[20..30]),
        (InstanceId::from((4, 0)), true, &[], &[]),
    ];

    for (start_iid, inclusive, exp_insts, rev_exp_insts) in cases {
        let mut exp = vec![];
        exp.extend(exp_insts.iter());
        assert_inst_iter(&sto, inst_iter(start_iid, inclusive, false), &exp);

        let mut exp = vec![];
        exp.extend(rev_exp_insts.iter().rev());
        assert_inst_iter(&sto, inst_iter(start_iid, inclusive, true), &exp);

        let exp = vec![];
        assert_inst_iter(&s2, inst_iter(start_iid, inclusive, false), &exp);
        assert_inst_iter(&s2, inst_iter(start_iid, inclusive, true), &exp);
    }
}

#[test]
fn test_instance_iter_stops_at_other_replica() {
    let iid = InstanceId::from((1, 5));
    let mut it = inst_iter(iid, true, false);
    let other = Instance::of(&[], (0, 0).into(), &[]);
    let r = it.advance(Some((InstanceId::from((2, 0)), other.clone())));
    assert!(r.is_none());
    assert_eq!(it.curr_inst_id, iid);
    assert!(it.inclusive);

    let r = it.advance(Some((InstanceId::from((1, 6)), other.clone())));
    assert_eq!(r, Some(other));
    assert_eq!(it.curr_inst_id, InstanceId::from((1, 6)));
    assert!(!it.inclusive);
}
