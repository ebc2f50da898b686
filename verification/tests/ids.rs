use epaxos::qpaxos::{BallotNum, Dep, InstanceId, ReplicaStatus};
use std::str;

#[test]
fn test_instance_id_from() {
    let id = InstanceId { replica_id: 3, idx: 4 };
    assert_eq!(id, (3, 4).into());
    assert_eq!(id, (3i32, 4i64).into());
}

#[test]
fn test_macro_instid() {
    let id = InstanceId::from((1, 2));

    assert_eq!(InstanceId::from((1, 2)), id);
}

#[test]
fn test_instance_test_macro_instids() {
    let ids = vec![InstanceId::from((1, 2)), InstanceId::from((3i32, 4i64))];

    assert_eq!(InstanceId::from((1, 2)), ids[0]);
    assert_eq!(InstanceId::from((3, 4)), ids[1]);
    assert_eq!(2, ids.len());
}

#[test]
fn test_macro_ballot() {
    let b = BallotNum { num: 2 as i32, replica_id: 3 as i64 };

    assert_eq!(BallotNum::from((2, 3)), b);
}

#[test]
fn test_instanceid_derived() {
    let inst_id1 = InstanceId { replica_id: 1, idx: 10 };
    let inst_id2 = inst_id1;

    assert_eq!(inst_id1, inst_id2);
    assert_eq!(inst_id1, (1, 10).into());
    assert_eq!(inst_id1, InstanceId::from((1, 10)));
}

#[test]
fn test_ballotnum_derived() {
    let b1 = BallotNum { num: 10, replica_id: 5 };
    let b2 = b1;

    assert_eq!(b1, b2);
    assert_eq!(b1, (10, 5).into());
    assert_eq!(b1, BallotNum::from((10, 5)));
}

#[test]
fn t_test_instance_id_to_key() {
    let k = InstanceId::from((1, 10)).into_key();
    assert_eq!("/instance/0000000000000001/000000000000000a", str::from_utf8(&k).unwrap());

    let k = InstanceId::from((-1, 0)).into_key();
    assert_eq!("/instance/ffffffffffffffff/0000000000000000", str::from_utf8(&k).unwrap());
}

#[test]
fn test_replica_status_to_key() {
    let k = ReplicaStatus::Exec.into_key();
    assert_eq!("/exec", str::from_utf8(&k).unwrap());

    let k = ReplicaStatus::MaxInstance.into_key();
    assert_eq!("/max_inst", str::from_utf8(&k).unwrap());
}

#[test]
fn t_test_cmp_instance_id() {
    let cases = vec![
        ((1, 10), (1, 10), "="),
        ((1, 10), (1, 10), "<="),
        ((1, 10), (1, 10), ">="),
        ((2, 10), (1, 10), ">"),
        ((2, 11), (1, 10), ">"),
        ((1, 10), (1, 11), "<"),
        ((1, 10), (2, 10), "<"),
        ((1, 10), (2, 12), "<"),
    ];

    for (t1, t2, op) in cases {
        let i1: InstanceId = t1.into();
        let i2: InstanceId = t2.into();
        match op {
            "=" => assert_eq!(i1 == i2, true),
            "<=" => assert_eq!(i1 <= i2, true),
            ">=" => assert_eq!(i1 >= i2, true),
            "<" => assert_eq!(i1 < i2, true),
            ">" => assert_eq!(i1 > i2, true),
            _ => {
                assert!(false, "Unknown op: {}", op);
            }
        };
        assert_eq!(i1 < i2, i1.precedes(&i2));
    }
}

#[test]
fn test_instance_id_as_key() {
    let cases = vec![(InstanceId::from((1, 2)), "/instance/0000000000000001/0000000000000002")];
    for (iid, want) in cases.iter() {
        let key = iid.into_key();
        assert_eq!(want.as_bytes(), key.as_slice());
        assert_eq!(43, iid.key_len());

        let iidgot = InstanceId::from_key(str::from_utf8(&key).unwrap());
        assert_eq!(Some(*iid), iidgot);
    }
}

#[test]
fn test_key_round_trip_negative_ids() {
    let iid = InstanceId::from((-7, -1));
    let key = iid.to_key();
    assert_eq!("/instance/fffffffffffffff9/ffffffffffffffff", str::from_utf8(&key).unwrap());
    assert_eq!(Some(iid), InstanceId::from_key(str::from_utf8(&key).unwrap()));
}

#[test]
fn test_from_key_rejects_other_keys() {
    assert_eq!(None, InstanceId::from_key("/exec"));
    assert_eq!(None, InstanceId::from_key("/instance/1"));
    assert_eq!(None, InstanceId::from_key("/instance/zz/1"));
    assert_eq!(None, InstanceId::from_key("/inst/1/2"));
}

#[test]
fn test_of_key_reads_decimals() {
    assert_eq!(Some(InstanceId::from((12, -3))), InstanceId::of_key("/instance/12/-3"));
    assert_eq!(None, InstanceId::of_key("/instance/12/x"));
    assert_eq!(None, InstanceId::of_key("/instance/12/3/4"));
}

#[test]
fn test_dep_from_instance_id() {
    let iid = InstanceId::from((1, 2));
    let d: Dep = iid.into();
    assert_eq!(Dep { replica_id: 1, idx: 2, seq: 0 }, d);
    assert!(d == iid);
    assert_eq!(Dep { replica_id: 1, idx: 2, seq: 5 }, Dep::from((1, 2, 5)));
}

#[test]
fn test_ids_from_tuple_refs() {
    let t = (3i64, 4i64);
    assert_eq!(InstanceId::from(&t), InstanceId { replica_id: 3, idx: 4 });
    assert_eq!(Dep::from(&t), Dep { replica_id: 3, idx: 4, seq: 0 });
    let t3 = (3i32, 4i64, 7i64);
    assert_eq!(Dep::from(&t3), Dep { replica_id: 3, idx: 4, seq: 7 });
}

#[test]
fn test_invalid_request_from() {
    let r = epaxos::qpaxos::InvalidRequest::from(("cmn", "LackOf", "when"));
    assert_eq!(r.field, "cmn");
    assert_eq!(r.problem, "LackOf");
    assert_eq!(r.ctx, "when");
    let r = epaxos::qpaxos::InvalidRequest::from(("cmn", "LackOf"));
    assert_eq!(r.field, "cmn");
    assert_eq!(r.problem, "LackOf");
    assert_eq!(r.ctx, "");
}
