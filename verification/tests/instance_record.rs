use epaxos::command::{Command, OpCode};
use epaxos::instance::{BallotNum, Instance, InstanceID};
use epaxos::message::{MsgStatus, Reply, Request};
use std::str;

#[test]
fn instance_tests_test_instance_id_to_key() {
    let k = InstanceID::of(1, 10).to_key();
    assert_eq!("/instance/0000000000000001/000000000000000a", str::from_utf8(&k).unwrap());

    let k = InstanceID::of(-1, -10).to_key();
    assert_eq!("/instance/ffffffffffffffff/fffffffffffffff6", str::from_utf8(&k).unwrap());
}

#[test]
fn instance_tests_test_cmp_instance_id() {
    let cases = vec![
        (InstanceID::of(1, 10), InstanceID::of(1, 10), "="),
        (InstanceID::of(1, 10), InstanceID::of(1, 10), "<="),
        (InstanceID::of(1, 10), InstanceID::of(1, 10), ">="),
        (InstanceID::of(2, 10), InstanceID::of(1, 10), ">"),
        (InstanceID::of(2, 11), InstanceID::of(1, 10), ">"),
        (InstanceID::of(1, 10), InstanceID::of(1, 11), "<"),
        (InstanceID::of(1, 10), InstanceID::of(2, 10), "<"),
        (InstanceID::of(1, 10), InstanceID::of(2, 12), "<"),
    ];

    for (i1, i2, op) in cases {
        match op {
            "=" => assert_eq!(i1 == i2, true),
            "<=" => assert_eq!(i1 <= i2, true),
            ">=" => assert_eq!(i1 >= i2, true),
            "<" => assert_eq!(i1 < i2, true),
            ">" => assert_eq!(i1 > i2, true),
            _ => {
                assert!(false, "Unknown op: {}", op);
            }
        }
    }
}

fn new_foo_inst() -> Instance {
    let replica = 1;

    let inst_id1 = InstanceID::of(1, 10);
    let inst_id2 = InstanceID::of(2, 20);
    let inst_id3 = InstanceID::of(3, 30);
    let initial_deps = vec![inst_id1, inst_id2, inst_id3];

    let cmd1 = Command::of(OpCode::NoOp, "k1".as_bytes(), "v1".as_bytes());
    let cmd2 = Command::of(OpCode::Get, "k2".as_bytes(), "v2".as_bytes());
    let cmds = vec![cmd1, cmd2];
    let ballot = BallotNum::of(0, 0, replica);
    let ballot2 = BallotNum::of(1, 2, replica);

    let mut inst = Instance::of(&cmds[..], &ballot, &initial_deps[..]);
    inst.instance_id = Some(inst_id1);
    inst.deps = [inst_id2].to_vec();
    inst.final_deps = [inst_id3].to_vec();
    inst.last_ballot = Some(ballot2);

    inst
}

#[test]
fn test_requests_carry_the_instance() {
    let inst = new_foo_inst();

    let pp = Request::prepare(&inst);
    assert_eq!(inst.ballot, pp.cmn.as_ref().unwrap().ballot);
    assert_eq!(inst.instance_id, pp.cmn.as_ref().unwrap().instance_id);
    assert_eq!(0, pp.cmn.as_ref().unwrap().to_replica_id);

    let deps_committed = &[true, false];
    let fa = Request::fast_accept(&inst, deps_committed);
    assert_eq!(inst.cmds, fa.cmds);
    assert_eq!(inst.initial_deps, fa.initial_deps);
    assert_eq!(deps_committed.to_vec(), fa.deps_committed);

    let a = Request::accept(&inst);
    assert_eq!(inst.final_deps, a.final_deps);

    let c = Request::commit(&inst);
    assert_eq!(inst.cmds, c.cmds);
    assert_eq!(inst.final_deps, c.final_deps);
}

#[test]
fn test_replies_carry_the_instance() {
    let inst = new_foo_inst();

    let pp = Reply::prepare(&inst);
    assert_eq!(inst.last_ballot, pp.cmn.as_ref().unwrap().last_ballot);
    assert_eq!(inst.instance_id, pp.cmn.as_ref().unwrap().instance_id);
    assert_eq!(inst.deps, pp.deps);
    assert_eq!(inst.final_deps, pp.final_deps);
    assert_eq!(inst.committed, pp.committed);

    let fa = Reply::fast_accept(&inst, &[true, false]);
    assert_eq!(inst.deps, fa.deps);
    assert_eq!(vec![true, false], fa.deps_committed);

    assert_eq!(inst.instance_id, Reply::accept(&inst).cmn.unwrap().instance_id);
    assert_eq!(inst.last_ballot, Reply::commit(&inst).cmn.unwrap().last_ballot);
}

#[test]
fn test_instance_record_of_key() {
    assert_eq!(Some(InstanceID::of(3, -4)), InstanceID::of_key("/instance/3/-4"));
    assert_eq!(None, InstanceID::of_key("/instance/3"));
    assert_eq!(None, InstanceID::of_key("/other/3/4"));
}

#[test]
fn test_msg_status_into_bool() {
    let ok: bool = MsgStatus::Success.into();
    let failed: bool = MsgStatus::Failed.into();
    assert!(ok);
    assert!(!failed);
}
