use epaxos::qpaxos::{
    AcceptRequest, BallotNum, Command, CommitRequest, Dep, Deps, Instance, InstanceId, MakeRequest,
    PrepareRequest,
};
use std::convert::TryInto;

// The instance (1, 10) with ballot (0, 1), a no-op and `k2 = v2`, depending on (2, 10).
fn new_foo_inst() -> Instance {
    Instance {
        instance_id: Some(InstanceId::from((1, 10))),
        ballot: Some(BallotNum { num: 0, replica_id: 1 }),
        cmds: vec![Command::from(("NoOp", "", "")), Command::from(("Set", "k2", "v2"))],
        deps: Some(Deps::from(vec![Dep::from((2, 10))])),
        ..Default::default()
    }
}

// The byte encoding of the messages is left to the wire format; what is checked here is
// what each request carries.

#[test]
fn t_test_request_fast_accpt_pb() {
    let inst = new_foo_inst();

    let deps_committed = &[true, false];
    let pp = MakeRequest::prepare(100, &inst, deps_committed);

    let req: PrepareRequest = pp.phase.clone().unwrap().try_into().unwrap();

    assert_eq!(inst.ballot, pp.ballot);
    assert_eq!(inst.instance_id, pp.instance_id);
    assert_eq!(100, pp.to_replica_id);
    assert_eq!(inst.cmds, req.cmds);
    assert_eq!(inst.deps, req.deps);
    assert_eq!(deps_committed.to_vec(), req.deps_committed);
}

#[test]
fn test_request_accept_pb() {
    let inst = new_foo_inst();

    let pp = MakeRequest::accept(100, &inst);

    let req: AcceptRequest = pp.phase.clone().unwrap().try_into().unwrap();

    assert_eq!(inst.ballot, pp.ballot);
    assert_eq!(inst.instance_id, pp.instance_id);
    assert_eq!(100, pp.to_replica_id);
    assert_eq!(inst.deps, req.deps);
}

#[test]
fn t_test_request_commit_pb() {
    let inst = new_foo_inst();

    let pp = MakeRequest::commit(100, &inst);

    let req: CommitRequest = pp.phase.clone().unwrap().try_into().unwrap();

    assert_eq!(inst.ballot, pp.ballot);
    assert_eq!(inst.instance_id, pp.instance_id);
    assert_eq!(100, pp.to_replica_id);
    assert_eq!(inst.cmds, req.cmds);
    assert_eq!(inst.deps, req.deps);
}

#[test]
fn test_phase_of_another_kind_is_refused() {
    let inst = new_foo_inst();
    let pp = MakeRequest::accept(100, &inst);
    let r: Result<PrepareRequest, ()> = pp.phase.unwrap().try_into();
    assert!(r.is_err());
}
