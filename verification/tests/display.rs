use epaxos::qpaxos::replicate_reply;
use epaxos::qpaxos::{
    AcceptReply, BallotNum, Command, CommitReply, Dep, Deps, Instance, InstanceId, InstanceIdVec,
    InstanceIds, InvalidRequest, MakeRequest, OpCode, PrepareReply, QError, ReplicateReply,
    StorageFailure, ToStringExt,
};

#[test]
fn test_display_instance_id() {
    assert_eq!("(1, 2)", InstanceId { replica_id: 1, idx: 2 }.tostr_ext());
}

#[test]
fn test_display_ballot() {
    assert_eq!("(2, 3)", BallotNum::from((2, 3)).tostr_ext());
}

#[test]
fn test_display_command() {
    let k: Vec<u8> = "foo".into();
    let v: Vec<u8> = "bar".into();
    assert_eq!("NoOp", Command { op: OpCode::NoOp as i32, key: k.clone(), value: v.clone() }.tostr_ext());
    assert_eq!("Get:foo", Command { op: OpCode::Get as i32, key: k.clone(), value: v.clone() }.tostr_ext());
    assert_eq!(
        "Set:foo=bar",
        Command { op: OpCode::Put as i32, key: k.clone(), value: v.clone() }.tostr_ext()
    );
    assert_eq!(
        "Delete:foo",
        Command { op: OpCode::Delete as i32, key: k.clone(), value: v.clone() }.tostr_ext()
    );
}

#[test]
fn test_display_instance_id_vec() {
    assert_eq!(
        "[(1, 2), (3, 4)]",
        InstanceIdVec::from(vec![InstanceId::from((1, 2)), InstanceId::from((3, 4))]).tostr_ext()
    );
}

#[test]
fn test_display_instance_ids() {
    let ids: InstanceIds = [(1, 2), (3, 4)].into();
    assert_eq!("{1:2, 3:4}", ids.tostr_ext());
}

fn sample_inst(d: &[(i64, i64)], vballot: (i32, i64)) -> Instance {
    let deps: Vec<Dep> = d.iter().map(|t| Dep::from(*t)).collect();
    Instance {
        instance_id: Some((1, 2).into()),
        ballot: Some(BallotNum { num: 3, replica_id: 4 }),
        cmds: vec![("Set", "a", "b").into(), ("Get", "c", "d").into()],
        deps: Some(Deps::from(deps)),
        vballot: Some(vballot.into()),
        committed: false,
        executed: false,
    }
}

#[test]
fn test_display_instance() {
    let inst = sample_inst(&[(3, 4), (4, 5)], (6, 7));
    assert_eq!(
        "{id:(1, 2), blt:(3, 4), ablt:(6, 7), cmds:[Set:a=b, Get:c], deps:[(3, 4, 0), (4, 5, 0)], c:false}",
        inst.tostr_ext()
    );
}

#[test]
fn test_display_replicate_request() {
    let inst = sample_inst(&[(2, 3), (3, 4)], (2, 3));

    let r = "to:10, blt:(3, 4), iid:(1, 2), phase";

    let prepare = "Prepare{cmds:[Set:a=b, Get:c], deps:[(2, 3, 0), (3, 4, 0)], c:[true, false]}";
    let accept = "Accept{deps:[(2, 3, 0), (3, 4, 0)]}";
    let commit = "Commit{cmds:[Set:a=b, Get:c], deps:[(2, 3, 0), (3, 4, 0)]}";

    let f = MakeRequest::prepare(10, &inst, &[true, false]);
    assert_eq!(format!("{{{}:{}}}", r, prepare), f.tostr_ext());

    let a = MakeRequest::accept(10, &inst);
    assert_eq!(format!("{{{}:{}}}", r, accept), a.tostr_ext());

    let c = MakeRequest::commit(10, &inst);
    assert_eq!(format!("{{{}:{}}}", r, commit), c.tostr_ext());
}

#[test]
fn test_display_replicate_reply_err() {
    let cmn = "last:None, iid:None, phase";

    {
        // storage error
        let r = ReplicateReply {
            err: Some(QError { sto: Some(StorageFailure::default()), req: None }),
            ..Default::default()
        };
        let e = "{sto:StorageFailure, req:None}";

        assert_eq!(format!("{{err:{}, {}:{}}}", e, cmn, "None"), r.tostr_ext());
    }
    {
        // request error
        let r = ReplicateReply {
            err: Some(QError {
                sto: None,
                req: Some(InvalidRequest {
                    field: "foo".into(),
                    problem: "must-have".into(),
                    ctx: "ctxbar".into(),
                }),
            }),
            ..Default::default()
        };
        let e = "{sto:None, req:{must-have: 'foo', ctx:ctxbar}}";

        assert_eq!(format!("{{err:{}, {}:{}}}", e, cmn, "None"), r.tostr_ext());
    }
}

#[test]
fn test_display_replicate_reply_normal() {
    let cmn = "last:(3, 4), iid:(1, 2), phase";

    let mut r = ReplicateReply {
        err: None,
        last_ballot: Some((3, 4).into()),
        instance_id: Some((1, 2).into()),
        phase: None,
    };

    {
        r.phase = Some(replicate_reply::Phase::Prepare(PrepareReply {
            deps: Some(vec![InstanceId::from((1, 2)), InstanceId::from((3, 4))].into()),
            deps_committed: vec![true, false],
        }));
        let ph = "Prepare{deps[1]:[(1, 2, 0), (3, 4, 0)], c:[true, false]}";

        assert_eq!(format!("{{err:None, {}:{}}}", cmn, ph), r.tostr_ext());
    }

    {
        r.phase = Some(replicate_reply::Phase::Accept(AcceptReply {}));
        let ph = "Accept{}";

        assert_eq!(format!("{{err:None, {}:{}}}", cmn, ph), r.tostr_ext());
    }

    {
        r.phase = Some(replicate_reply::Phase::Commit(CommitReply {}));
        let ph = "Commit{}";

        assert_eq!(format!("{{err:None, {}:{}}}", cmn, ph), r.tostr_ext());
    }
}

#[test]
fn test_display_command_invalid_utf8_key() {
    let c = Command { op: OpCode::Get as i32, key: vec![0x66, 0xff], value: vec![] };
    assert_eq!("Get:f\u{fffd}", c.tostr_ext());
}

#[test]
fn test_display_empty_instance_ids() {
    let ids = InstanceIds::new();
    assert_eq!("{}", ids.tostr_ext());
}
