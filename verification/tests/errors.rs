use epaxos::qpaxos::{InvalidRequest, ProtocolError, QError};
use epaxos::replication::Direction;
use std::str::FromStr;

#[test]
fn test_protocol_error() {
    // NoSuchReplica
    let e = ProtocolError::NoSuchReplica(1, 2);
    assert_eq!("no such replica:1, my replica_id:2", e.to_text());

    let e = ProtocolError::from((1, 2));
    assert_eq!("no such replica:1, my replica_id:2", e.to_text());

    let q: QError = e.into();
    assert_eq!(
        q,
        QError {
            req: Some(InvalidRequest {
                field: "cmn.to_replica_id".into(),
                problem: "NotFound".into(),
                ctx: format!("{}; my replica_id: {}", 1, 2).into(),
            }),
            ..Default::default()
        }
    );

    // LackOf
    let e = ProtocolError::LackOf("a.b".into());
    assert_eq!("lack of required field:a.b", e.to_text());

    let q: QError = e.into();
    assert_eq!(
        q,
        QError {
            req: Some(InvalidRequest { field: "a.b".into(), problem: "LackOf".into(), ctx: "".into() }),
            ..Default::default()
        }
    );

    // Incomplete
    let e = ProtocolError::Incomplete("foo".into(), 5, 4);
    assert_eq!("incomplete field:foo, need:5, but:4", e.to_text());

    let q: QError = e.into();
    assert_eq!(
        q,
        QError {
            req: Some(InvalidRequest {
                field: "foo".into(),
                problem: "Incomplete".into(),
                ctx: "incomplete field:foo, need:5, but:4".into(),
            }),
            ..Default::default()
        }
    );
}

#[test]
fn test_protocol_error_not_match() {
    let e = ProtocolError::NotMatch("instance_id".into(), "(1, 2)".into(), "(1, 3)".into());
    assert_eq!("field: instance_id expect: (1, 2) but: (1, 3)", e.to_text());
    let q: QError = e.into();
    let r = q.req.unwrap();
    assert_eq!("instance_id", r.field);
    assert_eq!("NotMatch", r.problem);
    assert_eq!("field: instance_id expect: (1, 2) but: (1, 3)", r.ctx);
}

#[test]
fn test_direction_from_str() {
    assert_eq!(Ok(Direction::Request), Direction::from_str("Request"));
    assert_eq!(Ok(Direction::Reply), Direction::from_str("Reply"));
    assert_eq!(Err(()), Direction::from_str("reply"));
}
