use epaxos::command::{Command, Conflict, OpCode};
use std::str::FromStr;

#[test]
fn test_op_code_from() {
    assert_eq!(OpCode::NoOp, OpCode::from_str("NoOp").unwrap());
    assert_eq!(OpCode::Get, OpCode::from_str("Get").unwrap());
    assert_eq!(OpCode::Put, OpCode::from_str("Set").unwrap());
    assert_eq!(OpCode::Delete, OpCode::from_str("Delete").unwrap());
}

#[test]
fn test_command_from() {
    let c = Command {
        op: OpCode::Put as i32,
        key: "key".as_bytes().to_vec(),
        value: "value".as_bytes().to_vec(),
    };

    assert_eq!(c, (OpCode::Put, "key", "value").into());
    assert_eq!(c, ("Set", "key", "value").into());
    let k = "key".as_bytes();
    let v = "value".as_bytes();
    assert_eq!(c, (OpCode::Put, k, v).into());
}

#[test]
fn test_command_conflit() {
    let nx = Command::from(("NoOp", "x", "1"));
    let gx = Command::from(("Get", "x", "1"));
    let sx = Command::from(("Set", "x", "1"));
    let dx = Command::from(("Delete", "x", "1"));

    let ny = Command::from(("NoOp", "y", "1"));
    let gy = Command::from(("Get", "y", "1"));
    let sy = Command::from(("Set", "y", "1"));
    let dy = Command::from(("Delete", "y", "1"));

    let xs = vec![nx, gx, sx, dx];
    let ys = vec![ny, gy, sy, dy];

    let conflicts = vec![
        vec![0, 0, 0, 0],
        vec![0, 0, 1, 1],
        vec![0, 1, 1, 1],
        vec![0, 1, 1, 1],
    ];

    for (i, v) in conflicts.iter().enumerate() {
        for (j, c) in v.iter().enumerate() {
            let want = *c == 1;

            assert_eq!(want, xs[i].conflict(&xs[j]), "x x check conflict: {} {}", i, j);
            assert_eq!(want, ys[i].conflict(&ys[j]), "y y check conflict: {} {}", i, j);

            assert!(!xs[i].conflict(&ys[j]), "x y never conflict: {} {}", i, j);
            assert!(!ys[i].conflict(&xs[j]), "y x never conflict: {} {}", i, j);
        }
    }
}

#[test]
fn test_command_test_macro_cmd() {
    let cmd = Command::from(("Set", "key", "value"));
    assert_eq!(cmd, (OpCode::Put, "key", "value").into());

    let cmd = Command::from(("Set", "key", "value"));
    assert_eq!(cmd, (OpCode::Put, "key", "value").into());
}

#[test]
fn test_command_test_macro_cmdvec() {
    let cmds = vec![
        Command::from(("Set", "a", "b")),
        Command::from(("Set", "key", "value")),
        Command::from((OpCode::Get, "a", "b")),
    ];

    assert_eq!(cmds[0], (OpCode::Put, "a", "b").into());
    assert_eq!(cmds[1], (OpCode::Put, "key", "value").into());
    assert_eq!(cmds[2], ("Get", "a", "b").into());
    assert_eq!(3, cmds.len());
}

#[test]
fn test_command_of_and_kind() {
    let c = Command::of(OpCode::Delete, b"k", b"v");
    assert_eq!(3, c.op);
    assert_eq!(b"k".to_vec(), c.key);
    assert_eq!(OpCode::Put, c.kind());
    assert_eq!(OpCode::Get, Command::of(OpCode::Get, b"k", b"").kind());
    assert_eq!(OpCode::NoOp, Command::of(OpCode::NoOp, b"", b"").kind());
}

#[test]
fn test_command_from_unknown_op_name() {
    let c = Command::from(("Frobnicate", "k", "v"));
    assert_eq!(-1, c.op);
    assert!(OpCode::from_str("set").is_err());
}

#[test]
fn test_op_code_round_trip() {
    for op in [OpCode::NoOp, OpCode::Get, OpCode::Put, OpCode::Delete] {
        assert_eq!(Some(op), OpCode::from_code(op.code()));
    }
    assert_eq!(None, OpCode::from_code(4));
}

#[test]
fn test_command_conflict_symmetric_on_values() {
    let a = Command::from(("Get", "k", ""));
    let b = Command::from(("Delete", "k", ""));
    assert_eq!(a.conflict(&b), b.conflict(&a));
    assert!(a.conflict(&b));
}
