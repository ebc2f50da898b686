//! Commands carried by instances, and when two of them conflict.
use vstd::prelude::*;
use vstd::slice::slice_to_vec;
use vstd::string::StringSliceAdditionalSpecFns;

verus! {

pub type Key = Vec<u8>;

/// The operation of a command.
#[derive(Clone, Copy, Debug, PartialEq, Eq, Structural, Hash, PartialOrd, Ord)]
pub enum OpCode {
    NoOp,
    Get,
    Put,
    Delete,
}

/// The numeric code of an operation on the wire.
pub open spec fn op_code(op: OpCode) -> i32 {
    match op {
        OpCode::NoOp => 0,
        OpCode::Get => 1,
        OpCode::Put => 2,
        OpCode::Delete => 3,
    }
}

/// The operation with a given name, when there is one.
pub open spec fn op_named(name: Seq<char>) -> Option<OpCode> {
    if name == "NoOp"@ {
        Some(OpCode::NoOp)
    } else if name == "Get"@ {
        Some(OpCode::Get)
    } else if name == "Set"@ {
        Some(OpCode::Put)
    } else if name == "Delete"@ {
        Some(OpCode::Delete)
    } else {
        None
    }
}

/// The code given to a command whose operation name is not known.
pub open spec fn unknown_op_code() -> i32 {
    -1i32
}

impl OpCode {
    /// code returns the numeric code of this operation.
    pub fn code(self) -> (c: i32)
        ensures
            c == op_code(self),
    {
        match self {
            OpCode::NoOp => 0,
            OpCode::Get => 1,
            OpCode::Put => 2,
            OpCode::Delete => 3,
        }
    }

    /// from_code returns the operation with numeric code `c`.
    pub fn from_code(c: i32) -> (r: Option<OpCode>)
        ensures
            r matches Some(op) ==> op_code(op) == c,
            r is None ==> (forall|op: OpCode| op_code(op) != c),
    {
        if c == 0 {
            Some(OpCode::NoOp)
        } else if c == 1 {
            Some(OpCode::Get)
        } else if c == 2 {
            Some(OpCode::Put)
        } else if c == 3 {
            Some(OpCode::Delete)
        } else {
            None
        }
    }

    /// from_name returns the operation whose name is exactly `name`.
    pub fn from_name(name: &str) -> (r: Option<OpCode>)
        ensures
            r == op_named(name@),
    {
        proof {
            reveal_strlit("NoOp");
            reveal_strlit("Get");
            reveal_strlit("Set");
            reveal_strlit("Delete");
        }
        let cs = crate::text::str_chars(name);
        if chars_eq(&cs, "NoOp") {
            Some(OpCode::NoOp)
        } else if chars_eq(&cs, "Get") {
            Some(OpCode::Get)
        } else if chars_eq(&cs, "Set") {
            Some(OpCode::Put)
        } else if chars_eq(&cs, "Delete") {
            Some(OpCode::Delete)
        } else {
            None
        }
    }
}

/// chars_eq tells whether `a` holds exactly the characters of `b`.
pub fn chars_eq(a: &[char], b: &str) -> (r: bool)
    ensures
        r == (a@ == b@),
{
    let n = b.unicode_len();
    if a.len() != n {
        return false;
    }
    let mut i: usize = 0;
    while i < n
        invariant
            n == b@.len(),
            a@.len() == n,
            i <= n,
            forall|j: int| 0 <= j < i ==> a@[j] == b@[j],
        decreases n - i,
    {
        if a[i] != b.get_char(i) {
            return false;
        }
        i = i + 1;
    }
    assert(a@ =~= b@);
    true
}

/// bytes_eq tells whether `a` and `b` hold the same bytes.
pub fn bytes_eq(a: &[u8], b: &[u8]) -> (r: bool)
    ensures
        r == (a@ == b@),
{
    if a.len() != b.len() {
        return false;
    }
    let mut i: usize = 0;
    while i < a.len()
        invariant
            a@.len() == b@.len(),
            i <= a@.len(),
            forall|j: int| 0 <= j < i ==> a@[j] == b@[j],
        decreases a@.len() - i,
    {
        if a[i] != b[i] {
            return false;
        }
        i = i + 1;
    }
    assert(a@ =~= b@);
    true
}

/// Command is an operation on a key, with a value for `Set`.
#[derive(Clone, Debug, Default, PartialEq, Eq, Hash)]
pub struct Command {
    pub op: i32,
    pub key: Vec<u8>,
    pub value: Vec<u8>,
}

/// The kind of a command: `NoOp`, `Get`, or `Set` for anything that changes the key
/// (`Delete` sets it to nothing).
pub open spec fn spec_kind(c: Command) -> OpCode {
    if c.op == 0 {
        OpCode::NoOp
    } else if c.op == 1 {
        OpCode::Get
    } else {
        OpCode::Put
    }
}

/// Two commands conflict when their order changes a result: neither is a `NoOp`, not
/// both are `Get`, and they touch the same key.
pub open spec fn commands_conflict(a: Command, b: Command) -> bool {
    match (spec_kind(a), spec_kind(b)) {
        (OpCode::NoOp, _) => false,
        (_, OpCode::NoOp) => false,
        (OpCode::Get, OpCode::Get) => false,
        _ => a.key@ == b.key@,
    }
}

/// Conflict tells whether two values must be executed in an agreed order.
pub trait Conflict: Sized {
    spec fn conflicts_with(&self, with: &Self) -> bool;

    fn conflict(&self, with: &Self) -> (r: bool)
        ensures
            r == self.conflicts_with(with),
    ;
}

impl Conflict for Command {
    open spec fn conflicts_with(&self, with: &Self) -> bool {
        commands_conflict(*self, *with)
    }

    fn conflict(&self, with: &Self) -> (r: bool) {
        let a = self.kind();
        let b = with.kind();
        match (a, b) {
            (OpCode::NoOp, _) => false,
            (_, OpCode::NoOp) => false,
            (OpCode::Get, OpCode::Get) => false,
            _ => bytes_eq(self.key.as_slice(), with.key.as_slice()),
        }
    }
}

/// Conflict between commands is symmetric, and a `NoOp` conflicts with nothing.
pub proof fn lemma_command_conflict_symmetric(a: Command, b: Command)
    ensures
        commands_conflict(a, b) == commands_conflict(b, a),
        spec_kind(a) == OpCode::NoOp ==> !commands_conflict(a, b),
{
}

/// What a command holds, as plain values.
pub open spec fn cmd_view(c: Command) -> (i32, Seq<u8>, Seq<u8>) {
    (c.op, c.key@, c.value@)
}

/// What a list of commands holds, as plain values.
pub open spec fn cmds_view(s: Seq<Command>) -> Seq<(i32, Seq<u8>, Seq<u8>)> {
    s.map_values(|c: Command| cmd_view(c))
}

/// copy_cmds returns a list holding the same commands.
pub fn copy_cmds(v: &[Command]) -> (r: Vec<Command>)
    ensures
        cmds_view(r@) == cmds_view(v@),
{
    let mut r: Vec<Command> = Vec::with_capacity(v.len());
    let mut i: usize = 0;
    while i < v.len()
        invariant
            i <= v@.len(),
            r@.len() == i,
            cmds_view(r@) =~= cmds_view(v@.take(i as int)),
        decreases v@.len() - i,
    {
        let ghost r0 = r@;
        let c = v[i].copy();
        r.push(c);
        assert(v@.take(i + 1) =~= v@.take(i as int).push(v@[i as int]));
        assert forall|j: int| 0 <= j < r@.len() implies cmds_view(r@)[j] == cmds_view(
            v@.take(i + 1),
        )[j] by {
            if j < i {
                assert(r@[j] == r0[j]);
                assert(cmds_view(r0)[j] == cmds_view(v@.take(i as int))[j]);
            }
        }
        assert(cmds_view(r@) =~= cmds_view(v@.take(i + 1)));
        i = i + 1;
    }
    assert(v@.take(i as int) =~= v@);
    r
}

impl Command {
    /// copy returns a command with the same operation, key and value.
    pub fn copy(&self) -> (c: Command)
        ensures
            cmd_view(c) == cmd_view(*self),
    {
        Command { op: self.op, key: slice_to_vec(self.key.as_slice()), value: slice_to_vec(self.value.as_slice()) }
    }

    /// of builds a command from an operation, a key and a value.
    pub fn of(op: OpCode, key: &[u8], value: &[u8]) -> (c: Command)
        ensures
            c.op == op_code(op),
            c.key@ == key@,
            c.value@ == value@,
    {
        Command { op: op.code(), key: slice_to_vec(key), value: slice_to_vec(value) }
    }

    /// kind returns `NoOp`, `Get`, or `Set` for any command that changes its key.
    pub fn kind(&self) -> (k: OpCode)
        ensures
            k == spec_kind(*self),
    {
        if self.op == 0 {
            OpCode::NoOp
        } else if self.op == 1 {
            OpCode::Get
        } else {
            OpCode::Put
        }
    }
}

// A `Command` holds vectors, whose equality a spec function cannot construct: the
// conversions below state what they build in their own `ensures` instead.
impl<'a, 'b> From<(OpCode, &'a [u8], &'b [u8])> for Command {
    fn from(t: (OpCode, &'a [u8], &'b [u8])) -> (c: Command)
        ensures
            c.op == op_code(t.0),
            c.key@ == t.1@,
            c.value@ == t.2@,
    {
        Command::of(t.0, t.1, t.2)
    }
}

impl<'a, 'b> vstd::std_specs::convert::FromSpecImpl<(OpCode, &'a [u8], &'b [u8])> for Command {
    open spec fn obeys_from_spec() -> bool {
        false
    }

    open spec fn from_spec(t: (OpCode, &'a [u8], &'b [u8])) -> Command {
        arbitrary()
    }
}

impl<'a, 'b> From<(OpCode, &'a str, &'b str)> for Command {
    fn from(t: (OpCode, &'a str, &'b str)) -> (c: Command)
        ensures
            c.op == op_code(t.0),
            c.key@ == t.1.spec_bytes(),
            c.value@ == t.2.spec_bytes(),
    {
        Command::of(t.0, t.1.as_bytes(), t.2.as_bytes())
    }
}

impl<'a, 'b> vstd::std_specs::convert::FromSpecImpl<(OpCode, &'a str, &'b str)> for Command {
    open spec fn obeys_from_spec() -> bool {
        false
    }

    open spec fn from_spec(t: (OpCode, &'a str, &'b str)) -> Command {
        arbitrary()
    }
}

impl<'a, 'b, 'c> From<(&'a str, &'b str, &'c str)> for Command {
    /// The operation is named by its variant name; a name that is none of them gives the
    /// code of no operation.
    fn from(t: (&'a str, &'b str, &'c str)) -> (c: Command)
        ensures
            c.op == match op_named(t.0@) {
                Some(op) => op_code(op),
                None => unknown_op_code(),
            },
            c.key@ == t.1.spec_bytes(),
            c.value@ == t.2.spec_bytes(),
    {
        let op = match OpCode::from_name(t.0) {
            Some(op) => op.code(),
            None => -1,
        };
        Command { op, key: slice_to_vec(t.1.as_bytes()), value: slice_to_vec(t.2.as_bytes()) }
    }
}

impl<'a, 'b, 'c> vstd::std_specs::convert::FromSpecImpl<(&'a str, &'b str, &'c str)> for Command {
    open spec fn obeys_from_spec() -> bool {
        false
    }

    open spec fn from_spec(t: (&'a str, &'b str, &'c str)) -> Command {
        arbitrary()
    }
}

impl core::str::FromStr for OpCode {
    type Err = ();

    /// The operation named exactly `s`, or an error for any other name.
    fn from_str(s: &str) -> (r: Result<OpCode, ()>)
        ensures
            r == (match op_named(s@) {
                Some(op) => Ok::<OpCode, ()>(op),
                None => Err::<OpCode, ()>(()),
            }),
    {
        match OpCode::from_name(s) {
            Some(op) => Ok(op),
            None => Err(()),
        }
    }
}

} // verus!
