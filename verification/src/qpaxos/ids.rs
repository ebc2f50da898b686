//! Identifiers of replicas, instances, dependencies and ballots, and the storage keys of
//! instances.
use crate::text::{
    digit_value, digits_value, hex_digit_byte,
    hex_bytes, push_hex, spec_parse_dec_i64, spec_parse_hex_u64, split_chars, split_on, str_chars,
    lemma_split_len, parse_dec_i64, parse_hex_u64,
};
use vstd::prelude::*;

verus! {

pub type ReplicaId = i64;

pub type InstanceIdx = i64;

/// IdInt is an integer type that converts to `i64` without loss.
pub trait IdInt: Copy {
    spec fn int_value(self) -> int;

    fn to_i64(self) -> (r: i64)
        ensures
            r as int == self.int_value(),
    ;
}

impl IdInt for i32 {
    open spec fn int_value(self) -> int {
        self as int
    }

    fn to_i64(self) -> (r: i64) {
        self as i64
    }
}

impl IdInt for i64 {
    open spec fn int_value(self) -> int {
        self as int
    }

    fn to_i64(self) -> (r: i64) {
        self
    }
}

/// InstanceId names the `idx`-th instance proposed by replica `replica_id`.
#[derive(Clone, Copy, Debug, Default, PartialEq, Eq, Structural, Hash, PartialOrd, Ord)]
pub struct InstanceId {
    pub replica_id: i64,
    pub idx: i64,
}

/// Dep is a dependency on an instance, with the sequence number it was seen with.
#[derive(Clone, Copy, Debug, Default, PartialEq, Eq, Structural, Hash, PartialOrd, Ord)]
pub struct Dep {
    pub replica_id: i64,
    pub idx: i64,
    pub seq: i64,
}

/// BallotNum orders the leaders of an instance: by `num`, then by `replica_id`.
#[derive(Clone, Copy, Debug, Default, PartialEq, Eq, Structural, Hash, PartialOrd, Ord)]
pub struct BallotNum {
    pub num: i32,
    pub replica_id: i64,
}

/// Instance ids in the order their derived `Ord` gives: by replica, then by index.
pub open spec fn iid_lt(a: InstanceId, b: InstanceId) -> bool {
    a.replica_id < b.replica_id || (a.replica_id == b.replica_id && a.idx < b.idx)
}

/// Ballots in the order their derived `Ord` gives: by number, then by replica.
pub open spec fn ballot_lt(a: BallotNum, b: BallotNum) -> bool {
    a.num < b.num || (a.num == b.num && a.replica_id < b.replica_id)
}

/// Optional ballots ordered as `Option` orders them: `None` first.
pub open spec fn opt_ballot_lt(a: Option<BallotNum>, b: Option<BallotNum>) -> bool {
    match (a, b) {
        (None, Some(_)) => true,
        (Some(x), Some(y)) => ballot_lt(x, y),
        _ => false,
    }
}

impl InstanceId {
    /// of builds an instance id.
    pub fn of(replica_id: i64, idx: i64) -> (r: InstanceId)
        ensures
            r == (InstanceId { replica_id, idx }),
    {
        InstanceId { replica_id, idx }
    }

    /// precedes tells whether `self` comes strictly before `other`.
    pub fn precedes(&self, other: &InstanceId) -> (r: bool)
        ensures
            r == iid_lt(*self, *other),
    {
        self.replica_id < other.replica_id || (self.replica_id == other.replica_id && self.idx
            < other.idx)
    }
}

impl BallotNum {
    /// precedes tells whether `self` is a strictly lower ballot than `other`.
    pub fn precedes(&self, other: &BallotNum) -> (r: bool)
        ensures
            r == ballot_lt(*self, *other),
    {
        self.num < other.num || (self.num == other.num && self.replica_id < other.replica_id)
    }
}

/// opt_ballot_precedes compares two optional ballots, `None` being the lowest.
pub fn opt_ballot_precedes(a: &Option<BallotNum>, b: &Option<BallotNum>) -> (r: bool)
    ensures
        r == opt_ballot_lt(*a, *b),
{
    match (a, b) {
        (None, Some(_)) => true,
        (Some(x), Some(y)) => x.precedes(y),
        _ => false,
    }
}

impl<A: IdInt, B: IdInt> From<(A, B)> for InstanceId {
    fn from(t: (A, B)) -> (r: InstanceId) {
        InstanceId { replica_id: t.0.to_i64(), idx: t.1.to_i64() }
    }
}

impl<A: IdInt, B: IdInt> vstd::std_specs::convert::FromSpecImpl<(A, B)> for InstanceId {
    open spec fn obeys_from_spec() -> bool {
        true
    }

    open spec fn from_spec(t: (A, B)) -> InstanceId {
        InstanceId { replica_id: t.0.int_value() as i64, idx: t.1.int_value() as i64 }
    }
}

impl<A: IdInt, B: IdInt> From<(A, B)> for Dep {
    fn from(t: (A, B)) -> (r: Dep) {
        Dep { replica_id: t.0.to_i64(), idx: t.1.to_i64(), seq: 0 }
    }
}

impl<A: IdInt, B: IdInt> vstd::std_specs::convert::FromSpecImpl<(A, B)> for Dep {
    open spec fn obeys_from_spec() -> bool {
        true
    }

    open spec fn from_spec(t: (A, B)) -> Dep {
        Dep { replica_id: t.0.int_value() as i64, idx: t.1.int_value() as i64, seq: 0 }
    }
}

impl<A: IdInt, B: IdInt, S: IdInt> From<(A, B, S)> for Dep {
    fn from(t: (A, B, S)) -> (r: Dep) {
        Dep { replica_id: t.0.to_i64(), idx: t.1.to_i64(), seq: t.2.to_i64() }
    }
}

impl<A: IdInt, B: IdInt, S: IdInt> vstd::std_specs::convert::FromSpecImpl<(A, B, S)> for Dep {
    open spec fn obeys_from_spec() -> bool {
        true
    }

    open spec fn from_spec(t: (A, B, S)) -> Dep {
        Dep {
            replica_id: t.0.int_value() as i64,
            idx: t.1.int_value() as i64,
            seq: t.2.int_value() as i64,
        }
    }
}

impl<'a, A: IdInt, B: IdInt> From<&'a (A, B)> for InstanceId {
    fn from(t: &'a (A, B)) -> (r: InstanceId) {
        InstanceId { replica_id: t.0.to_i64(), idx: t.1.to_i64() }
    }
}

impl<'a, A: IdInt, B: IdInt> vstd::std_specs::convert::FromSpecImpl<&'a (A, B)> for InstanceId {
    open spec fn obeys_from_spec() -> bool {
        true
    }

    open spec fn from_spec(t: &'a (A, B)) -> InstanceId {
        InstanceId { replica_id: t.0.int_value() as i64, idx: t.1.int_value() as i64 }
    }
}

impl<'a, A: IdInt, B: IdInt> From<&'a (A, B)> for Dep {
    fn from(t: &'a (A, B)) -> (r: Dep) {
        Dep { replica_id: t.0.to_i64(), idx: t.1.to_i64(), seq: 0 }
    }
}

impl<'a, A: IdInt, B: IdInt> vstd::std_specs::convert::FromSpecImpl<&'a (A, B)> for Dep {
    open spec fn obeys_from_spec() -> bool {
        true
    }

    open spec fn from_spec(t: &'a (A, B)) -> Dep {
        Dep { replica_id: t.0.int_value() as i64, idx: t.1.int_value() as i64, seq: 0 }
    }
}

impl<'a, A: IdInt, B: IdInt, S: IdInt> From<&'a (A, B, S)> for Dep {
    fn from(t: &'a (A, B, S)) -> (r: Dep) {
        Dep { replica_id: t.0.to_i64(), idx: t.1.to_i64(), seq: t.2.to_i64() }
    }
}

impl<'a, A: IdInt, B: IdInt, S: IdInt> vstd::std_specs::convert::FromSpecImpl<&'a (A, B, S)> for Dep {
    open spec fn obeys_from_spec() -> bool {
        true
    }

    open spec fn from_spec(t: &'a (A, B, S)) -> Dep {
        Dep {
            replica_id: t.0.int_value() as i64,
            idx: t.1.int_value() as i64,
            seq: t.2.int_value() as i64,
        }
    }
}

/// The dependency on an instance, with sequence number 0.
pub open spec fn dep_of(iid: InstanceId) -> Dep {
    Dep { replica_id: iid.replica_id, idx: iid.idx, seq: 0 }
}

impl<'a> From<&'a InstanceId> for Dep {
    fn from(iid: &'a InstanceId) -> (r: Dep) {
        Dep { replica_id: iid.replica_id, idx: iid.idx, seq: 0 }
    }
}

impl<'a> vstd::std_specs::convert::FromSpecImpl<&'a InstanceId> for Dep {
    open spec fn obeys_from_spec() -> bool {
        true
    }

    open spec fn from_spec(iid: &'a InstanceId) -> Dep {
        dep_of(*iid)
    }
}

impl From<InstanceId> for Dep {
    fn from(iid: InstanceId) -> (r: Dep) {
        Dep { replica_id: iid.replica_id, idx: iid.idx, seq: 0 }
    }
}

impl vstd::std_specs::convert::FromSpecImpl<InstanceId> for Dep {
    open spec fn obeys_from_spec() -> bool {
        true
    }

    open spec fn from_spec(iid: InstanceId) -> Dep {
        dep_of(iid)
    }
}

impl From<(i32, i64)> for BallotNum {
    fn from(t: (i32, i64)) -> (r: BallotNum) {
        BallotNum { num: t.0, replica_id: t.1 }
    }
}

impl vstd::std_specs::convert::FromSpecImpl<(i32, i64)> for BallotNum {
    open spec fn obeys_from_spec() -> bool {
        true
    }

    open spec fn from_spec(t: (i32, i64)) -> BallotNum {
        BallotNum { num: t.0, replica_id: t.1 }
    }
}

/// Dep equals an instance id when it is on that instance, whatever its sequence number.
impl PartialEq<InstanceId> for Dep {
    fn eq(&self, other: &InstanceId) -> (r: bool) {
        self.replica_id == other.replica_id && self.idx == other.idx
    }
}

impl vstd::std_specs::cmp::PartialEqSpecImpl<InstanceId> for Dep {
    open spec fn obeys_eq_spec() -> bool {
        true
    }

    open spec fn eq_spec(&self, other: &InstanceId) -> bool {
        self.replica_id == other.replica_id && self.idx == other.idx
    }
}

// ---------------------------------------------------------------------------
// Storage keys
// ---------------------------------------------------------------------------

/// The bytes of `"/instance/"`.
pub open spec fn instance_key_prefix() -> Seq<u8> {
    seq![47u8, 105u8, 110u8, 115u8, 116u8, 97u8, 110u8, 99u8, 101u8, 47u8]
}

/// The storage key of an instance: `/instance/{replica_id:016x}/{idx:016x}`, each number
/// written as the 16 hexadecimal digits of its 64-bit two's complement.
pub open spec fn instance_key(iid: InstanceId) -> Seq<u8> {
    instance_key_prefix() + hex_bytes(iid.replica_id as u64 as nat, 16) + seq![47u8] + hex_bytes(
        iid.idx as u64 as nat,
        16,
    )
}

/// The key of an instance read back as characters.
pub open spec fn instance_key_chars(iid: InstanceId) -> Seq<char> {
    instance_key(iid).map_values(|b: u8| b as char)
}

/// What `InstanceId::from_key` returns: the key splits at `/` into exactly four pieces,
/// the second `instance` and the last two hexadecimal numbers.
pub open spec fn spec_from_key(s: Seq<char>) -> Option<InstanceId> {
    let items = split_chars(s, '/');
    if items[1] == "instance"@ && items.len() == 4 {
        match (spec_parse_hex_u64(items[2]), spec_parse_hex_u64(items[3])) {
            (Some(a), Some(b)) => Some(InstanceId { replica_id: a as i64, idx: b as i64 }),
            _ => None,
        }
    } else {
        None
    }
}

/// What `InstanceId::of_key` returns: like `spec_from_key`, but with the two numbers
/// read as signed decimals.
pub open spec fn spec_of_key(s: Seq<char>) -> Option<InstanceId> {
    let items = split_chars(s, '/');
    if items[1] == "instance"@ && items.len() == 4 {
        match (spec_parse_dec_i64(items[2]), spec_parse_dec_i64(items[3])) {
            (Some(a), Some(b)) => Some(InstanceId { replica_id: a, idx: b }),
            _ => None,
        }
    } else {
        None
    }
}

/// key_of returns the storage key of any instance id, whatever the sign of its index.
pub(crate) fn key_of(iid: InstanceId) -> (k: Vec<u8>)
    ensures
    k@ == instance_key(iid),
{
    let mut k: Vec<u8> = Vec::new();
    k.push(47);
    k.push(105);
    k.push(110);
    k.push(115);
    k.push(116);
    k.push(97);
    k.push(110);
    k.push(99);
    k.push(101);
    k.push(47);
    assert(k@ =~= instance_key_prefix());
    push_hex(iid.replica_id as u64, 16, &mut k);
    k.push(47);
    push_hex(iid.idx as u64, 16, &mut k);
    assert(k@ =~= instance_key(iid));
    k
}

impl InstanceId {
    /// to_key returns the storage key of an instance id whose index is not negative.
    pub fn to_key(&self) -> (k: Vec<u8>)
        requires
            self.idx >= 0,
        ensures
            k@ == instance_key(*self),
    {
        key_of(*self)
    }

    /// into_key returns the storage key of an instance id whose index is not negative.
    pub fn into_key(&self) -> (k: Vec<u8>)
        requires
            self.idx >= 0,
        ensures
            k@ == instance_key(*self),
    {
        self.to_key()
    }

    /// key_len returns the length of the storage key of an instance id.
    pub fn key_len(&self) -> (n: usize)
        ensures
            n == instance_key(*self).len(),
    {
        proof {
            lemma_hex_bytes_len(self.replica_id as u64 as nat, 16);
            lemma_hex_bytes_len(self.idx as u64 as nat, 16);
        }
        43
    }

    /// from_key reads an instance id back from its storage key. `s` must hold a `/`.
    pub fn from_key(s: &str) -> (r: Option<InstanceId>)
        requires
            s@.contains('/'),
        ensures
            r == spec_from_key(s@),
    {
        proof {
            lemma_split_len(s@, '/');
            reveal_strlit("instance");
        }
        let cs = str_chars(s);
        let items = split_on(cs.as_slice(), '/');
        assert(items@[1]@ == split_chars(s@, '/')[1]);
        if crate::command::chars_eq(items[1].as_slice(), "instance") && items.len() == 4 {
            assert(items@[2]@ == split_chars(s@, '/')[2]);
            assert(items@[3]@ == split_chars(s@, '/')[3]);
            let a = parse_hex_u64(items[2].as_slice());
            let b = parse_hex_u64(items[3].as_slice());
            match (a, b) {
                (Some(a), Some(b)) => Some(InstanceId { replica_id: a as i64, idx: b as i64 }),
                _ => None,
            }
        } else {
            None
        }
    }

    /// of_key reads an instance id from a key whose two numbers are signed decimals.
    /// `s` must hold a `/`.
    pub fn of_key(s: &str) -> (r: Option<InstanceId>)
        requires
            s@.contains('/'),
        ensures
            r == spec_of_key(s@),
    {
        proof {
            lemma_split_len(s@, '/');
            reveal_strlit("instance");
        }
        let cs = str_chars(s);
        let items = split_on(cs.as_slice(), '/');
        assert(items@[1]@ == split_chars(s@, '/')[1]);
        if crate::command::chars_eq(items[1].as_slice(), "instance") && items.len() == 4 {
            assert(items@[2]@ == split_chars(s@, '/')[2]);
            assert(items@[3]@ == split_chars(s@, '/')[3]);
            let a = parse_dec_i64(items[2].as_slice());
            let b = parse_dec_i64(items[3].as_slice());
            match (a, b) {
                (Some(a), Some(b)) => Some(InstanceId { replica_id: a, idx: b }),
                _ => None,
            }
        } else {
            None
        }
    }
}

/// A run of `n` hexadecimal digits is `n` long.
pub proof fn lemma_hex_bytes_len(v: nat, n: nat)
    ensures
        hex_bytes(v, n).len() == n,
    decreases n,
{
    if n > 0 {
        lemma_hex_bytes_len(v / 16, (n - 1) as nat);
    }
}

/// The status records a replica keeps: up to where it has executed, and the greatest
/// instance it knows.
#[derive(Clone, Copy, Debug, PartialEq, Eq, Structural, Hash)]
pub enum ReplicaStatus {
    Exec,
    MaxInstance,
}

/// The storage key of a replica status record.
pub open spec fn replica_status_key(st: ReplicaStatus) -> Seq<u8> {
    match st {
        // "/exec"
        ReplicaStatus::Exec => seq![47u8, 101u8, 120u8, 101u8, 99u8],
        // "/max_inst"
        ReplicaStatus::MaxInstance => seq![47u8, 109u8, 97u8, 120u8, 95u8, 105u8, 110u8, 115u8, 116u8],
    }
}

impl ReplicaStatus {
    /// into_key returns the storage key of this status record.
    pub fn into_key(&self) -> (k: Vec<u8>)
        ensures
            k@ == replica_status_key(*self),
    {
        match self {
            ReplicaStatus::Exec => {
                let k = vec![47u8, 101, 120, 101, 99];
                assert(k@ =~= replica_status_key(*self));
                k
            },
            ReplicaStatus::MaxInstance => {
                let k = vec![47u8, 109, 97, 120, 95, 105, 110, 115, 116];
                assert(k@ =~= replica_status_key(*self));
                k
            },
        }
    }
}

// ---------------------------------------------------------------------------
// Reading a key back
// ---------------------------------------------------------------------------

/// Splitting around one separator splits each side on its own.
pub proof fn lemma_split_concat(a: Seq<char>, b: Seq<char>, sep: char)
    ensures
        split_chars(a + seq![sep] + b, sep) == split_chars(a, sep) + split_chars(b, sep),
    decreases b.len(),
{
    let s = a + seq![sep] + b;
    if b.len() == 0 {
        assert(s.drop_last() =~= a);
        assert(split_chars(b, sep) =~= seq![Seq::<char>::empty()]);
        assert(split_chars(s, sep) =~= split_chars(a, sep) + split_chars(b, sep));
    } else {
        lemma_split_concat(a, b.drop_last(), sep);
        assert(s.drop_last() =~= a + seq![sep] + b.drop_last());
        crate::text::lemma_split_len(b.drop_last(), sep);
        let x = split_chars(a, sep);
        let y = split_chars(b.drop_last(), sep);
        if b.last() == sep {
            assert(split_chars(s, sep) =~= x + split_chars(b, sep));
        } else {
            assert((x + y).update((x + y).len() - 1, (x + y).last().push(b.last())) =~= x + y.update(
                y.len() - 1,
                y.last().push(b.last()),
            ));
        }
    }
}

/// A text without the separator is a single piece.
pub proof fn lemma_split_no_sep(s: Seq<char>, sep: char)
    requires
        !s.contains(sep),
    ensures
        split_chars(s, sep) == seq![s],
    decreases s.len(),
{
    if s.len() > 0 {
        assert(!s.drop_last().contains(sep)) by {
            if s.drop_last().contains(sep) {
                let k = choose|k: int| 0 <= k < s.drop_last().len() && s.drop_last()[k] == sep;
                assert(s[k] == sep);
            }
        }
        lemma_split_no_sep(s.drop_last(), sep);
        assert(s[s.len() - 1] == s.last());
        assert(s.last() != sep);
        assert(s.drop_last().push(s.last()) =~= s);
        assert(seq![s.drop_last()].update(0, s.drop_last().push(s.last())) =~= seq![s]);
    } else {
        assert(s =~= Seq::<char>::empty());
    }
}

/// 16 to the power `n`.
pub open spec fn hex_bound(n: nat) -> nat
    decreases n,
{
    if n == 0 {
        1
    } else {
        16 * hex_bound((n - 1) as nat)
    }
}

/// The hexadecimal digits of `v` read back as characters.
pub open spec fn hex_chars(v: nat, n: nat) -> Seq<char> {
    hex_bytes(v, n).map_values(|b: u8| b as char)
}

/// The digits that render a number below `16^n` read back as that number, and none of
/// them is a `/` or a `+`.
pub proof fn lemma_hex_chars_value(v: nat, n: nat)
    requires
        v < hex_bound(n),
    ensures
        digits_value(hex_chars(v, n), 16) == Some(v),
        !hex_chars(v, n).contains('/'),
        forall|i: int| 0 <= i < n ==> hex_chars(v, n)[i] != '+',
    decreases n,
{
    lemma_hex_bytes_len(v, n);
    if n == 0 {
        assert(hex_chars(v, n) =~= Seq::<char>::empty());
    } else {
        let m = (n - 1) as nat;
        lemma_hex_chars_value(v / 16, m);
        lemma_hex_bytes_len(v / 16, m);
        let d = (v % 16) as int;
        let c = hex_digit_byte(d) as char;
        assert(hex_chars(v, n) =~= hex_chars(v / 16, m).push(c));
        assert(hex_chars(v, n).drop_last() =~= hex_chars(v / 16, m));
        assert(digit_value(c, 16) == Some(d as nat));
        assert(v == (v / 16) * 16 + v % 16);
        assert(c != '/' && c != '+');
        assert forall|i: int| 0 <= i < n implies hex_chars(v, n)[i] != '+' by {
            if i < m {
                assert(hex_chars(v, n)[i] == hex_chars(v / 16, m)[i]);
            }
        }
        if hex_chars(v, n).contains('/') {
            let k = choose|k: int| 0 <= k < hex_chars(v, n).len() && hex_chars(v, n)[k] == '/';
            if k < m {
                assert(hex_chars(v / 16, m)[k] == '/');
            }
        }
    }
}

/// The characters of the key of an instance: `/instance/`, the hexadecimal replica id, a
/// `/`, and the hexadecimal index.
pub proof fn lemma_key_chars(iid: InstanceId)
    ensures
        instance_key_chars(iid) == Seq::<char>::empty() + seq!['/'] + ("instance"@ + seq!['/']
            + hex_chars(iid.replica_id as u64 as nat, 16) + seq!['/'] + hex_chars(
            iid.idx as u64 as nat,
            16,
        )),
{
    reveal_strlit("instance");
    let a = iid.replica_id as u64 as nat;
    let b = iid.idx as u64 as nat;
    lemma_hex_bytes_len(a, 16);
    lemma_hex_bytes_len(b, 16);
    assert(instance_key_chars(iid) =~= Seq::<char>::empty() + seq!['/'] + ("instance"@ + seq![
        '/',
    ] + hex_chars(a, 16) + seq!['/'] + hex_chars(b, 16)));
}

/// A 64-bit number read as unsigned and back is the same signed number.
pub proof fn lemma_i64_u64_roundtrip(x: i64)
    ensures
        (x as u64) as i64 == x,
{
    assert((x as u64) as i64 == x) by (bit_vector);
}

/// 16 digits hold any 64-bit number.
pub proof fn lemma_hex_bound_16()
    ensures
        hex_bound(16) == u64::MAX as nat + 1,
{
    reveal_with_fuel(hex_bound, 17);
}

/// Reading a number rendered as 16 hexadecimal digits gives it back.
pub proof fn lemma_parse_hex16(x: i64)
    ensures
        spec_parse_hex_u64(hex_chars(x as u64 as nat, 16)) == Some(x as u64),
{
    let v = x as u64 as nat;
    lemma_hex_bound_16();
    lemma_hex_chars_value(v, 16);
    lemma_hex_bytes_len(v, 16);
    assert(hex_chars(v, 16)[0] != '+');
}

/// Reading the key of any instance id back gives that instance id.
pub proof fn lemma_key_roundtrip(iid: InstanceId)
    ensures
        instance_key_chars(iid).contains('/'),
        spec_from_key(instance_key_chars(iid)) == Some(iid),
{
    reveal_strlit("instance");
    let a = iid.replica_id as u64 as nat;
    let b = iid.idx as u64 as nat;
    lemma_hex_bound_16();
    lemma_hex_chars_value(a, 16);
    lemma_hex_chars_value(b, 16);
    lemma_key_chars(iid);
    let ha = hex_chars(a, 16);
    let hb = hex_chars(b, 16);
    let inst = "instance"@;
    assert(!inst.contains('/')) by {
        if inst.contains('/') {
            let k = choose|k: int| 0 <= k < inst.len() && inst[k] == '/';
            assert(inst[k] != '/');
        }
    }
    lemma_split_concat(inst + seq!['/'] + ha, hb, '/');
    lemma_split_concat(inst, ha, '/');
    lemma_split_concat(Seq::<char>::empty(), inst + seq!['/'] + ha + seq!['/'] + hb, '/');
    lemma_split_no_sep(inst, '/');
    lemma_split_no_sep(ha, '/');
    lemma_split_no_sep(hb, '/');
    lemma_split_no_sep(Seq::<char>::empty(), '/');
    let items = split_chars(instance_key_chars(iid), '/');
    assert(items =~= seq![Seq::<char>::empty(), inst, ha, hb]);
    lemma_parse_hex16(iid.replica_id);
    lemma_parse_hex16(iid.idx);
    lemma_i64_u64_roundtrip(iid.replica_id);
    lemma_i64_u64_roundtrip(iid.idx);
    assert(instance_key_chars(iid)[0] == '/');
}

} // verus!
