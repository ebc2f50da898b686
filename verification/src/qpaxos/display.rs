//! Human-readable text of the protocol's data.
use crate::command::Command;
use crate::qpaxos::deps::{sorted_replicas, Deps, InstanceIdVec, InstanceIds};
use crate::qpaxos::errors::{InvalidRequest, QError, StorageFailure};
use crate::qpaxos::ids::{BallotNum, Dep, InstanceId};
use crate::qpaxos::instance::Instance;
use crate::qpaxos::message::{
    AcceptReply, AcceptRequest, CommitReply, CommitRequest, PrepareReply, PrepareRequest,
    ReplicateReply, ReplicateRequest,
};
use crate::qpaxos::replicate_reply;
use crate::qpaxos::replicate_request;
use crate::text::{append_i64, int_chars};
use vstd::prelude::*;
use vstd::string::StringExecFns;
use vstd::utf8::{decode_utf8, valid_utf8};

verus! {

/// ToStringExt renders a value as text.
pub trait ToStringExt {
    spec fn text(&self) -> Seq<char>;

    fn tostr_ext(&self) -> (s: String)
        ensures
            s@ == self.text(),
    ;
}

/// Pieces of text joined with `, `.
pub open spec fn join(s: Seq<Seq<char>>) -> Seq<char>
    decreases s.len(),
{
    if s.len() == 0 {
        Seq::empty()
    } else if s.len() == 1 {
        s[0]
    } else {
        join(s.drop_last()) + ", "@ + s.last()
    }
}

/// The text of a list: its items' texts joined with `, ` in brackets.
pub open spec fn list_text<T: ToStringExt>(s: Seq<T>) -> Seq<char> {
    "["@ + join(s.map_values(|x: T| x.text())) + "]"@
}

/// The text `String::from_utf8_lossy` makes of some bytes.
pub uninterp spec fn lossy_text(bytes: Seq<u8>) -> Seq<char>;

/// Calls `String::from_utf8_lossy`: the text it makes of `b`, which is their UTF-8
/// decoding when they are valid UTF-8. What it makes of invalid bytes (a replacement
/// character for each invalid sequence) is named, not stated.
#[verifier::external_body]
pub(crate) fn lossy_string(b: &[u8]) -> (s: String)
    ensures
        s@ == lossy_text(b@),
        valid_utf8(b@) ==> s@ == decode_utf8(b@),
{
    String::from_utf8_lossy(b).into_owned()
}

/// append_list appends the text of a list to `s`.
fn append_list<T: ToStringExt>(s: &mut String, v: &[T])
    ensures
        final(s)@ == old(s)@ + list_text(v@),
{
    proof {
        reveal_strlit("[");
        reveal_strlit("]");
        reveal_strlit(", ");
    }
    s.append("[");
    let ghost start = s@;
    let mut i: usize = 0;
    assert(v@.take(0).map_values(|x: T| x.text()) =~= Seq::<Seq<char>>::empty());
    while i < v.len()
        invariant
            i <= v@.len(),
            s@ == start + join(v@.take(i as int).map_values(|x: T| x.text())),
        decreases v@.len() - i,
    {
        let ghost before = v@.take(i as int).map_values(|x: T| x.text());
        let ghost after = v@.take(i + 1).map_values(|x: T| x.text());
        assert(after =~= before.push(v@[i as int].text()));
        assert(after.drop_last() =~= before);
        if i > 0 {
            s.append(", ");
        }
        let t = v[i].tostr_ext();
        s.append(t.as_str());
        assert(s@ =~= start + join(after));
        i = i + 1;
    }
    assert(v@.take(i as int) =~= v@);
    s.append("]");
    assert(final(s)@ =~= old(s)@ + list_text(v@));
}

impl ToStringExt for String {
    open spec fn text(&self) -> Seq<char> {
        self@
    }

    fn tostr_ext(&self) -> (s: String) {
        self.clone()
    }
}

impl ToStringExt for bool {
    open spec fn text(&self) -> Seq<char> {
        if *self {
            "true"@
        } else {
            "false"@
        }
    }

    fn tostr_ext(&self) -> (s: String) {
        proof {
            reveal_strlit("true");
            reveal_strlit("false");
        }
        if *self {
            String::from_str("true")
        } else {
            String::from_str("false")
        }
    }
}

impl ToStringExt for i64 {
    open spec fn text(&self) -> Seq<char> {
        int_chars(*self as int)
    }

    fn tostr_ext(&self) -> (s: String) {
        crate::text::i64_to_string(*self)
    }
}

impl ToStringExt for i32 {
    open spec fn text(&self) -> Seq<char> {
        int_chars(*self as int)
    }

    fn tostr_ext(&self) -> (s: String) {
        crate::text::i64_to_string(*self as i64)
    }
}

impl<T: ToStringExt> ToStringExt for Option<T> {
    open spec fn text(&self) -> Seq<char> {
        match self {
            Some(v) => v.text(),
            None => "None"@,
        }
    }

    fn tostr_ext(&self) -> (s: String) {
        proof {
            reveal_strlit("None");
        }
        match self {
            Some(v) => v.tostr_ext(),
            None => String::from_str("None"),
        }
    }
}

impl<T: ToStringExt> ToStringExt for Vec<T> {
    open spec fn text(&self) -> Seq<char> {
        list_text(self@)
    }

    fn tostr_ext(&self) -> (s: String) {
        let mut s = String::new();
        append_list(&mut s, self.as_slice());
        assert(s@ =~= list_text(self@));
        s
    }
}

/// The text of two numbers in parentheses: `(a, b)`.
pub open spec fn pair_text(a: int, b: int) -> Seq<char> {
    "("@ + int_chars(a) + ", "@ + int_chars(b) + ")"@
}

/// pair_string returns `(a, b)`.
fn pair_string(a: i64, b: i64) -> (s: String)
    ensures
        s@ == pair_text(a as int, b as int),
{
    proof {
        reveal_strlit("(");
        reveal_strlit(", ");
        reveal_strlit(")");
    }
    let mut s = String::from_str("(");
    append_i64(&mut s, a);
    s.append(", ");
    append_i64(&mut s, b);
    s.append(")");
    assert(s@ =~= pair_text(a as int, b as int));
    s
}

impl ToStringExt for InstanceId {
    open spec fn text(&self) -> Seq<char> {
        pair_text(self.replica_id as int, self.idx as int)
    }

    fn tostr_ext(&self) -> (s: String) {
        pair_string(self.replica_id, self.idx)
    }
}

impl ToStringExt for BallotNum {
    open spec fn text(&self) -> Seq<char> {
        pair_text(self.num as int, self.replica_id as int)
    }

    fn tostr_ext(&self) -> (s: String) {
        pair_string(self.num as i64, self.replica_id)
    }
}

impl ToStringExt for Dep {
    open spec fn text(&self) -> Seq<char> {
        "("@ + int_chars(self.replica_id as int) + ", "@ + int_chars(self.idx as int) + ", "@
            + int_chars(self.seq as int) + ")"@
    }

    fn tostr_ext(&self) -> (s: String) {
        proof {
            reveal_strlit("(");
            reveal_strlit(", ");
            reveal_strlit(")");
        }
        let mut s = String::from_str("(");
        append_i64(&mut s, self.replica_id);
        s.append(", ");
        append_i64(&mut s, self.idx);
        s.append(", ");
        append_i64(&mut s, self.seq);
        s.append(")");
        assert(s@ =~= self.text());
        s
    }
}

/// The text of a command: `NoOp`, `Get:key`, `Set:key=value`, `Delete:key`, or
/// `UnknownCmd` for another code; keys and values are read as UTF-8.
pub open spec fn command_text(c: Command) -> Seq<char> {
    if c.op == 0 {
        "NoOp"@
    } else if c.op == 1 {
        "Get:"@ + lossy_text(c.key@)
    } else if c.op == 2 {
        "Set:"@ + lossy_text(c.key@) + "="@ + lossy_text(c.value@)
    } else if c.op == 3 {
        "Delete:"@ + lossy_text(c.key@)
    } else {
        "UnknownCmd"@
    }
}

impl ToStringExt for Command {
    open spec fn text(&self) -> Seq<char> {
        command_text(*self)
    }

    fn tostr_ext(&self) -> (s: String) {
        proof {
            reveal_strlit("NoOp");
            reveal_strlit("Get:");
            reveal_strlit("Set:");
            reveal_strlit("=");
            reveal_strlit("Delete:");
            reveal_strlit("UnknownCmd");
        }
        if self.op == 0 {
            String::from_str("NoOp")
        } else if self.op == 1 {
            let k = lossy_string(self.key.as_slice());
            let s = String::from_str("Get:").concat(k.as_str());
            s
        } else if self.op == 2 {
            let k = lossy_string(self.key.as_slice());
            let v = lossy_string(self.value.as_slice());
            let s = String::from_str("Set:").concat(k.as_str()).concat("=").concat(v.as_str());
            s
        } else if self.op == 3 {
            let k = lossy_string(self.key.as_slice());
            String::from_str("Delete:").concat(k.as_str())
        } else {
            String::from_str("UnknownCmd")
        }
    }
}

impl ToStringExt for InstanceIdVec {
    open spec fn text(&self) -> Seq<char> {
        list_text(self.ids@)
    }

    fn tostr_ext(&self) -> (s: String) {
        self.ids.tostr_ext()
    }
}

/// The text of one entry of an instance map: `replica:index`.
pub open spec fn entry_text(m: Map<i64, i64>, rid: i64) -> Seq<char> {
    int_chars(rid as int) + ":"@ + int_chars(m[rid] as int)
}

impl ToStringExt for InstanceIds {
    /// The entries, lowest replica first, joined with `, ` in braces.
    open spec fn text(&self) -> Seq<char> {
        "{"@ + join(sorted_replicas(self@).map_values(|rid: i64| entry_text(self@, rid))) + "}"@
    }

    fn tostr_ext(&self) -> (s: String) {
        proof {
            reveal_strlit("{");
            reveal_strlit("}");
            reveal_strlit(":");
            reveal_strlit(", ");
        }
        let rids = self.replica_ids();
        let ghost m = self@;
        let mut s = String::from_str("{");
        let ghost start = s@;
        let mut i: usize = 0;
        assert(rids@.take(0).map_values(|rid: i64| entry_text(m, rid)) =~= Seq::<Seq<char>>::empty());
        while i < rids.len()
            invariant
                m == self@,
                rids@ == sorted_replicas(m),
                rids@.to_set() == m.dom(),
                i <= rids@.len(),
                s@ == start + join(rids@.take(i as int).map_values(|rid: i64| entry_text(m, rid))),
            decreases rids@.len() - i,
        {
            let ghost before = rids@.take(i as int).map_values(|rid: i64| entry_text(m, rid));
            let ghost after = rids@.take(i + 1).map_values(|rid: i64| entry_text(m, rid));
            assert(after =~= before.push(entry_text(m, rids@[i as int])));
            assert(after.drop_last() =~= before);
            if i > 0 {
                s.append(", ");
            }
            let rid = rids[i];
            assert(rids@.to_set().contains(rid));
            let idx = self.get_idx(rid).unwrap();
            crate::text::append_i64(&mut s, rid);
            s.append(":");
            crate::text::append_i64(&mut s, idx);
            assert(s@ =~= start + join(after));
            i = i + 1;
        }
        assert(rids@.take(i as int) =~= rids@);
        s.append("}");
        s
    }
}

impl ToStringExt for Deps {
    open spec fn text(&self) -> Seq<char> {
        list_text(self.dep_vec@)
    }

    fn tostr_ext(&self) -> (s: String) {
        self.dep_vec.tostr_ext()
    }
}

impl ToStringExt for Instance {
    open spec fn text(&self) -> Seq<char> {
        "{id:"@ + self.instance_id.text() + ", blt:"@ + self.ballot.text() + ", ablt:"@
            + self.vballot.text() + ", cmds:"@ + self.cmds.text() + ", deps:"@ + self.deps.text()
            + ", c:"@ + self.committed.text() + "}"@
    }

    fn tostr_ext(&self) -> (s: String) {
        proof {
            reveal_strlit("{id:");
            reveal_strlit(", blt:");
            reveal_strlit(", ablt:");
            reveal_strlit(", cmds:");
            reveal_strlit(", deps:");
            reveal_strlit(", c:");
            reveal_strlit("}");
        }
        let mut s = String::from_str("{id:");
        s.append(self.instance_id.tostr_ext().as_str());
        s.append(", blt:");
        s.append(self.ballot.tostr_ext().as_str());
        s.append(", ablt:");
        s.append(self.vballot.tostr_ext().as_str());
        s.append(", cmds:");
        s.append(self.cmds.tostr_ext().as_str());
        s.append(", deps:");
        s.append(self.deps.tostr_ext().as_str());
        s.append(", c:");
        s.append(self.committed.tostr_ext().as_str());
        s.append("}");
        assert(s@ =~= self.text());
        s
    }
}

impl ToStringExt for StorageFailure {
    open spec fn text(&self) -> Seq<char> {
        "StorageFailure"@
    }

    fn tostr_ext(&self) -> (s: String) {
        proof {
            reveal_strlit("StorageFailure");
        }
        String::from_str("StorageFailure")
    }
}

impl ToStringExt for InvalidRequest {
    open spec fn text(&self) -> Seq<char> {
        "{"@ + self.problem@ + ": '"@ + self.field@ + "', ctx:"@ + self.ctx@ + "}"@
    }

    fn tostr_ext(&self) -> (s: String) {
        proof {
            reveal_strlit("{");
            reveal_strlit(": '");
            reveal_strlit("', ctx:");
            reveal_strlit("}");
        }
        let mut s = String::from_str("{");
        s.append(self.problem.as_str());
        s.append(": '");
        s.append(self.field.as_str());
        s.append("', ctx:");
        s.append(self.ctx.as_str());
        s.append("}");
        assert(s@ =~= self.text());
        s
    }
}

impl ToStringExt for QError {
    open spec fn text(&self) -> Seq<char> {
        "{sto:"@ + self.sto.text() + ", req:"@ + self.req.text() + "}"@
    }

    fn tostr_ext(&self) -> (s: String) {
        proof {
            reveal_strlit("{sto:");
            reveal_strlit(", req:");
            reveal_strlit("}");
        }
        let mut s = String::from_str("{sto:");
        s.append(self.sto.tostr_ext().as_str());
        s.append(", req:");
        s.append(self.req.tostr_ext().as_str());
        s.append("}");
        assert(s@ =~= self.text());
        s
    }
}

impl ToStringExt for PrepareRequest {
    open spec fn text(&self) -> Seq<char> {
        "{cmds:"@ + self.cmds.text() + ", deps:"@ + self.deps.text() + ", c:"@
            + self.deps_committed.text() + "}"@
    }

    fn tostr_ext(&self) -> (s: String) {
        proof {
            reveal_strlit("{cmds:");
            reveal_strlit(", deps:");
            reveal_strlit(", c:");
            reveal_strlit("}");
        }
        let mut s = String::from_str("{cmds:");
        s.append(self.cmds.tostr_ext().as_str());
        s.append(", deps:");
        s.append(self.deps.tostr_ext().as_str());
        s.append(", c:");
        s.append(self.deps_committed.tostr_ext().as_str());
        s.append("}");
        assert(s@ =~= self.text());
        s
    }
}

impl ToStringExt for AcceptRequest {
    open spec fn text(&self) -> Seq<char> {
        "{deps:"@ + self.deps.text() + "}"@
    }

    fn tostr_ext(&self) -> (s: String) {
        proof {
            reveal_strlit("{deps:");
            reveal_strlit("}");
        }
        let mut s = String::from_str("{deps:");
        s.append(self.deps.tostr_ext().as_str());
        s.append("}");
        assert(s@ =~= self.text());
        s
    }
}

impl ToStringExt for CommitRequest {
    open spec fn text(&self) -> Seq<char> {
        "{cmds:"@ + self.cmds.text() + ", deps:"@ + self.deps.text() + "}"@
    }

    fn tostr_ext(&self) -> (s: String) {
        proof {
            reveal_strlit("{cmds:");
            reveal_strlit(", deps:");
            reveal_strlit("}");
        }
        let mut s = String::from_str("{cmds:");
        s.append(self.cmds.tostr_ext().as_str());
        s.append(", deps:");
        s.append(self.deps.tostr_ext().as_str());
        s.append("}");
        assert(s@ =~= self.text());
        s
    }
}

impl ToStringExt for PrepareReply {
    open spec fn text(&self) -> Seq<char> {
        "{deps[1]:"@ + self.deps.text() + ", c:"@ + self.deps_committed.text() + "}"@
    }

    fn tostr_ext(&self) -> (s: String) {
        proof {
            reveal_strlit("{deps[1]:");
            reveal_strlit(", c:");
            reveal_strlit("}");
        }
        let mut s = String::from_str("{deps[1]:");
        s.append(self.deps.tostr_ext().as_str());
        s.append(", c:");
        s.append(self.deps_committed.tostr_ext().as_str());
        s.append("}");
        assert(s@ =~= self.text());
        s
    }
}

impl ToStringExt for AcceptReply {
    open spec fn text(&self) -> Seq<char> {
        "{}"@
    }

    fn tostr_ext(&self) -> (s: String) {
        proof {
            reveal_strlit("{}");
        }
        String::from_str("{}")
    }
}

impl ToStringExt for CommitReply {
    open spec fn text(&self) -> Seq<char> {
        "{}"@
    }

    fn tostr_ext(&self) -> (s: String) {
        proof {
            reveal_strlit("{}");
        }
        String::from_str("{}")
    }
}

impl ToStringExt for replicate_request::Phase {
    open spec fn text(&self) -> Seq<char> {
        match self {
            replicate_request::Phase::Prepare(v) => "Prepare"@ + v.text(),
            replicate_request::Phase::Accept(v) => "Accept"@ + v.text(),
            replicate_request::Phase::Commit(v) => "Commit"@ + v.text(),
        }
    }

    fn tostr_ext(&self) -> (s: String) {
        proof {
            reveal_strlit("Prepare");
            reveal_strlit("Accept");
            reveal_strlit("Commit");
        }
        match self {
            replicate_request::Phase::Prepare(v) => String::from_str("Prepare").concat(
                v.tostr_ext().as_str(),
            ),
            replicate_request::Phase::Accept(v) => String::from_str("Accept").concat(
                v.tostr_ext().as_str(),
            ),
            replicate_request::Phase::Commit(v) => String::from_str("Commit").concat(
                v.tostr_ext().as_str(),
            ),
        }
    }
}

impl ToStringExt for replicate_reply::Phase {
    open spec fn text(&self) -> Seq<char> {
        match self {
            replicate_reply::Phase::Prepare(v) => "Prepare"@ + v.text(),
            replicate_reply::Phase::Accept(v) => "Accept"@ + v.text(),
            replicate_reply::Phase::Commit(v) => "Commit"@ + v.text(),
        }
    }

    fn tostr_ext(&self) -> (s: String) {
        proof {
            reveal_strlit("Prepare");
            reveal_strlit("Accept");
            reveal_strlit("Commit");
        }
        match self {
            replicate_reply::Phase::Prepare(v) => String::from_str("Prepare").concat(
                v.tostr_ext().as_str(),
            ),
            replicate_reply::Phase::Accept(v) => String::from_str("Accept").concat(
                v.tostr_ext().as_str(),
            ),
            replicate_reply::Phase::Commit(v) => String::from_str("Commit").concat(
                v.tostr_ext().as_str(),
            ),
        }
    }
}

impl ToStringExt for ReplicateRequest {
    open spec fn text(&self) -> Seq<char> {
        "{to:"@ + int_chars(self.to_replica_id as int) + ", blt:"@ + self.ballot.text()
            + ", iid:"@ + self.instance_id.text() + ", phase:"@ + self.phase.text() + "}"@
    }

    fn tostr_ext(&self) -> (s: String) {
        proof {
            reveal_strlit("{to:");
            reveal_strlit(", blt:");
            reveal_strlit(", iid:");
            reveal_strlit(", phase:");
            reveal_strlit("}");
        }
        let mut s = String::from_str("{to:");
        append_i64(&mut s, self.to_replica_id);
        s.append(", blt:");
        s.append(self.ballot.tostr_ext().as_str());
        s.append(", iid:");
        s.append(self.instance_id.tostr_ext().as_str());
        s.append(", phase:");
        s.append(self.phase.tostr_ext().as_str());
        s.append("}");
        assert(s@ =~= self.text());
        s
    }
}

impl ToStringExt for ReplicateReply {
    open spec fn text(&self) -> Seq<char> {
        "{err:"@ + self.err.text() + ", last:"@ + self.last_ballot.text() + ", iid:"@
            + self.instance_id.text() + ", phase:"@ + self.phase.text() + "}"@
    }

    fn tostr_ext(&self) -> (s: String) {
        proof {
            reveal_strlit("{err:");
            reveal_strlit(", last:");
            reveal_strlit(", iid:");
            reveal_strlit(", phase:");
            reveal_strlit("}");
        }
        let mut s = String::from_str("{err:");
        s.append(self.err.tostr_ext().as_str());
        s.append(", last:");
        s.append(self.last_ballot.tostr_ext().as_str());
        s.append(", iid:");
        s.append(self.instance_id.tostr_ext().as_str());
        s.append(", phase:");
        s.append(self.phase.tostr_ext().as_str());
        s.append("}");
        assert(s@ =~= self.text());
        s
    }
}

} // verus!
