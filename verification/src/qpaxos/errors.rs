//! Errors of the replication protocol, and the error message a replica replies with.
use crate::qpaxos::ids::ReplicaId;
use crate::text::{append_i32, append_i64, int_chars};
use vstd::prelude::*;
use vstd::string::StringExecFns;

verus! {

/// StorageFailure reports that a replica could not read or write its storage.
#[derive(Clone, Copy, Debug, Default, PartialEq, Eq, Structural)]
pub struct StorageFailure {}

/// InvalidRequest reports which field of a message is wrong, and how.
#[derive(Clone, Debug, Default, PartialEq, Eq)]
pub struct InvalidRequest {
    pub field: String,
    pub problem: String,
    pub ctx: String,
}

/// QError is the error a replica replies with.
#[derive(Clone, Debug, Default, PartialEq, Eq)]
pub struct QError {
    pub sto: Option<StorageFailure>,
    pub req: Option<InvalidRequest>,
}

/// What an invalid-request report holds, as plain values.
pub open spec fn invalid_view(r: InvalidRequest) -> (Seq<char>, Seq<char>, Seq<char>) {
    (r.field@, r.problem@, r.ctx@)
}

/// What a replied error holds, as plain values.
pub type QErrorView = (Option<StorageFailure>, Option<(Seq<char>, Seq<char>, Seq<char>)>);

/// What a replied error holds, as plain values.
pub open spec fn qerror_view(e: QError) -> QErrorView {
    (
        e.sto,
        match e.req {
            Some(r) => Some(invalid_view(r)),
            None => None,
        },
    )
}

/// copy_string returns a string with the same characters.
pub fn copy_string(s: &String) -> (r: String)
    ensures
        r@ == s@,
{
    s.clone()
}

impl InvalidRequest {
    /// copy returns a report with the same fields.
    pub fn copy(&self) -> (r: InvalidRequest)
        ensures
            invalid_view(r) == invalid_view(*self),
    {
        InvalidRequest {
            field: copy_string(&self.field),
            problem: copy_string(&self.problem),
            ctx: copy_string(&self.ctx),
        }
    }
}

impl<'a, 'b, 'c> From<(&'a str, &'b str, &'c str)> for InvalidRequest {
    /// The report of a field, a problem and its context, in that order.
    fn from(t: (&'a str, &'b str, &'c str)) -> (r: InvalidRequest)
        ensures
            invalid_view(r) == (t.0@, t.1@, t.2@),
    {
        InvalidRequest {
            field: String::from_str(t.0),
            problem: String::from_str(t.1),
            ctx: String::from_str(t.2),
        }
    }
}

impl<'a, 'b, 'c> vstd::std_specs::convert::FromSpecImpl<(&'a str, &'b str, &'c str)> for InvalidRequest {
    open spec fn obeys_from_spec() -> bool {
        false
    }

    open spec fn from_spec(t: (&'a str, &'b str, &'c str)) -> InvalidRequest {
        arbitrary()
    }
}

impl<'a, 'b> From<(&'a str, &'b str)> for InvalidRequest {
    /// The report of a field and a problem, with no context.
    fn from(t: (&'a str, &'b str)) -> (r: InvalidRequest)
        ensures
            invalid_view(r) == (t.0@, t.1@, Seq::<char>::empty()),
    {
        InvalidRequest {
            field: String::from_str(t.0),
            problem: String::from_str(t.1),
            ctx: String::new(),
        }
    }
}

impl<'a, 'b> vstd::std_specs::convert::FromSpecImpl<(&'a str, &'b str)> for InvalidRequest {
    open spec fn obeys_from_spec() -> bool {
        false
    }

    open spec fn from_spec(t: (&'a str, &'b str)) -> InvalidRequest {
        arbitrary()
    }
}

impl QError {
    /// copy returns an error with the same fields.
    pub fn copy(&self) -> (r: QError)
        ensures
            qerror_view(r) == qerror_view(*self),
    {
        QError {
            sto: self.sto,
            req: match &self.req {
                Some(r) => Some(r.copy()),
                None => None,
            },
        }
    }

    /// storage_failure returns the error that reports a storage failure.
    pub fn storage_failure() -> (r: QError)
        ensures
            r.sto == Some(StorageFailure {}),
            r.req is None,
    {
        QError { sto: Some(StorageFailure {  }), req: None }
    }
}

/// ProtocolError is a malformed message: a field that is absent, wrong, or incomplete.
#[derive(Clone, Debug, PartialEq, Eq)]
pub enum ProtocolError {
    NoSuchReplica(ReplicaId, ReplicaId),
    LackOf(String),
    NotMatch(String, String, String),
    Incomplete(String, i32, i32),
}

/// What a protocol error holds, as plain values.
pub enum ProtocolErrorView {
    NoSuchReplica(i64, i64),
    LackOf(Seq<char>),
    NotMatch(Seq<char>, Seq<char>, Seq<char>),
    Incomplete(Seq<char>, i32, i32),
}

impl View for ProtocolError {
    type V = ProtocolErrorView;

    open spec fn view(&self) -> ProtocolErrorView {
        match self {
            ProtocolError::NoSuchReplica(a, b) => ProtocolErrorView::NoSuchReplica(*a, *b),
            ProtocolError::LackOf(f) => ProtocolErrorView::LackOf(f@),
            ProtocolError::NotMatch(f, w, g) => ProtocolErrorView::NotMatch(f@, w@, g@),
            ProtocolError::Incomplete(f, w, a) => ProtocolErrorView::Incomplete(f@, *w, *a),
        }
    }
}

/// The message of a protocol error.
pub open spec fn protocol_error_text(e: ProtocolErrorView) -> Seq<char> {
    match e {
        ProtocolErrorView::NoSuchReplica(rid, my) => "no such replica:"@ + int_chars(rid as int)
            + ", my replica_id:"@ + int_chars(my as int),
        ProtocolErrorView::LackOf(f) => "lack of required field:"@ + f,
        ProtocolErrorView::NotMatch(f, w, g) => "field: "@ + f + " expect: "@ + w + " but: "@ + g,
        ProtocolErrorView::Incomplete(f, w, a) => "incomplete field:"@ + f + ", need:"@
            + int_chars(w as int) + ", but:"@ + int_chars(a as int),
    }
}

/// The report a protocol error is replied as: the field at fault, a word for the problem,
/// and a context.
pub open spec fn protocol_error_report(e: ProtocolErrorView) -> (Seq<char>, Seq<char>, Seq<char>) {
    match e {
        ProtocolErrorView::NoSuchReplica(rid, my) => (
            "cmn.to_replica_id"@,
            "NotFound"@,
            int_chars(rid as int) + "; my replica_id: "@ + int_chars(my as int),
        ),
        ProtocolErrorView::LackOf(f) => (f, "LackOf"@, ""@),
        ProtocolErrorView::NotMatch(f, _, _) => (f, "NotMatch"@, protocol_error_text(e)),
        ProtocolErrorView::Incomplete(f, _, _) => (f, "Incomplete"@, protocol_error_text(e)),
    }
}

impl ProtocolError {
    /// to_text returns the message of this error.
    pub fn to_text(&self) -> (s: String)
        ensures
            s@ == protocol_error_text(self@),
    {
        proof {
            reveal_strlit("no such replica:");
            reveal_strlit(", my replica_id:");
            reveal_strlit("lack of required field:");
            reveal_strlit("field: ");
            reveal_strlit(" expect: ");
            reveal_strlit(" but: ");
            reveal_strlit("incomplete field:");
            reveal_strlit(", need:");
            reveal_strlit(", but:");
        }
        let mut s = String::new();
        match self {
            ProtocolError::NoSuchReplica(rid, my) => {
                s.append("no such replica:");
                append_i64(&mut s, *rid);
                s.append(", my replica_id:");
                append_i64(&mut s, *my);
            },
            ProtocolError::LackOf(f) => {
                s.append("lack of required field:");
                s.append(f.as_str());
            },
            ProtocolError::NotMatch(f, w, g) => {
                s.append("field: ");
                s.append(f.as_str());
                s.append(" expect: ");
                s.append(w.as_str());
                s.append(" but: ");
                s.append(g.as_str());
            },
            ProtocolError::Incomplete(f, w, a) => {
                s.append("incomplete field:");
                s.append(f.as_str());
                s.append(", need:");
                append_i32(&mut s, *w);
                s.append(", but:");
                append_i32(&mut s, *a);
            },
        }
        assert(s@ =~= protocol_error_text(self@));
        s
    }

    /// to_qerror returns the error a replica replies with for this protocol error.
    pub fn to_qerror(&self) -> (q: QError)
        ensures
            q.sto is None,
            q.req is Some,
            invalid_view(q.req->0) == protocol_error_report(self@),
    {
        proof {
            reveal_strlit("cmn.to_replica_id");
            reveal_strlit("NotFound");
            reveal_strlit("; my replica_id: ");
            reveal_strlit("LackOf");
            reveal_strlit("");
            reveal_strlit("NotMatch");
            reveal_strlit("Incomplete");
        }
        let ctx = self.to_text();
        let req = match self {
            ProtocolError::NoSuchReplica(rid, my) => {
                let mut c = String::new();
                append_i64(&mut c, *rid);
                c.append("; my replica_id: ");
                append_i64(&mut c, *my);
                assert(c@ =~= int_chars(*rid as int) + "; my replica_id: "@ + int_chars(
                    *my as int,
                ));
                InvalidRequest {
                    field: String::from_str("cmn.to_replica_id"),
                    problem: String::from_str("NotFound"),
                    ctx: c,
                }
            },
            ProtocolError::LackOf(f) => InvalidRequest {
                field: copy_string(f),
                problem: String::from_str("LackOf"),
                ctx: String::new(),
            },
            ProtocolError::NotMatch(f, _, _) => InvalidRequest {
                field: copy_string(f),
                problem: String::from_str("NotMatch"),
                ctx,
            },
            ProtocolError::Incomplete(f, _, _) => InvalidRequest {
                field: copy_string(f),
                problem: String::from_str("Incomplete"),
                ctx,
            },
        };
        assert(invalid_view(req) =~= protocol_error_report(self@));
        QError { sto: None, req: Some(req) }
    }
}

impl From<(ReplicaId, ReplicaId)> for ProtocolError {
    fn from(ids: (ReplicaId, ReplicaId)) -> (e: ProtocolError) {
        ProtocolError::NoSuchReplica(ids.0, ids.1)
    }
}

impl vstd::std_specs::convert::FromSpecImpl<(ReplicaId, ReplicaId)> for ProtocolError {
    open spec fn obeys_from_spec() -> bool {
        true
    }

    open spec fn from_spec(ids: (ReplicaId, ReplicaId)) -> ProtocolError {
        ProtocolError::NoSuchReplica(ids.0, ids.1)
    }
}

// A `QError` holds strings, whose equality a spec function cannot construct: the
// conversion states what it builds in its own `ensures`.
impl From<ProtocolError> for QError {
    fn from(e: ProtocolError) -> (q: QError)
        ensures
            q.sto is None,
            q.req is Some,
            invalid_view(q.req->0) == protocol_error_report(e@),
    {
        e.to_qerror()
    }
}

impl vstd::std_specs::convert::FromSpecImpl<ProtocolError> for QError {
    open spec fn obeys_from_spec() -> bool {
        false
    }

    open spec fn from_spec(e: ProtocolError) -> QError {
        arbitrary()
    }
}

} // verus!
