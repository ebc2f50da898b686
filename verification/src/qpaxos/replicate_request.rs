//! The phase a replication request carries.
use crate::qpaxos::message::{AcceptRequest, CommitRequest, PrepareRequest};
use vstd::prelude::*;

verus! {

/// Phase is the part of a replication request specific to its phase.
#[derive(Clone, Debug, PartialEq, Eq)]
pub enum Phase {
    Prepare(PrepareRequest),
    Accept(AcceptRequest),
    Commit(CommitRequest),
}

} // verus!
