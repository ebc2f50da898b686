//! The phase a replication reply carries.
use crate::qpaxos::message::{AcceptReply, CommitReply, PrepareReply};
use vstd::prelude::*;

verus! {

/// Phase is the part of a replication reply specific to its phase.
#[derive(Clone, Debug, PartialEq, Eq)]
pub enum Phase {
    Prepare(PrepareReply),
    Accept(AcceptReply),
    Commit(CommitReply),
}

} // verus!
