//! Data types of the replication protocol and the operations on them.

pub mod deps;
pub mod display;
pub mod errors;
pub mod ids;
pub mod instance;
pub mod message;
pub mod order;
pub mod quorums;
pub mod record;
pub mod replicate_reply;
pub mod replicate_request;

pub use crate::command::{Command, Conflict, OpCode};
pub use ids::{BallotNum, Dep, IdInt, InstanceId, InstanceIdx, ReplicaId, ReplicaStatus};
pub use quorums::{fast_quorum, quorum};
pub use deps::{DepVec, Deps, InstanceIdVec, InstanceIds};
pub use instance::{Instance, InstanceStatus};
pub use errors::{InvalidRequest, ProtocolError, QError, StorageFailure};
pub use message::{
    AcceptReply, AcceptRequest, CommitReply, CommitRequest, MakeRequest, PrepareReply, PrepareRequest,
    ReplicateReply, ReplicateRequest,
};
pub use display::ToStringExt;
pub use record::{Record, Value, ValueEnum};
