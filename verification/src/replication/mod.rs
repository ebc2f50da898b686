//! Replicating an instance: checking and recording the replies of other replicas.

pub mod errors;
pub mod hdlreply;
pub mod replication;

pub use errors::{Direction, ReplicaError, RpcHandlerError, StorageError};
pub use hdlreply::{check_repl_common, handle_accept_reply, handle_fast_accept_reply};
pub use replication::{
    accept_failure, after_prepare_replies, on_accept_reply, on_prepare_reply, start_replication,
    ReplicationError, ReplicationStep,
};
