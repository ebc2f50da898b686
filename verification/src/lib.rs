//! EPaxos-style replication protocol primitives: instance identifiers, dependency
//! tracking, quorum arithmetic, replication bookkeeping and message construction.

pub mod qpaxos;
pub mod text;
pub mod cele_threads;
pub mod command;
pub mod conf;
pub mod instance;
pub mod iters;
pub mod message;
pub mod protocol;
pub mod replica;
pub mod serverdata;
pub mod replication;
