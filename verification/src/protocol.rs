//! Wire-level shapes: a command on string keys, and the envelope every protocol message
//! travels in.
use vstd::prelude::*;

verus! {

/// OpCode is what a command does to its key.
#[derive(Clone, Copy, Debug, PartialEq, Eq, Structural)]
pub enum OpCode {
    NoOp,
    Put,
    Get,
}

/// Command is an operation on a string key, with a value for `Put`.
#[derive(Clone, Debug, PartialEq, Eq)]
pub struct Command {
    pub op: OpCode,
    pub key: String,
    pub value: String,
}

/// RequestType is the step of the protocol a message belongs to.
#[derive(Clone, Copy, Debug, PartialEq, Eq, Structural)]
pub enum RequestType {
    Prepare,
    TryPreAccept,
    PreAccept,
    Accept,
    Commit,
}

/// MsgType tells a request from a reply.
#[derive(Clone, Copy, Debug, PartialEq, Eq, Structural)]
pub enum MsgType {
    Request,
    Reply,
}

/// Message is the envelope of a serialized protocol message.
#[derive(Clone, Debug, PartialEq, Eq)]
pub struct Message {
    pub req_type: RequestType,
    pub msg_type: MsgType,
    pub msg: Vec<u8>,
}

} // verus!
