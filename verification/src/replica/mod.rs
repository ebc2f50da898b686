//! What a replica does with instances: tracking replication, executing, and handling
//! requests.

pub mod exec;
pub mod execute;
pub mod replica;
pub mod status;

pub use status::{get_accept_dep, get_fast_commit_dep, RepliedDep};
pub use exec::{find_missing_insts, select_executable};
pub use replica::{Replica, ReplicaPeer};
