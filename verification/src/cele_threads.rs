//! A pool of worker threads that runs dispatched jobs, and the errors it reports.
use vstd::prelude::*;

verus! {

/// ExecutionFailure is why a pool did not take a job: the queue stayed full past the
/// timeout, the pool was not set up, it is shutting down, or it is poisoned.
#[derive(Clone, Copy, Debug, PartialEq, Eq, Structural)]
pub enum ExecutionFailure {
    Timeout,
    Uninitialized,
    Disconnected,
    PoolPoisoned,
}

/// CeleThreadsError is a failure to dispatch a job: a timeout, or anything else.
#[derive(Clone, Copy, Debug, PartialEq, Eq, Structural)]
pub enum CeleThreadsError {
    Timeout(ExecutionFailure),
    InternalErr(ExecutionFailure),
}

/// The error a failure is reported as: a timeout as `Timeout`, anything else as
/// `InternalErr`, each carrying the failure.
pub open spec fn error_of(e: ExecutionFailure) -> CeleThreadsError {
    match e {
        ExecutionFailure::Timeout => CeleThreadsError::Timeout(e),
        _ => CeleThreadsError::InternalErr(e),
    }
}

impl From<ExecutionFailure> for CeleThreadsError {
    fn from(e: ExecutionFailure) -> (r: CeleThreadsError) {
        match e {
            ExecutionFailure::Timeout => CeleThreadsError::Timeout(e),
            _ => CeleThreadsError::InternalErr(e),
        }
    }
}

impl vstd::std_specs::convert::FromSpecImpl<ExecutionFailure> for CeleThreadsError {
    open spec fn obeys_from_spec() -> bool {
        true
    }

    open spec fn from_spec(e: ExecutionFailure) -> CeleThreadsError {
        error_of(e)
    }
}

/// The name of a failure, with the kind of error it is reported as.
pub open spec fn failure_text(e: ExecutionFailure) -> Seq<char> {
    match e {
        ExecutionFailure::Timeout => "Timeout(timeout)"@,
        ExecutionFailure::Uninitialized => "InternalErr(uninitalized)"@,
        ExecutionFailure::Disconnected => "InternalErr(disconnected)"@,
        ExecutionFailure::PoolPoisoned => "InternalErr(poolposioned)"@,
    }
}

/// execute_error_to_str names a failure, with the kind of error it is reported as.
pub fn execute_error_to_str(err: &ExecutionFailure) -> (s: &'static str)
    ensures
        s@ == failure_text(*err),
{
    proof {
        reveal_strlit("Timeout(timeout)");
        reveal_strlit("InternalErr(uninitalized)");
        reveal_strlit("InternalErr(disconnected)");
        reveal_strlit("InternalErr(poolposioned)");
    }
    match err {
        ExecutionFailure::Timeout => "Timeout(timeout)",
        ExecutionFailure::Uninitialized => "InternalErr(uninitalized)",
        ExecutionFailure::Disconnected => "InternalErr(disconnected)",
        ExecutionFailure::PoolPoisoned => "InternalErr(poolposioned)",
    }
}

impl CeleThreadsError {
    /// describe returns `CeleThreadsError::` followed by the name of the failure.
    pub fn describe(&self) -> (s: String)
        ensures
            s@ == "CeleThreadsError::"@ + failure_text(
                match self {
                    CeleThreadsError::Timeout(e) => *e,
                    CeleThreadsError::InternalErr(e) => *e,
                },
            ),
    {
        proof {
            reveal_strlit("CeleThreadsError::");
        }
        let msg = match self {
            CeleThreadsError::Timeout(e) => execute_error_to_str(e),
            CeleThreadsError::InternalErr(e) => execute_error_to_str(e),
        };
        let mut s = String::from_str("CeleThreadsError::");
        s.append(msg);
        s
    }
}

/// CeleThreadPool is a pool that runs jobs on its threads.
pub trait CeleThreadPool: Sized {
    /// new starts a pool of `size` threads.
    fn new(size: usize) -> Self;

    /// dispatch hands `f` to a thread of the pool.
    fn dispatch<F: FnOnce() + Send + 'static>(&self, f: F) -> Result<(), CeleThreadsError>;

    /// destory drops the queued jobs and shuts the pool down.
    fn destory(&mut self) -> Result<(), CeleThreadsError>;
}

} // verus!
