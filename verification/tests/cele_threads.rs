use epaxos::cele_threads::{execute_error_to_str, CeleThreadsError, ExecutionFailure};

#[test]
fn test_execution_failure_maps_to_error() {
    assert_eq!(CeleThreadsError::Timeout(ExecutionFailure::Timeout), ExecutionFailure::Timeout.into());
    assert_eq!(
        CeleThreadsError::InternalErr(ExecutionFailure::Disconnected),
        ExecutionFailure::Disconnected.into()
    );
    assert_eq!(
        CeleThreadsError::InternalErr(ExecutionFailure::PoolPoisoned),
        CeleThreadsError::from(ExecutionFailure::PoolPoisoned)
    );
}

#[test]
fn test_execute_error_names() {
    assert_eq!("Timeout(timeout)", execute_error_to_str(&ExecutionFailure::Timeout));
    assert_eq!("InternalErr(uninitalized)", execute_error_to_str(&ExecutionFailure::Uninitialized));
    assert_eq!(
        "CeleThreadsError::InternalErr(disconnected)",
        CeleThreadsError::from(ExecutionFailure::Disconnected).describe()
    );
}
