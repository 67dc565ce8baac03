use lambars::async_io::{
    backoff_multiplier, blocking_mode, check_batch_limit, check_pool_capacity, effective_concurrency, queue_length,
    BatchError, BlockingError, BlockingMode, PoolError, RetryState, RetryStep, RuntimeKind, TimeoutError,
    timeout_message,
};
use std::time::Duration;

#[test]
fn test_timeout_error_display() {
    let error = TimeoutError { duration: Duration::from_secs(5) };
    assert_eq!(error.to_string(), "operation timed out after 5s");
}

#[test]
fn test_timeout_error_equality() {
    let error1 = TimeoutError { duration: Duration::from_secs(5) };
    let error2 = TimeoutError { duration: Duration::from_secs(5) };
    let error3 = TimeoutError { duration: Duration::from_secs(10) };
    assert_eq!(error1, error2);
    assert_ne!(error1, error3);
}

#[test]
fn test_timeout_error_clone() {
    let error = TimeoutError { duration: Duration::from_millis(100) };
    let cloned = error.clone();
    assert_eq!(error, cloned);
}

#[test]
fn test_timeout_error_debug() {
    let error = TimeoutError::new(Duration::from_millis(100));
    let debug_str = format!("{error:?}");
    assert!(debug_str.contains("TimeoutError"));
    assert!(debug_str.contains("100"));
}

#[test]
fn error_messages() {
    assert_eq!(BatchError::InvalidLimit.to_string(), "batch_run_buffered: limit must be greater than 0");
    assert_eq!(PoolError::InvalidCapacity.to_string(), "pool capacity must be greater than 0");
    assert_eq!(PoolError::QueueFull.to_string(), "queue is full: cannot spawn more futures without exceeding capacity");
    assert_eq!(PoolError::InvalidConcurrencyLimit.to_string(), "concurrency limit must be greater than 0");
    assert_eq!(
        BlockingError::CurrentThreadRuntime.to_string(),
        "cannot execute blocking operation in current-thread runtime: block_in_place is only supported in multi-thread runtimes"
    );
    assert_eq!(
        BlockingError::UnsupportedRuntimeFlavor.to_string(),
        "cannot execute blocking operation: the runtime flavor is not supported for blocking execution"
    );
}

#[test]
fn batch_and_pool_checks() {
    assert_eq!(check_batch_limit(0), Err(BatchError::InvalidLimit));
    assert_eq!(check_batch_limit(3), Ok(3));
    assert_eq!(check_pool_capacity(10, 5), Ok(()));
    assert_eq!(check_pool_capacity(10, 10), Ok(()));
    assert_eq!(check_pool_capacity(0, 0), Err(PoolError::InvalidCapacity));
    assert_eq!(check_pool_capacity(5, 10), Err(PoolError::InvalidCapacity));
    assert_eq!(check_pool_capacity(5, 0), Err(PoolError::InvalidCapacity));
    assert_eq!(queue_length(5, 2), 3);
    assert_eq!(queue_length(5, 7), 0);
    assert_eq!(effective_concurrency(0, 4), Err(PoolError::InvalidConcurrencyLimit));
    assert_eq!(effective_concurrency(2, 4), Ok(2));
    assert_eq!(effective_concurrency(8, 4), Ok(4));
}

#[test]
fn blocking_decisions() {
    assert_eq!(blocking_mode(RuntimeKind::NoRuntime), Ok(BlockingMode::GlobalRuntime));
    assert_eq!(blocking_mode(RuntimeKind::MultiThread), Ok(BlockingMode::InPlace));
    assert_eq!(blocking_mode(RuntimeKind::CurrentThread), Err(BlockingError::CurrentThreadRuntime));
    assert_eq!(blocking_mode(RuntimeKind::Other), Err(BlockingError::UnsupportedRuntimeFlavor));
}

#[test]
fn retry_decisions() {
    let mut state = RetryState::new(3);
    assert_eq!(state.first_step(), RetryStep::Attempt);
    assert_eq!(state.after_attempt(true), RetryStep::Attempt);
    assert_eq!(state.after_attempt(true), RetryStep::Attempt);
    assert_eq!(state.after_attempt(true), RetryStep::Finish);
    assert_eq!(state.current_attempt, 3);
    let mut success = RetryState::new(3);
    assert_eq!(success.after_attempt(false), RetryStep::Finish);
    let zero = RetryState::new(0);
    assert_eq!(zero.max_attempts, 1);
}

#[test]
fn backoff_grows_by_doubling() {
    assert_eq!(backoff_multiplier(1), 1);
    assert_eq!(backoff_multiplier(2), 2);
    assert_eq!(backoff_multiplier(4), 8);
    assert_eq!(backoff_multiplier(32), 2147483648);
    assert_eq!(backoff_multiplier(33), u32::MAX);
    assert_eq!(backoff_multiplier(1000), u32::MAX);
}

#[test]
fn timeout_message_puts_the_limit_after_the_prefix() {
    assert_eq!(timeout_message("250ms"), "operation timed out after 250ms");
    assert_eq!(TimeoutError::new(Duration::from_millis(250)).to_string(), "operation timed out after 250ms");
}
