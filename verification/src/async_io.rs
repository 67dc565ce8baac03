//! The decisions of asynchronous computations and their errors.
//!
//! Running futures is left to the asynchronous runtime; what is decided
//! along the way stands here: whether a failed attempt is retried, how long
//! the pause before a retry grows, whether a pool or a batch is configured
//! correctly, and how a blocking call may run in the current runtime.

use vstd::prelude::*;
use vstd::string::StringExecFns;
use std::time::Duration;

verus! {

/// The text that std's `Debug` formatting writes for a span of time, such
/// as `5s` or `100ms`; it depends on the span alone.
pub uninterp spec fn duration_debug(duration: Duration) -> Seq<char>;

/// The text of a span of time, as its `Debug` formatting writes it.
///
/// Calls std's `Debug` formatting of `Duration` through `format!`; the
/// contract claims only that the text is the one named by
/// [`duration_debug`] for this span, without restating the formatting.
#[verifier::external_body]
fn duration_text(duration: &Duration) -> (text: String)
    ensures
        text@ == duration_debug(*duration),
{
    format!("{:?}", duration)
}

/// An operation did not finish within its time limit.
#[derive(Debug, PartialEq, Eq)]
pub struct TimeoutError {
    /// The time limit that was exceeded.
    pub duration: Duration,
}

impl Clone for TimeoutError {
    /// An error for the same time limit.
    fn clone(&self) -> (copy: Self)
        ensures
            copy == *self,
    {
        TimeoutError { duration: self.duration }
    }
}

/// The message of a [`TimeoutError`] begins so; the span of time follows.
pub open spec fn timeout_prefix() -> Seq<char> {
    "operation timed out after "@
}

impl TimeoutError {
    /// An error for the time limit `duration`.
    pub fn new(duration: Duration) -> (error: Self)
        ensures
            error.duration == duration,
    {
        TimeoutError { duration }
    }

    /// The message: `operation timed out after `, then the time limit.
    pub fn to_string(&self) -> (text: String)
        ensures
            text@ == timeout_prefix() + duration_debug(self.duration),
    {
        let limit = duration_text(&self.duration);
        timeout_message(&limit)
    }
}

/// The message of a timeout whose time limit is written `limit`.
pub fn timeout_message(limit: &str) -> (text: String)
    ensures
        text@ == timeout_prefix() + limit@,
{
    let mut text = String::from_str("operation timed out after ");
    text.append(limit);
    text
}

/// An error of running a batch of computations.
#[derive(Debug, Clone, Copy, PartialEq, Eq, Structural)]
pub enum BatchError {
    /// The concurrency limit was 0.
    InvalidLimit,
}

impl BatchError {
    /// The message of the error.
    pub fn to_string(&self) -> (text: String)
        ensures
            text@ == "batch_run_buffered: limit must be greater than 0"@,
    {
        String::from_str("batch_run_buffered: limit must be greater than 0")
    }
}

/// Checks the concurrency limit of a buffered batch: it must be positive.
pub fn check_batch_limit(limit: usize) -> (checked: Result<usize, BatchError>)
    ensures
        limit == 0 ==> checked == Err::<usize, BatchError>(BatchError::InvalidLimit),
        limit > 0 ==> checked == Ok::<usize, BatchError>(limit),
{
    if limit == 0 {
        Err(BatchError::InvalidLimit)
    } else {
        Ok(limit)
    }
}

/// An error of a pool of computations.
#[derive(Debug, Clone, Copy, PartialEq, Eq, Structural)]
pub enum PoolError {
    /// A capacity was 0, or the queue was larger than the pool.
    InvalidCapacity,
    /// The queue had no room for another computation.
    QueueFull,
    /// The concurrency limit was 0.
    InvalidConcurrencyLimit,
}

/// The message of each pool error.
pub open spec fn pool_error_message(error: PoolError) -> Seq<char> {
    match error {
        PoolError::InvalidCapacity => "pool capacity must be greater than 0"@,
        PoolError::QueueFull => "queue is full: cannot spawn more futures without exceeding capacity"@,
        PoolError::InvalidConcurrencyLimit => "concurrency limit must be greater than 0"@,
    }
}

impl PoolError {
    /// The message of the error.
    pub fn to_string(&self) -> (text: String)
        ensures
            text@ == pool_error_message(*self),
    {
        match self {
            PoolError::InvalidCapacity => String::from_str("pool capacity must be greater than 0"),
            PoolError::QueueFull => String::from_str("queue is full: cannot spawn more futures without exceeding capacity"),
            PoolError::InvalidConcurrencyLimit => String::from_str("concurrency limit must be greater than 0"),
        }
    }
}

/// Checks the configuration of a pool: both capacities must be positive and
/// the queue no larger than the pool.
pub fn check_pool_capacity(capacity: usize, queue_capacity: usize) -> (checked: Result<(), PoolError>)
    ensures
        checked is Ok <==> (capacity > 0 && queue_capacity > 0 && queue_capacity <= capacity),
        checked is Err ==> checked == Err::<(), PoolError>(PoolError::InvalidCapacity),
{
    if capacity == 0 || queue_capacity == 0 || queue_capacity > capacity {
        Err(PoolError::InvalidCapacity)
    } else {
        Ok(())
    }
}

/// The number of queued computations: the queue's capacity less the free
/// places, and 0 when more places are free than the capacity.
pub fn queue_length(queue_capacity: usize, free_places: usize) -> (length: usize)
    ensures
        free_places <= queue_capacity ==> length == queue_capacity - free_places,
        free_places > queue_capacity ==> length == 0,
{
    if free_places <= queue_capacity {
        queue_capacity - free_places
    } else {
        0
    }
}

/// The concurrency of a buffered run of a pool: the requested limit, at
/// most the pool's capacity; a limit of 0 is refused.
pub fn effective_concurrency(limit: usize, capacity: usize) -> (concurrency: Result<usize, PoolError>)
    ensures
        limit == 0 ==> concurrency == Err::<usize, PoolError>(PoolError::InvalidConcurrencyLimit),
        limit > 0 && limit <= capacity ==> concurrency == Ok::<usize, PoolError>(limit),
        limit > 0 && limit > capacity ==> concurrency == Ok::<usize, PoolError>(capacity),
{
    if limit == 0 {
        Err(PoolError::InvalidConcurrencyLimit)
    } else if limit <= capacity {
        Ok(limit)
    } else {
        Ok(capacity)
    }
}

/// An error of running a blocking operation.
#[derive(Debug, Clone, Copy, PartialEq, Eq, Structural)]
pub enum BlockingError {
    /// The current runtime runs on one thread and cannot block.
    CurrentThreadRuntime,
    /// The current runtime is of a kind that cannot block.
    UnsupportedRuntimeFlavor,
}

/// The message of each blocking error.
pub open spec fn blocking_error_message(error: BlockingError) -> Seq<char> {
    match error {
        BlockingError::CurrentThreadRuntime =>
            "cannot execute blocking operation in current-thread runtime: block_in_place is only supported in multi-thread runtimes"@,
        BlockingError::UnsupportedRuntimeFlavor =>
            "cannot execute blocking operation: the runtime flavor is not supported for blocking execution"@,
    }
}

impl BlockingError {
    /// The message of the error.
    pub fn to_string(&self) -> (text: String)
        ensures
            text@ == blocking_error_message(*self),
    {
        match self {
            BlockingError::CurrentThreadRuntime => String::from_str(
                "cannot execute blocking operation in current-thread runtime: block_in_place is only supported in multi-thread runtimes",
            ),
            BlockingError::UnsupportedRuntimeFlavor => String::from_str(
                "cannot execute blocking operation: the runtime flavor is not supported for blocking execution",
            ),
        }
    }
}

/// The runtime in which a blocking operation is asked for.
#[derive(Debug, Clone, Copy, PartialEq, Eq, Structural)]
pub enum RuntimeKind {
    /// No runtime is running on this thread.
    NoRuntime,
    /// A runtime with several worker threads.
    MultiThread,
    /// A runtime on the current thread only.
    CurrentThread,
    /// A runtime of another kind.
    Other,
}

/// How a blocking operation runs.
#[derive(Debug, Clone, Copy, PartialEq, Eq, Structural)]
pub enum BlockingMode {
    /// On the shared global runtime.
    GlobalRuntime,
    /// In place, on the current multi-threaded runtime.
    InPlace,
}

/// Decides how a blocking operation runs in the runtime `kind`: on the
/// global runtime when none runs, in place on a multi-threaded one, and not
/// at all on any other.
pub fn blocking_mode(kind: RuntimeKind) -> (mode: Result<BlockingMode, BlockingError>)
    ensures
        mode == (match kind {
            RuntimeKind::NoRuntime => Ok::<BlockingMode, BlockingError>(BlockingMode::GlobalRuntime),
            RuntimeKind::MultiThread => Ok(BlockingMode::InPlace),
            RuntimeKind::CurrentThread => Err(BlockingError::CurrentThreadRuntime),
            RuntimeKind::Other => Err(BlockingError::UnsupportedRuntimeFlavor),
        }),
{
    match kind {
        RuntimeKind::NoRuntime => Ok(BlockingMode::GlobalRuntime),
        RuntimeKind::MultiThread => Ok(BlockingMode::InPlace),
        RuntimeKind::CurrentThread => Err(BlockingError::CurrentThreadRuntime),
        RuntimeKind::Other => Err(BlockingError::UnsupportedRuntimeFlavor),
    }
}

/// What a retrying computation does next.
#[derive(Debug, Clone, Copy, PartialEq, Eq, Structural)]
pub enum RetryStep {
    /// Give the last result.
    Finish,
    /// Start another attempt.
    Attempt,
}

/// The count of attempts of a retrying computation.
#[derive(Debug, Clone, Copy, PartialEq, Eq, Structural)]
pub struct RetryState {
    /// How many attempts may be made; at least 1.
    pub max_attempts: usize,
    /// How many attempts have completed.
    pub current_attempt: usize,
}

impl RetryState {
    /// The count is consistent: at least one attempt is allowed, and no more
    /// have completed than are allowed.
    pub open spec fn well_formed(self) -> bool {
        1 <= self.max_attempts && self.current_attempt <= self.max_attempts
    }

    /// The state before any attempt, allowing `max_attempts` attempts, or
    /// one when 0 is asked for.
    pub fn new(max_attempts: usize) -> (state: Self)
        ensures
            state.well_formed(),
            state.current_attempt == 0,
            state.max_attempts == if max_attempts == 0 { 1 } else { max_attempts },
    {
        let max_attempts = if max_attempts == 0 { 1 } else { max_attempts };
        RetryState { max_attempts, current_attempt: 0 }
    }

    /// The first step: an attempt, since none has been made.
    pub fn first_step(&self) -> (step: RetryStep)
        requires
            self.well_formed(),
            self.current_attempt == 0,
        ensures
            step == RetryStep::Attempt,
    {
        RetryStep::Attempt
    }

    /// Records that an attempt completed, with a result that `wants_retry`
    /// says whether to retry, and decides what follows: the result is given
    /// when no retry is wanted or no attempt is left; otherwise another
    /// attempt starts.
    pub fn after_attempt(&mut self, wants_retry: bool) -> (step: RetryStep)
        requires
            old(self).well_formed(),
            old(self).current_attempt < old(self).max_attempts,
        ensures
            final(self).well_formed(),
            final(self).max_attempts == old(self).max_attempts,
            final(self).current_attempt == old(self).current_attempt + 1,
            step == if !wants_retry || final(self).current_attempt >= final(self).max_attempts {
                RetryStep::Finish
            } else {
                RetryStep::Attempt
            },
            step == RetryStep::Attempt ==> final(self).current_attempt < final(self).max_attempts,
    {
        self.current_attempt = self.current_attempt + 1;
        if !wants_retry || self.current_attempt >= self.max_attempts {
            RetryStep::Finish
        } else {
            RetryStep::Attempt
        }
    }
}

/// `2` to the power `exponent`.
pub open spec fn power_of_two(exponent: nat) -> nat
    decreases exponent,
{
    if exponent == 0 {
        1
    } else {
        2 * power_of_two((exponent - 1) as nat)
    }
}

/// The factor by which the pause before attempt `attempt` (counted from 0)
/// is multiplied: 2 to the power `attempt - 1`, at most `u32::MAX`; the
/// first attempt has no pause.
pub fn backoff_multiplier(attempt: usize) -> (factor: u32)
    requires
        attempt > 0,
    ensures
        power_of_two((attempt - 1) as nat) <= u32::MAX ==> factor == power_of_two((attempt - 1) as nat),
        power_of_two((attempt - 1) as nat) > u32::MAX ==> factor == u32::MAX,
{
    let exponent: usize = attempt - 1;
    let mut factor: u64 = 1;
    let mut i: usize = 0;
    while i < exponent
        invariant
            i <= exponent,
            exponent == attempt - 1,
            factor <= u32::MAX,
            power_of_two(i as nat) <= u32::MAX ==> factor == power_of_two(i as nat),
            power_of_two(i as nat) > u32::MAX ==> factor == u32::MAX,
        decreases exponent - i,
    {
        proof {
            lemma_power_of_two_grows(i as nat);
        }
        if factor * 2 > 4294967295u64 {
            factor = 4294967295u64;
        } else {
            factor = factor * 2;
        }
        i = i + 1;
    }
    factor as u32
}

/// Each power of two is twice the one before.
proof fn lemma_power_of_two_grows(exponent: nat)
    ensures
        power_of_two(exponent + 1) == 2 * power_of_two(exponent),
        power_of_two(exponent) >= 1,
    decreases exponent,
{
    if exponent > 0 {
        lemma_power_of_two_grows((exponent - 1) as nat);
    }
}

/// The retry law: starting from any consistent count, the decisions never
/// allow more attempts than `max_attempts`, and a result for which no retry
/// is wanted is always given.
pub proof fn law_retry_bounded(before: RetryState, after: RetryState, wants_retry: bool, step: RetryStep)
    requires
        before.well_formed(),
        before.current_attempt < before.max_attempts,
        after.max_attempts == before.max_attempts,
        after.current_attempt == before.current_attempt + 1,
        step == if !wants_retry || after.current_attempt >= after.max_attempts { RetryStep::Finish } else { RetryStep::Attempt },
    ensures
        after.current_attempt <= after.max_attempts,
        !wants_retry ==> step == RetryStep::Finish,
        after.current_attempt == after.max_attempts ==> step == RetryStep::Finish,
{
}

} // verus!
