//! Errors of the executor and of running tasks.

use crate::text;
use vstd::prelude::*;
use vstd::string::StringExecFns;

verus! {

/// Everything that building, admitting or stopping work can fail with.
#[derive(Debug, Clone, Eq, PartialEq)]
#[non_exhaustive]
pub enum BeaverError {
    /// A required field was not set before a task was built.
    BuilderMissingField(&'static str),
    /// The queue holds as many entries as it may.
    QueueFull,
    /// The execution thread was released and takes no more work.
    DamReleased,
    /// An internal lock was poisoned by a panic.
    LockPoisoned,
    /// There is no execution thread of that name.
    NoDam,
    /// The executor began its irreversible shutdown.
    ExecutorShuttingDown,
    /// Some worker did not stop before the shutdown deadline.
    ShutdownTimedOut,
    /// A supervised lane worker failed during shutdown.
    WorkerFailed(String),
    /// A lane must be able to queue at least one entry.
    InvalidLaneCapacity,
    /// A lane must be able to run at least one entry.
    InvalidLaneConcurrency,
    /// A lane of that name exists with another configuration.
    LaneConfigConflict { name: String },
    /// A scope of that name exists on another lane generation.
    ScopeConfigConflict { name: String },
    /// A task slot of that key exists on another lane generation.
    SlotConfigConflict { key: String },
    /// A resource budget of the executor was exhausted.
    ResourceLimitExceeded { resource: &'static str },
    /// A configured resource limit is invalid.
    InvalidResourceLimit { field: &'static str },
    /// There is no runtime to build an executor on.
    RuntimeUnavailable,
    /// A range interval task was given more ranges than attempts.
    RangeIntervalRangesExceedTotal { total: u32, ranges_count: usize },
}

/// Result of a fallible operation of the executor.
pub type BeaverResult<T> = Result<T, BeaverError>;

impl BeaverError {
    /// Stable machine-readable code for telemetry and support logs.
    pub fn code(&self) -> (code: &'static str)
        ensures
            match *self {
                BeaverError::BuilderMissingField(_) => code@ == "BB-BUILDER-MISSING-FIELD"@,
                BeaverError::QueueFull => code@ == "BB-QUEUE-FULL"@,
                BeaverError::DamReleased => code@ == "BB-DAM-RELEASED"@,
                BeaverError::LockPoisoned => code@ == "BB-LOCK-POISONED"@,
                BeaverError::NoDam => code@ == "BB-NO-DAM"@,
                BeaverError::ExecutorShuttingDown => code@ == "BB-EXECUTOR-SHUTTING-DOWN"@,
                BeaverError::ShutdownTimedOut => code@ == "BB-SHUTDOWN-TIMED-OUT"@,
                BeaverError::WorkerFailed(_) => code@ == "BB-WORKER-FAILED"@,
                BeaverError::InvalidLaneCapacity => code@ == "BB-INVALID-LANE-CAPACITY"@,
                BeaverError::InvalidLaneConcurrency => code@ == "BB-INVALID-LANE-CONCURRENCY"@,
                BeaverError::LaneConfigConflict { .. } => code@ == "BB-LANE-CONFIG-CONFLICT"@,
                BeaverError::ScopeConfigConflict { .. } => code@ == "BB-SCOPE-CONFIG-CONFLICT"@,
                BeaverError::SlotConfigConflict { .. } => code@ == "BB-SLOT-CONFIG-CONFLICT"@,
                BeaverError::ResourceLimitExceeded { .. } => code@
                    == "BB-RESOURCE-LIMIT-EXCEEDED"@,
                BeaverError::InvalidResourceLimit { .. } => code@ == "BB-INVALID-RESOURCE-LIMIT"@,
                BeaverError::RuntimeUnavailable => code@ == "BB-RUNTIME-UNAVAILABLE"@,
                BeaverError::RangeIntervalRangesExceedTotal { .. } => code@
                    == "BB-RANGE-COUNT-EXCEEDS-TOTAL"@,
            },
    {
        match self {
            BeaverError::BuilderMissingField(_) => "BB-BUILDER-MISSING-FIELD",
            BeaverError::QueueFull => "BB-QUEUE-FULL",
            BeaverError::DamReleased => "BB-DAM-RELEASED",
            BeaverError::LockPoisoned => "BB-LOCK-POISONED",
            BeaverError::NoDam => "BB-NO-DAM",
            BeaverError::ExecutorShuttingDown => "BB-EXECUTOR-SHUTTING-DOWN",
            BeaverError::ShutdownTimedOut => "BB-SHUTDOWN-TIMED-OUT",
            BeaverError::WorkerFailed(_) => "BB-WORKER-FAILED",
            BeaverError::InvalidLaneCapacity => "BB-INVALID-LANE-CAPACITY",
            BeaverError::InvalidLaneConcurrency => "BB-INVALID-LANE-CONCURRENCY",
            BeaverError::LaneConfigConflict { .. } => "BB-LANE-CONFIG-CONFLICT",
            BeaverError::ScopeConfigConflict { .. } => "BB-SCOPE-CONFIG-CONFLICT",
            BeaverError::SlotConfigConflict { .. } => "BB-SLOT-CONFIG-CONFLICT",
            BeaverError::ResourceLimitExceeded { .. } => "BB-RESOURCE-LIMIT-EXCEEDED",
            BeaverError::InvalidResourceLimit { .. } => "BB-INVALID-RESOURCE-LIMIT",
            BeaverError::RuntimeUnavailable => "BB-RUNTIME-UNAVAILABLE",
            BeaverError::RangeIntervalRangesExceedTotal { .. } => "BB-RANGE-COUNT-EXCEEDS-TOTAL",
        }
    }

    /// Human-readable description.
    pub open spec fn description(&self) -> Seq<char> {
        match *self {
            BeaverError::BuilderMissingField(field) => "builder missing required field: "@ + field@,
            BeaverError::QueueFull => "task queue is full"@,
            BeaverError::DamReleased => "execution thread has been released"@,
            BeaverError::LockPoisoned => "internal lock poisoned"@,
            BeaverError::NoDam => "no execution thread available"@,
            BeaverError::ExecutorShuttingDown => "executor is shutting down"@,
            BeaverError::ShutdownTimedOut => "executor shutdown deadline was exceeded"@,
            BeaverError::WorkerFailed(message) => "executor worker failed: "@
                + message@,
            BeaverError::InvalidLaneCapacity => "lane queue capacity must be at least one"@,
            BeaverError::InvalidLaneConcurrency => "lane concurrency must be at least one"@,
            BeaverError::LaneConfigConflict { name } => "lane '"@ + name@
                + "' already exists with a different configuration"@,
            BeaverError::ScopeConfigConflict { name } => "scope '"@ + name@
                + "' already exists on a different lane"@,
            BeaverError::SlotConfigConflict { key } => "task slot '"@ + key@
                + "' already exists on a different lane"@,
            BeaverError::ResourceLimitExceeded { resource } => "resource limit exceeded: "@ + resource@,
            BeaverError::InvalidResourceLimit { field } => "resource limit '"@ + field@
                + "' must be non-zero"@,
            BeaverError::RuntimeUnavailable => "no Tokio runtime is available for executor construction"@,
            BeaverError::RangeIntervalRangesExceedTotal { total, ranges_count } => "range interval ranges count ("@ + text::decimal(ranges_count as nat)
                + ") exceeds total retry count ("@ + text::decimal(total as nat) + ")"@,
        }
    }

    /// Human-readable description.
    pub fn message(&self) -> (text: String)
        ensures
            text@ == self.description(),
            match *self {
                BeaverError::BuilderMissingField(field) => text@ == "builder missing required field: "@ + field@,
                BeaverError::QueueFull => text@ == "task queue is full"@,
                BeaverError::DamReleased => text@ == "execution thread has been released"@,
                BeaverError::LockPoisoned => text@ == "internal lock poisoned"@,
                BeaverError::NoDam => text@ == "no execution thread available"@,
                BeaverError::ExecutorShuttingDown => text@ == "executor is shutting down"@,
                BeaverError::ShutdownTimedOut => text@ == "executor shutdown deadline was exceeded"@,
                BeaverError::WorkerFailed(message) => text@ == "executor worker failed: "@
                    + message@,
                BeaverError::InvalidLaneCapacity => text@ == "lane queue capacity must be at least one"@,
                BeaverError::InvalidLaneConcurrency => text@ == "lane concurrency must be at least one"@,
                BeaverError::LaneConfigConflict { name } => text@ == "lane '"@ + name@
                    + "' already exists with a different configuration"@,
                BeaverError::ScopeConfigConflict { name } => text@ == "scope '"@ + name@
                    + "' already exists on a different lane"@,
                BeaverError::SlotConfigConflict { key } => text@ == "task slot '"@ + key@
                    + "' already exists on a different lane"@,
                BeaverError::ResourceLimitExceeded { resource } => text@ == "resource limit exceeded: "@ + resource@,
                BeaverError::InvalidResourceLimit { field } => text@ == "resource limit '"@ + field@
                    + "' must be non-zero"@,
                BeaverError::RuntimeUnavailable => text@ == "no Tokio runtime is available for executor construction"@,
                BeaverError::RangeIntervalRangesExceedTotal { total, ranges_count } => text@ == "range interval ranges count ("@ + text::decimal(ranges_count as nat)
                    + ") exceeds total retry count ("@ + text::decimal(total as nat) + ")"@,
            },
    {
        match self {
            BeaverError::BuilderMissingField(field) => {
                text::join2("builder missing required field: ", field)
            },
            BeaverError::QueueFull => String::from_str("task queue is full"),
            BeaverError::DamReleased => String::from_str("execution thread has been released"),
            BeaverError::LockPoisoned => String::from_str("internal lock poisoned"),
            BeaverError::NoDam => String::from_str("no execution thread available"),
            BeaverError::ExecutorShuttingDown => String::from_str("executor is shutting down"),
            BeaverError::ShutdownTimedOut => {
                String::from_str("executor shutdown deadline was exceeded")
            },
            BeaverError::WorkerFailed(message) => {
                text::join2("executor worker failed: ", message.as_str())
            },
            BeaverError::InvalidLaneCapacity => {
                String::from_str("lane queue capacity must be at least one")
            },
            BeaverError::InvalidLaneConcurrency => {
                String::from_str("lane concurrency must be at least one")
            },
            BeaverError::LaneConfigConflict { name } => {
                text::join3(
                    "lane '",
                    name.as_str(),
                    "' already exists with a different configuration",
                )
            },
            BeaverError::ScopeConfigConflict { name } => {
                text::join3("scope '", name.as_str(), "' already exists on a different lane")
            },
            BeaverError::SlotConfigConflict { key } => {
                text::join3("task slot '", key.as_str(), "' already exists on a different lane")
            },
            BeaverError::ResourceLimitExceeded { resource } => {
                text::join2("resource limit exceeded: ", resource)
            },
            BeaverError::InvalidResourceLimit { field } => {
                text::join3("resource limit '", field, "' must be non-zero")
            },
            BeaverError::RuntimeUnavailable => {
                String::from_str("no Tokio runtime is available for executor construction")
            },
            BeaverError::RangeIntervalRangesExceedTotal { total, ranges_count } => {
                let mut text = String::from_str("range interval ranges count (");
                text::append_decimal(&mut text, *ranges_count as u64);
                text.append(") exceeds total retry count (");
                text::append_decimal(&mut text, *total as u64);
                text.append(")");
                text
            },
        }
    }
}

/// An error of a running task, handed to its listener.
#[derive(Debug, Clone)]
pub enum RuntimeError {
    /// An internal lock was poisoned.
    LockPoisoned,
    /// The work of the task failed, for instance by a panic.
    TaskExecutionFailed(String),
    /// Every permitted attempt of a bounded task asked for another one.
    RetriesExhausted,
    /// An internal invariant failed; the code identifies it.
    InternalInvariantViolation { code: &'static str },
}

impl RuntimeError {
    /// Stable machine-readable code for listener diagnostics.
    pub fn code(&self) -> (result: &'static str)
        ensures
            match *self {
                RuntimeError::LockPoisoned => result@ == "BB-RUNTIME-LOCK-POISONED"@,
                RuntimeError::TaskExecutionFailed(_) => result@ == "BB-RUNTIME-TASK-FAILED"@,
                RuntimeError::RetriesExhausted => result@ == "BB-RUNTIME-RETRIES-EXHAUSTED"@,
                RuntimeError::InternalInvariantViolation { code } => result@ == code@,
            },
    {
        match self {
            RuntimeError::LockPoisoned => "BB-RUNTIME-LOCK-POISONED",
            RuntimeError::TaskExecutionFailed(_) => "BB-RUNTIME-TASK-FAILED",
            RuntimeError::RetriesExhausted => "BB-RUNTIME-RETRIES-EXHAUSTED",
            RuntimeError::InternalInvariantViolation { code } => code,
        }
    }

    /// Human-readable description.
    pub open spec fn description(&self) -> Seq<char> {
        match *self {
            RuntimeError::LockPoisoned => "internal lock poisoned during execution"@,
            RuntimeError::TaskExecutionFailed(message) => "task execution failed: "@
                + message@,
            RuntimeError::RetriesExhausted => "task retries exhausted without success"@,
            RuntimeError::InternalInvariantViolation { code } => "internal executor invariant failed ("@ + code@ + ")"@,
        }
    }

    /// Human-readable description.
    pub fn message(&self) -> (text: String)
        ensures
            text@ == self.description(),
            match *self {
                RuntimeError::LockPoisoned => text@ == "internal lock poisoned during execution"@,
                RuntimeError::TaskExecutionFailed(message) => text@ == "task execution failed: "@
                    + message@,
                RuntimeError::RetriesExhausted => text@ == "task retries exhausted without success"@,
                RuntimeError::InternalInvariantViolation { code } => text@ == "internal executor invariant failed ("@ + code@ + ")"@,
            },
    {
        match self {
            RuntimeError::LockPoisoned => {
                String::from_str("internal lock poisoned during execution")
            },
            RuntimeError::TaskExecutionFailed(message) => {
                text::join2("task execution failed: ", message.as_str())
            },
            RuntimeError::RetriesExhausted => {
                String::from_str("task retries exhausted without success")
            },
            RuntimeError::InternalInvariantViolation { code } => {
                text::join3("internal executor invariant failed (", code, ")")
            },
        }
    }
}

} // verus!
