//! Identities, states, results, policies and errors of scheduled runs.

use crate::ids::{is_random_uuid, random_uuid, to_uuid, uuid_digits, uuid_from_u128, uuid_text};
use crate::permits::{max_permits, permit_limit};
use crate::schedule::ScheduleError;
use crate::text;
use crate::time::Duration;
use vstd::prelude::*;
use vstd::string::StringExecFns;

verus! {

/// Identity shared by every instantiation of one reusable job.
#[derive(Clone, Copy, Debug, Eq, Hash, PartialEq, Structural)]
pub struct JobId(pub u128);

impl JobId {
    /// A fresh random identity.
    pub fn new() -> (id: Self)
        ensures
            is_random_uuid(id.0),
    {
        JobId(random_uuid())
    }

    /// The identity as hyphenated hexadecimal text.
    pub fn text(&self) -> (text: String)
        ensures
            text@ == uuid_digits(self.0),
    {
        uuid_text(self.0)
    }

    /// The underlying UUID.
    pub fn as_uuid(self) -> (id: uuid::Uuid)
        ensures
            id == uuid_from_u128(self.0),
    {
        to_uuid(self.0)
    }
}

/// Identity of one accepted submission.
#[derive(Clone, Copy, Debug, Eq, Hash, PartialEq, Structural)]
pub struct TaskRunId(pub u128);

impl TaskRunId {
    /// A fresh random identity.
    pub fn new() -> (id: Self)
        ensures
            is_random_uuid(id.0),
    {
        TaskRunId(random_uuid())
    }

    /// The identity as hyphenated hexadecimal text.
    pub fn text(&self) -> (text: String)
        ensures
            text@ == uuid_digits(self.0),
    {
        uuid_text(self.0)
    }

    /// The underlying UUID.
    pub fn as_uuid(self) -> (id: uuid::Uuid)
        ensures
            id == uuid_from_u128(self.0),
    {
        to_uuid(self.0)
    }
}

/// Who asked a run to stop first.
#[derive(Clone, Copy, Debug, Eq, PartialEq, Structural)]
pub enum CancelReason {
    /// A caller.
    User,
    /// The shutdown of the scheduler.
    Shutdown,
    /// The shutdown of the group of the run.
    GroupShutdown,
    /// The closing of the lane of the run.
    LaneClosed,
    /// A newer run of the same key.
    Replaced,
    /// An operation with a time limit.
    Timeout,
}

impl CancelReason {
    /// The name of the reason.
    pub open spec fn name_spec(self) -> Seq<char> {
        match self {
            CancelReason::User => "User"@,
            CancelReason::Shutdown => "Shutdown"@,
            CancelReason::GroupShutdown => "GroupShutdown"@,
            CancelReason::LaneClosed => "LaneClosed"@,
            CancelReason::Replaced => "Replaced"@,
            CancelReason::Timeout => "Timeout"@,
        }
    }

    /// The name of the reason.
    pub fn name(self) -> (name: &'static str)
        ensures
            name@ == self.name_spec(),
            match self {
                CancelReason::User => name@ == "User"@,
                CancelReason::Shutdown => name@ == "Shutdown"@,
                CancelReason::GroupShutdown => name@ == "GroupShutdown"@,
                CancelReason::LaneClosed => name@ == "LaneClosed"@,
                CancelReason::Replaced => name@ == "Replaced"@,
                CancelReason::Timeout => name@ == "Timeout"@,
            },
    {
        match self {
            CancelReason::User => "User",
            CancelReason::Shutdown => "Shutdown",
            CancelReason::GroupShutdown => "GroupShutdown",
            CancelReason::LaneClosed => "LaneClosed",
            CancelReason::Replaced => "Replaced",
            CancelReason::Timeout => "Timeout",
        }
    }
}

/// Where a run stands.
#[derive(Clone, Copy, Debug, Eq, PartialEq, Structural)]
pub enum TaskState {
    /// Accepted.
    Queued,
    /// Waiting for a place to run.
    WaitingForPermit,
    /// Running user work.
    Running,
    /// Waiting before a retry.
    WaitingForRetry,
    /// Waiting for the next scheduled invocation.
    WaitingForSchedule,
    /// Paused outside user work.
    Paused,
    /// Asked to stop.
    CancelRequested,
    /// Work returned a value.
    Completed,
    /// Work returned an error that was not retried.
    Failed,
    /// Every permitted attempt failed.
    RetriesExhausted,
    /// Stopped on request.
    Cancelled,
    /// A deadline passed.
    TimedOut,
    /// The schedule has no next invocation.
    ScheduleError,
    /// Work panicked.
    Panicked,
    /// Work was aborted.
    Aborted,
    /// The runtime stopped.
    ExecutorStopped,
    /// An internal invariant failed.
    ExecutorError,
    /// The scheduler rejected the job after a handle was given out.
    SubmissionFailed,
    /// A queue in front of the scheduler dropped the job.
    Evicted,
}

impl TaskState {
    /// Whether no further transition is permitted.
    pub open spec fn terminal(self) -> bool {
        !(self is Queued || self is WaitingForPermit || self is Running || self is WaitingForRetry
            || self is WaitingForSchedule || self is Paused || self is CancelRequested)
    }

    /// Whether no further transition is permitted.
    pub fn is_terminal(self) -> (terminal: bool)
        ensures
            terminal <==> self.terminal(),
    {
        match self {
            TaskState::Completed => true,
            TaskState::Failed => true,
            TaskState::RetriesExhausted => true,
            TaskState::Cancelled => true,
            TaskState::TimedOut => true,
            TaskState::ScheduleError => true,
            TaskState::Panicked => true,
            TaskState::Aborted => true,
            TaskState::ExecutorStopped => true,
            TaskState::ExecutorError => true,
            TaskState::SubmissionFailed => true,
            TaskState::Evicted => true,
            _ => false,
        }
    }
}

/// What happens to requests to run at once.
#[derive(Clone, Copy, Debug, Eq, PartialEq, Structural)]
pub enum TriggerPolicy {
    /// Requests that cannot start at once are dropped.
    Drop,
    /// At most one request is kept.
    CoalesceOne,
    /// Requests are counted up to a limit.
    QueueAll {
        /// The most requests that are kept.
        capacity: usize,
    },
    /// The newest request takes the place of the one that is kept.
    Replace,
}

impl Default for TriggerPolicy {
    fn default() -> (policy: Self)
        ensures
            policy == TriggerPolicy::CoalesceOne,
    {
        TriggerPolicy::CoalesceOne
    }
}

impl TriggerPolicy {
    /// Counts up to `capacity` requests; a capacity of zero is rejected.
    pub fn queue_all(capacity: usize) -> (result: Result<Self, TriggerPolicyError>)
        ensures
            match result {
                Ok(policy) => capacity > 0 && policy == (TriggerPolicy::QueueAll { capacity }),
                Err(error) => capacity == 0 && error == TriggerPolicyError::ZeroCapacity,
            },
    {
        if capacity > 0 {
            Ok(TriggerPolicy::QueueAll { capacity })
        } else {
            Err(TriggerPolicyError::ZeroCapacity)
        }
    }
}

/// Why a trigger policy is invalid.
#[derive(Clone, Copy, Debug, Eq, PartialEq, Structural)]
pub enum TriggerPolicyError {
    /// No request could be kept.
    ZeroCapacity,
}

impl TriggerPolicyError {
    /// Human-readable description.
    pub fn message(&self) -> (message: &'static str)
        ensures
            message@ == "queue-all trigger capacity must be greater than zero"@,
    {
        "queue-all trigger capacity must be greater than zero"
    }
}

/// What became of a request to run at once.
#[derive(Clone, Copy, Debug, Eq, PartialEq, Structural)]
pub enum TriggerOutcome {
    /// An invocation may run.
    Scheduled,
    /// The request shares one that is kept.
    Coalesced,
    /// The request was counted.
    Queued {
        /// How many requests are kept now.
        pending: usize,
    },
    /// The request replaced one that was kept.
    Replaced,
    /// The request was dropped.
    Dropped,
    /// The request was retained, and cannot run while the run is paused.
    Paused,
}

/// Why a command to a run was rejected.
#[derive(Clone, Copy, Debug, Eq, PartialEq, Structural)]
pub enum TaskCommandError {
    /// The run is over.
    Terminal,
    /// The run has no schedule.
    NotScheduled,
    /// The group of the run is paused.
    ScopePaused,
}

impl TaskCommandError {
    /// Human-readable description.
    pub fn message(&self) -> (message: &'static str)
        ensures
            match *self {
                TaskCommandError::Terminal => message@ == "task run is already terminal"@,
                TaskCommandError::NotScheduled => message@ == "run-now requires a scheduled task"@,
                TaskCommandError::ScopePaused => message@ == "the task group is paused"@,
            },
    {
        match self {
            TaskCommandError::Terminal => "task run is already terminal",
            TaskCommandError::NotScheduled => "run-now requires a scheduled task",
            TaskCommandError::ScopePaused => "the task group is paused",
        }
    }
}

/// Life of one generation of a task group.
#[derive(Clone, Copy, Debug, Eq, PartialEq, Structural)]
pub enum GroupState {
    /// Takes runs.
    Open,
    /// Takes no more runs while those that it has settle.
    Closing,
    /// Every run is over.
    Terminated,
}

impl GroupState {
    /// The name of the state.
    pub fn name(self) -> (name: &'static str)
        ensures
            match self {
                GroupState::Open => name@ == "Open"@,
                GroupState::Closing => name@ == "Closing"@,
                GroupState::Terminated => name@ == "Terminated"@,
            },
    {
        match self {
            GroupState::Open => "Open",
            GroupState::Closing => "Closing",
            GroupState::Terminated => "Terminated",
        }
    }
}

/// What is known of a panic.
#[derive(Debug)]
pub struct PanicInfo {
    message: Option<String>,
}

impl PanicInfo {
    /// The text of the panic, if it had one.
    pub closed spec fn text(&self) -> Option<Seq<char>> {
        match self.message {
            Some(message) => Some(message@),
            None => None,
        }
    }

    /// A panic with the given text, if it had one.
    pub fn new(message: Option<String>) -> (info: Self)
        ensures
            match message {
                Some(message) => info.text() == Some(message@),
                None => info.text() is None,
            },
    {
        PanicInfo { message }
    }

    /// The text of the panic, if it had one.
    pub fn message(&self) -> (message: Option<&str>)
        ensures
            match message {
                Some(message) => self.text() == Some(message@),
                None => self.text() is None,
            },
    {
        match &self.message {
            Some(message) => Some(message.as_str()),
            None => None,
        }
    }
}

/// The deadline that ended a run.
#[derive(Clone, Copy, Debug, Eq, PartialEq, Structural)]
pub enum TimeoutScope {
    /// The limit of one attempt.
    Attempt,
    /// The deadline of the run.
    Run,
    /// The limit of all attempts and waits together.
    TotalElapsed,
}

/// Why pending work was dropped.
#[derive(Clone, Copy, Debug, Eq, PartialEq, Structural)]
pub enum EvictionPolicy {
    /// It was the oldest.
    Oldest,
    /// It had the lowest priority.
    LowestPriority,
    /// Newer work of the same key took its place.
    Coalesced,
}

/// An internal invariant that failed.
#[derive(Clone, Copy, Debug, Eq, PartialEq, Structural)]
#[non_exhaustive]
pub enum ExecutorErrorCode {
    /// The operation of a one-shot job was used before.
    JobAlreadyConsumed,
    /// Scheduled work ran without a schedule cursor.
    ScheduleCursorMissing,
    /// The result of a run was given out before.
    CompletionAlreadyPublished,
}

impl ExecutorErrorCode {
    /// Stable code for logs and metrics.
    pub fn as_str(self) -> (code: &'static str)
        ensures
            match self {
                ExecutorErrorCode::JobAlreadyConsumed => code@ == "BB-EXEC-001"@,
                ExecutorErrorCode::ScheduleCursorMissing => code@ == "BB-EXEC-002"@,
                ExecutorErrorCode::CompletionAlreadyPublished => code@ == "BB-EXEC-003"@,
            },
    {
        match self {
            ExecutorErrorCode::JobAlreadyConsumed => "BB-EXEC-001",
            ExecutorErrorCode::ScheduleCursorMissing => "BB-EXEC-002",
            ExecutorErrorCode::CompletionAlreadyPublished => "BB-EXEC-003",
        }
    }
}

/// Why the scheduler rejected a job.
#[derive(Clone, Copy, Debug, Eq, PartialEq, Structural)]
#[non_exhaustive]
pub enum SubmissionFailure {
    /// The lane is full and rejects.
    Full,
    /// The scheduler shuts down.
    ShuttingDown,
    /// The scheduler, the group or the lane is closed.
    Closed,
    /// There is no lane of that name.
    LaneNotFound,
}

/// The one result of a run.
pub enum TaskTerminal<T, E> {
    /// Work returned this value.
    Completed(T),
    /// Work returned this error, and it was not retried.
    Failed(E),
    /// Every permitted attempt failed.
    RetriesExhausted {
        /// How many attempts ran.
        attempts: u32,
        /// The error of the last attempt.
        last_error: E,
    },
    /// The run stopped on request.
    Cancelled {
        /// The first accepted reason.
        reason: CancelReason,
    },
    /// A deadline passed.
    TimedOut {
        /// Which one.
        scope: TimeoutScope,
        /// How many attempts had started.
        attempts: u32,
        /// The last error that was retried.
        last_error: Option<E>,
    },
    /// The schedule has no next invocation.
    ScheduleError(ScheduleError),
    /// Work panicked.
    Panicked(PanicInfo),
    /// Work was aborted.
    Aborted,
    /// The runtime stopped.
    ExecutorStopped,
    /// An internal invariant failed.
    ExecutorError {
        /// Which one.
        code: ExecutorErrorCode,
    },
    /// The scheduler rejected the job after a handle was given out.
    SubmissionFailed {
        /// Why.
        reason: SubmissionFailure,
    },
    /// The job was dropped before the scheduler saw it.
    Evicted {
        /// Why.
        policy: EvictionPolicy,
    },
}

impl<T, E> TaskTerminal<T, E> {
    /// The state that this result puts a run into.
    pub open spec fn state_spec(self) -> TaskState {
        match self {
            TaskTerminal::Completed(_) => TaskState::Completed,
            TaskTerminal::Failed(_) => TaskState::Failed,
            TaskTerminal::RetriesExhausted { .. } => TaskState::RetriesExhausted,
            TaskTerminal::Cancelled { .. } => TaskState::Cancelled,
            TaskTerminal::TimedOut { .. } => TaskState::TimedOut,
            TaskTerminal::ScheduleError(_) => TaskState::ScheduleError,
            TaskTerminal::Panicked(_) => TaskState::Panicked,
            TaskTerminal::Aborted => TaskState::Aborted,
            TaskTerminal::ExecutorStopped => TaskState::ExecutorStopped,
            TaskTerminal::ExecutorError { .. } => TaskState::ExecutorError,
            TaskTerminal::SubmissionFailed { .. } => TaskState::SubmissionFailed,
            TaskTerminal::Evicted { .. } => TaskState::Evicted,
        }
    }

    /// The state that this result puts a run into; it is always terminal.
    pub fn state(&self) -> (state: TaskState)
        ensures
            state == self.state_spec(),
            state.terminal(),
    {
        match self {
            TaskTerminal::Completed(_) => TaskState::Completed,
            TaskTerminal::Failed(_) => TaskState::Failed,
            TaskTerminal::RetriesExhausted { .. } => TaskState::RetriesExhausted,
            TaskTerminal::Cancelled { .. } => TaskState::Cancelled,
            TaskTerminal::TimedOut { .. } => TaskState::TimedOut,
            TaskTerminal::ScheduleError(_) => TaskState::ScheduleError,
            TaskTerminal::Panicked(_) => TaskState::Panicked,
            TaskTerminal::Aborted => TaskState::Aborted,
            TaskTerminal::ExecutorStopped => TaskState::ExecutorStopped,
            TaskTerminal::ExecutorError { .. } => TaskState::ExecutorError,
            TaskTerminal::SubmissionFailed { .. } => TaskState::SubmissionFailed,
            TaskTerminal::Evicted { .. } => TaskState::Evicted,
        }
    }
}

/// What a submission to a full lane does.
#[derive(Clone, Copy, Debug, Eq, PartialEq, Structural)]
pub enum Backpressure {
    /// It is returned.
    Reject,
    /// It waits.
    Wait,
}

/// Configuration of one generation of a lane.
#[derive(Clone, Copy, Debug, Eq, PartialEq, Structural)]
pub struct LaneConfig {
    queue_capacity: usize,
    concurrency: usize,
    backpressure: Backpressure,
}

/// What a lane configuration is rejected for, if it is.
pub open spec fn lane_config_error(queue_capacity: usize, concurrency: usize) -> Option<LaneError> {
    if queue_capacity == 0 || queue_capacity > permit_limit() {
        Some(LaneError::InvalidCapacity { capacity: queue_capacity, maximum: permit_limit() })
    } else if concurrency == 0 || concurrency > permit_limit() {
        Some(LaneError::InvalidConcurrency { concurrency, maximum: permit_limit() })
    } else {
        None
    }
}

impl LaneConfig {
    /// How many accepted runs may wait to start.
    pub closed spec fn queue_limit(&self) -> usize {
        self.queue_capacity
    }

    /// How many attempts may run.
    pub closed spec fn running_limit(&self) -> usize {
        self.concurrency
    }

    /// What a submission to the full lane does.
    pub closed spec fn policy(&self) -> Backpressure {
        self.backpressure
    }

    /// Configurations that agree in all settings are the same.
    pub proof fn lemma_ext(a: LaneConfig, b: LaneConfig)
        requires
            a.queue_limit() == b.queue_limit(),
            a.running_limit() == b.running_limit(),
            a.policy() == b.policy(),
        ensures
            a == b,
    {
    }

    /// A lane whose submissions wait when it is full.
    pub fn new(queue_capacity: usize, concurrency: usize) -> (result: Result<Self, LaneError>)
        ensures
            match lane_config_error(queue_capacity, concurrency) {
                Some(error) => result == Err::<Self, LaneError>(error),
                None => {
                    &&& result is Ok
                    &&& result->Ok_0.queue_limit() == queue_capacity
                    &&& result->Ok_0.running_limit() == concurrency
                    &&& result->Ok_0.policy() == Backpressure::Wait
                },
            },
    {
        let maximum: usize = max_permits();
        if queue_capacity == 0 || queue_capacity > maximum {
            return Err(LaneError::InvalidCapacity { capacity: queue_capacity, maximum });
        }
        if concurrency == 0 || concurrency > maximum {
            return Err(LaneError::InvalidConcurrency { concurrency, maximum });
        }
        Ok(LaneConfig { queue_capacity, concurrency, backpressure: Backpressure::Wait })
    }

    /// Sets what a submission to the full lane does.
    pub fn backpressure(self, backpressure: Backpressure) -> (config: Self)
        ensures
            config.queue_limit() == self.queue_limit(),
            config.running_limit() == self.running_limit(),
            config.policy() == backpressure,
    {
        LaneConfig { backpressure, ..self }
    }

    /// How many accepted runs may wait to start.
    pub fn queue_capacity(&self) -> (capacity: usize)
        ensures
            capacity == self.queue_limit(),
    {
        self.queue_capacity
    }

    /// How many attempts may run.
    pub fn concurrency(&self) -> (concurrency: usize)
        ensures
            concurrency == self.running_limit(),
    {
        self.concurrency
    }

    /// What a submission to the full lane does.
    pub fn backpressure_policy(&self) -> (backpressure: Backpressure)
        ensures
            backpressure == self.policy(),
    {
        self.backpressure
    }
}

impl Default for LaneConfig {
    fn default() -> (config: Self)
        ensures
            config.queue_limit() == 1024,
            config.running_limit() == 1,
            config.policy() == Backpressure::Wait,
    {
        LaneConfig { queue_capacity: 1024, concurrency: 1, backpressure: Backpressure::Wait }
    }
}

/// Why a lane configuration or a lane operation was rejected.
#[derive(Debug)]
#[non_exhaustive]
pub enum LaneError {
    /// The pending capacity is out of range.
    InvalidCapacity { capacity: usize, maximum: usize },
    /// The concurrency is out of range.
    InvalidConcurrency { concurrency: usize, maximum: usize },
    /// A live lane of that name has another configuration.
    ConfigConflict { name: String, existing: LaneConfig, requested: LaneConfig },
    /// No live lane has that name.
    NotFound { name: String },
    /// That generation of the lane takes no work.
    Closed { name: String, generation: u64 },
    /// The current generation must be closed first.
    StillOpen { name: String, generation: u64 },
    /// Runs still refer to the closed generation.
    Busy { name: String, generation: u64 },
    /// The generations can no longer be numbered.
    GenerationExhausted,
    /// The scheduler shuts down or is down.
    SchedulerClosed,
}

impl LaneError {
    /// Human-readable description.
    pub open spec fn description(&self) -> Seq<char> {
        match *self {
            LaneError::InvalidCapacity { capacity, maximum } => "lane queue capacity ("@
                + text::decimal(capacity as nat) + ") must be between 1 and "@ + text::decimal(
                maximum as nat,
            ),
            LaneError::InvalidConcurrency { concurrency, maximum } => "lane concurrency ("@
                + text::decimal(concurrency as nat) + ") must be between 1 and "@ + text::decimal(
                maximum as nat,
            ),
            LaneError::ConfigConflict { name, .. } => "lane '"@ + name@
                + "' already exists with a different configuration"@,
            LaneError::NotFound { name } => "lane '"@ + name@ + "' does not exist"@,
            LaneError::Closed { name, generation } => "lane '"@ + name@ + "' generation "@
                + text::decimal(generation as nat) + " is closed"@,
            LaneError::StillOpen { name, generation } => "lane '"@ + name@ + "' generation "@
                + text::decimal(generation as nat) + " is still open"@,
            LaneError::Busy { name, generation } => "lane '"@ + name@ + "' generation "@
                + text::decimal(generation as nat) + " still has active references"@,
            LaneError::GenerationExhausted => "lane generation space is exhausted"@,
            LaneError::SchedulerClosed => "scheduler is closing or terminated"@,
        }
    }

    /// Human-readable description.
    pub fn message(&self) -> (message: String)
        ensures
            message@ == self.description(),
            match *self {
                LaneError::InvalidCapacity { capacity, maximum } => message@ == "lane queue capacity ("@
                    + text::decimal(capacity as nat) + ") must be between 1 and "@ + text::decimal(
                    maximum as nat,
                ),
                LaneError::InvalidConcurrency { concurrency, maximum } => message@ == "lane concurrency ("@
                    + text::decimal(concurrency as nat) + ") must be between 1 and "@ + text::decimal(
                    maximum as nat,
                ),
                LaneError::ConfigConflict { name, .. } => message@ == "lane '"@ + name@
                    + "' already exists with a different configuration"@,
                LaneError::NotFound { name } => message@ == "lane '"@ + name@ + "' does not exist"@,
                LaneError::Closed { name, generation } => message@ == "lane '"@ + name@ + "' generation "@
                    + text::decimal(generation as nat) + " is closed"@,
                LaneError::StillOpen { name, generation } => message@ == "lane '"@ + name@ + "' generation "@
                    + text::decimal(generation as nat) + " is still open"@,
                LaneError::Busy { name, generation } => message@ == "lane '"@ + name@ + "' generation "@
                    + text::decimal(generation as nat) + " still has active references"@,
                LaneError::GenerationExhausted => message@ == "lane generation space is exhausted"@,
                LaneError::SchedulerClosed => message@ == "scheduler is closing or terminated"@,
            },
    {
        match self {
            LaneError::InvalidCapacity { capacity, maximum } => {
                let mut message = String::from_str("lane queue capacity (");
                text::append_decimal(&mut message, *capacity as u64);
                message.append(") must be between 1 and ");
                text::append_decimal(&mut message, *maximum as u64);
                message
            },
            LaneError::InvalidConcurrency { concurrency, maximum } => {
                let mut message = String::from_str("lane concurrency (");
                text::append_decimal(&mut message, *concurrency as u64);
                message.append(") must be between 1 and ");
                text::append_decimal(&mut message, *maximum as u64);
                message
            },
            LaneError::ConfigConflict { name, .. } => text::join3(
                "lane '",
                name.as_str(),
                "' already exists with a different configuration",
            ),
            LaneError::NotFound { name } => {
                text::join3("lane '", name.as_str(), "' does not exist")
            },
            LaneError::Closed { name, generation } => {
                generation_message(name.as_str(), *generation, " is closed")
            },
            LaneError::StillOpen { name, generation } => {
                generation_message(name.as_str(), *generation, " is still open")
            },
            LaneError::Busy { name, generation } => {
                generation_message(name.as_str(), *generation, " still has active references")
            },
            LaneError::GenerationExhausted => {
                String::from_str("lane generation space is exhausted")
            },
            LaneError::SchedulerClosed => String::from_str("scheduler is closing or terminated"),
        }
    }
}

fn generation_message(name: &str, generation: u64, tail: &str) -> (message: String)
    ensures
        message@ == "lane '"@ + name@ + "' generation "@ + text::decimal(generation as nat) + tail@,
{
    let mut message = text::join3("lane '", name, "' generation ");
    text::append_decimal(&mut message, generation);
    message.append(tail);
    message
}

/// Why a group operation was rejected.
#[derive(Debug)]
#[non_exhaustive]
pub enum GroupError {
    /// The scheduler shuts down or is down.
    SchedulerClosed,
    /// The scheduler of the group is gone.
    SchedulerUnavailable,
    /// A generation of that name is not over.
    NameInUse { name: String, generation: u64, state: GroupState },
    /// The generations can no longer be numbered.
    GenerationExhausted,
}

impl GroupError {
    /// Human-readable description.
    pub fn message(&self) -> (message: String)
        ensures
            match *self {
                GroupError::SchedulerClosed => message@ == "scheduler is closing or terminated"@,
                GroupError::SchedulerUnavailable => message@
                    == "group scheduler is no longer available"@,
                GroupError::NameInUse { name, generation, state } => {
                    &&& state is Open ==> message@ == "group '"@ + name@ + "' generation "@
                        + text::decimal(generation as nat) + " is still "@ + "Open"@
                    &&& state is Closing ==> message@ == "group '"@ + name@ + "' generation "@
                        + text::decimal(generation as nat) + " is still "@ + "Closing"@
                    &&& state is Terminated ==> message@ == "group '"@ + name@ + "' generation "@
                        + text::decimal(generation as nat) + " is still "@ + "Terminated"@
                },
                GroupError::GenerationExhausted => message@
                    == "group generation space is exhausted"@,
            },
    {
        match self {
            GroupError::SchedulerClosed => String::from_str("scheduler is closing or terminated"),
            GroupError::SchedulerUnavailable => {
                String::from_str("group scheduler is no longer available")
            },
            GroupError::NameInUse { name, generation, state } => {
                let mut message = text::join3("group '", name.as_str(), "' generation ");
                text::append_decimal(&mut message, *generation);
                message.append(" is still ");
                message.append(state.name());
                message
            },
            GroupError::GenerationExhausted => {
                String::from_str("group generation space is exhausted")
            },
        }
    }
}

/// Who holds a key.
#[derive(Clone, Copy, Debug, Eq, PartialEq, Structural)]
pub struct KeyStatus {
    pub generation: u64,
    pub run_id: Option<TaskRunId>,
    pub replacing: bool,
}

impl KeyStatus {
    /// The generation of the key.
    pub fn generation(self) -> (generation: u64)
        ensures
            generation == self.generation,
    {
        self.generation
    }

    /// The run that holds the key, if one does.
    pub fn run_id(self) -> (run_id: Option<TaskRunId>)
        ensures
            run_id == self.run_id,
    {
        self.run_id
    }

    /// Whether a replacement has reserved the key.
    pub fn is_replacing(self) -> (replacing: bool)
        ensures
            replacing == self.replacing,
    {
        self.replacing
    }
}

/// A rejected submission, with its job.
#[non_exhaustive]
pub enum TrySubmitError<J> {
    /// The lane is full and rejects.
    Full(J),
    /// The scheduler shuts down.
    ShuttingDown(J),
    /// The scheduler, the group or the lane is closed.
    Closed(J),
    /// There is no lane of that name.
    LaneNotFound(J),
}

/// The error of a submission that waits.
pub type SubmitError<J> = TrySubmitError<J>;

impl<J> TrySubmitError<J> {
    /// The job that was rejected.
    pub open spec fn job(self) -> J {
        match self {
            TrySubmitError::Full(job) => job,
            TrySubmitError::ShuttingDown(job) => job,
            TrySubmitError::Closed(job) => job,
            TrySubmitError::LaneNotFound(job) => job,
        }
    }

    /// Why it was rejected.
    pub open spec fn failure(self) -> SubmissionFailure {
        match self {
            TrySubmitError::Full(_) => SubmissionFailure::Full,
            TrySubmitError::ShuttingDown(_) => SubmissionFailure::ShuttingDown,
            TrySubmitError::Closed(_) => SubmissionFailure::Closed,
            TrySubmitError::LaneNotFound(_) => SubmissionFailure::LaneNotFound,
        }
    }

    /// Why it was rejected.
    pub fn reason(&self) -> (reason: SubmissionFailure)
        ensures
            reason == self.failure(),
    {
        match self {
            TrySubmitError::Full(_) => SubmissionFailure::Full,
            TrySubmitError::ShuttingDown(_) => SubmissionFailure::ShuttingDown,
            TrySubmitError::Closed(_) => SubmissionFailure::Closed,
            TrySubmitError::LaneNotFound(_) => SubmissionFailure::LaneNotFound,
        }
    }

    /// Gives the job back.
    pub fn into_job(self) -> (job: J)
        ensures
            job == self.job(),
    {
        match self {
            TrySubmitError::Full(job) => job,
            TrySubmitError::ShuttingDown(job) => job,
            TrySubmitError::Closed(job) => job,
            TrySubmitError::LaneNotFound(job) => job,
        }
    }

    /// The rejection of `job` for `failure`.
    pub fn of(failure: SubmissionFailure, job: J) -> (error: Self)
        ensures
            error.failure() == failure,
            error.job() == job,
    {
        match failure {
            SubmissionFailure::Full => TrySubmitError::Full(job),
            SubmissionFailure::ShuttingDown => TrySubmitError::ShuttingDown(job),
            SubmissionFailure::Closed => TrySubmitError::Closed(job),
            SubmissionFailure::LaneNotFound => TrySubmitError::LaneNotFound(job),
        }
    }

    /// Human-readable description.
    pub open spec fn description(&self) -> Seq<char> {
        match *self {
            TrySubmitError::Full(_) => "the lane queue is full"@,
            TrySubmitError::ShuttingDown(_) => "the Scheduler is shutting down"@,
            TrySubmitError::Closed(_) => "the Scheduler or lane is closed"@,
            TrySubmitError::LaneNotFound(_) => "the requested lane does not exist"@,
        }
    }

    /// Human-readable description.
    pub fn message(&self) -> (message: &'static str)
        ensures
            message@ == self.description(),
            match *self {
                TrySubmitError::Full(_) => message@ == "the lane queue is full"@,
                TrySubmitError::ShuttingDown(_) => message@ == "the Scheduler is shutting down"@,
                TrySubmitError::Closed(_) => message@ == "the Scheduler or lane is closed"@,
                TrySubmitError::LaneNotFound(_) => message@ == "the requested lane does not exist"@,
            },
    {
        match self {
            TrySubmitError::Full(_) => "the lane queue is full",
            TrySubmitError::ShuttingDown(_) => "the Scheduler is shutting down",
            TrySubmitError::Closed(_) => "the Scheduler or lane is closed",
            TrySubmitError::LaneNotFound(_) => "the requested lane does not exist",
        }
    }
}

/// A rejected start under a key, with its job.
#[non_exhaustive]
pub enum KeyedSubmitError<J> {
    /// A run or a replacement holds the key.
    Occupied { job: J, current: KeyStatus },
    /// The generations of the key can no longer be numbered.
    GenerationExhausted(J),
    /// The submission itself failed.
    Submit(TrySubmitError<J>),
}

impl<J> KeyedSubmitError<J> {
    /// The job that was rejected.
    pub open spec fn job(self) -> J {
        match self {
            KeyedSubmitError::Occupied { job, .. } => job,
            KeyedSubmitError::GenerationExhausted(job) => job,
            KeyedSubmitError::Submit(error) => error.job(),
        }
    }

    /// Who holds the key, if it is held.
    pub fn current(&self) -> (status: Option<KeyStatus>)
        ensures
            status == match *self {
                KeyedSubmitError::Occupied { current, .. } => Some(current),
                _ => None,
            },
    {
        match self {
            KeyedSubmitError::Occupied { current, .. } => Some(*current),
            _ => None,
        }
    }

    /// Gives the job back.
    pub fn into_job(self) -> (job: J)
        ensures
            job == self.job(),
    {
        match self {
            KeyedSubmitError::Occupied { job, .. } => job,
            KeyedSubmitError::GenerationExhausted(job) => job,
            KeyedSubmitError::Submit(error) => error.into_job(),
        }
    }

    /// Human-readable description.
    pub fn message(&self) -> (message: String)
        ensures
            match *self {
                KeyedSubmitError::Occupied { .. } => message@
                    == "the key already has a current task run"@,
                KeyedSubmitError::GenerationExhausted(_) => message@
                    == "key generation space is exhausted"@,
                KeyedSubmitError::Submit(error) => message@ == "keyed task submission failed: "@
                    + error.description(),
            },
    {
        match self {
            KeyedSubmitError::Occupied { .. } => {
                String::from_str("the key already has a current task run")
            },
            KeyedSubmitError::GenerationExhausted(_) => {
                String::from_str("key generation space is exhausted")
            },
            KeyedSubmitError::Submit(error) => {
                text::join2("keyed task submission failed: ", error.message())
            },
        }
    }
}

/// Whether a replacement waits for the run that it replaces.
#[derive(Clone, Copy, Debug, Eq, PartialEq, Structural)]
pub enum ReplaceMode {
    /// It starts when the previous run is over.
    AfterConfirmedStop,
    /// Both may run for a while.
    AllowOverlap,
}

/// What a replacement does when the previous run does not stop in time.
#[derive(Clone, Copy, Debug, Eq, PartialEq, Structural)]
pub enum ReplaceTimeoutAction {
    /// It fails.
    Fail,
    /// It waits on.
    ContinueWait,
    /// It aborts the previous run and waits again.
    Abort {
        /// How long it waits then.
        confirmation_timeout: Duration,
    },
}

/// How a run replaces another of the same key.
#[derive(Clone, Copy, Debug, Eq, PartialEq, Structural)]
pub struct ReplacePolicy {
    mode: ReplaceMode,
    grace_period: Duration,
    timeout_action: ReplaceTimeoutAction,
}

impl ReplacePolicy {
    /// Whether the replacement waits.
    pub closed spec fn mode_spec(self) -> ReplaceMode {
        self.mode
    }

    /// How long the previous run may take to stop.
    pub closed spec fn grace(self) -> Duration {
        self.grace_period
    }

    /// What happens when it takes longer.
    pub closed spec fn on_timeout(self) -> ReplaceTimeoutAction {
        self.timeout_action
    }

    /// Policies with equal settings are equal.
    pub proof fn lemma_ext(a: ReplacePolicy, b: ReplacePolicy)
        requires
            a.mode_spec() == b.mode_spec(),
            a.grace() == b.grace(),
            a.on_timeout() == b.on_timeout(),
        ensures
            a == b,
    {
    }

    /// The new run does not wait for the previous one.
    pub fn allow_overlap() -> (policy: Self)
        ensures
            policy.mode_spec() == ReplaceMode::AllowOverlap,
            policy.grace()@ == 0,
            policy.on_timeout() == ReplaceTimeoutAction::Fail,
    {
        ReplacePolicy {
            mode: ReplaceMode::AllowOverlap,
            grace_period: Duration::zero(),
            timeout_action: ReplaceTimeoutAction::Fail,
        }
    }

    /// The previous run is asked to stop and has `grace_period` for it.
    pub fn after_confirmed_stop(
        grace_period: Duration,
        timeout_action: ReplaceTimeoutAction,
    ) -> (policy: Self)
        ensures
            policy.mode_spec() == ReplaceMode::AfterConfirmedStop,
            policy.grace() == grace_period,
            policy.on_timeout() == timeout_action,
    {
        ReplacePolicy { mode: ReplaceMode::AfterConfirmedStop, grace_period, timeout_action }
    }

    /// Whether the replacement waits.
    pub fn mode(self) -> (mode: ReplaceMode)
        ensures
            mode == self.mode_spec(),
    {
        self.mode
    }

    /// How long the previous run may take to stop.
    pub fn grace_period(self) -> (grace_period: Duration)
        ensures
            grace_period == self.grace(),
    {
        self.grace_period
    }

    /// What happens when it takes longer.
    pub fn timeout_action(self) -> (action: ReplaceTimeoutAction)
        ensures
            action == self.on_timeout(),
    {
        self.timeout_action
    }
}

/// A rejected replacement, with its job.
#[non_exhaustive]
pub enum ReplaceError<J> {
    /// Another replacement has reserved the key.
    Busy { job: J, current: KeyStatus },
    /// The generations of the key can no longer be numbered.
    GenerationExhausted(J),
    /// A run asked to replace itself and would wait for itself.
    SelfReplacementRequiresOverlap(J),
    /// The previous run did not stop in time.
    TimedOut { job: J, previous: KeyStatus },
    /// Another operation took the reservation away.
    Superseded(J),
    /// The submission itself failed.
    Submit(TrySubmitError<J>),
}

impl<J> ReplaceError<J> {
    /// The job that was rejected.
    pub open spec fn job(self) -> J {
        match self {
            ReplaceError::Busy { job, .. } => job,
            ReplaceError::GenerationExhausted(job) => job,
            ReplaceError::SelfReplacementRequiresOverlap(job) => job,
            ReplaceError::TimedOut { job, .. } => job,
            ReplaceError::Superseded(job) => job,
            ReplaceError::Submit(error) => error.job(),
        }
    }

    /// Gives the job back.
    pub fn into_job(self) -> (job: J)
        ensures
            job == self.job(),
    {
        match self {
            ReplaceError::Busy { job, .. } => job,
            ReplaceError::GenerationExhausted(job) => job,
            ReplaceError::SelfReplacementRequiresOverlap(job) => job,
            ReplaceError::TimedOut { job, .. } => job,
            ReplaceError::Superseded(job) => job,
            ReplaceError::Submit(error) => error.into_job(),
        }
    }

    /// Human-readable description.
    pub fn message(&self) -> (message: String)
        ensures
            match *self {
                ReplaceError::Busy { .. } => message@
                    == "the key already has a replacement in progress"@,
                ReplaceError::GenerationExhausted(_) => message@
                    == "key generation space is exhausted"@,
                ReplaceError::SelfReplacementRequiresOverlap(_) => message@
                    == "self replacement requires the allow-overlap policy"@,
                ReplaceError::TimedOut { .. } => message@
                    == "the previous task did not stop before the replacement deadline"@,
                ReplaceError::Superseded(_) => message@
                    == "the replacement reservation was superseded"@,
                ReplaceError::Submit(error) => message@ == "replacement submission failed: "@
                    + error.description(),
            },
    {
        match self {
            ReplaceError::Busy { .. } => {
                String::from_str("the key already has a replacement in progress")
            },
            ReplaceError::GenerationExhausted(_) => {
                String::from_str("key generation space is exhausted")
            },
            ReplaceError::SelfReplacementRequiresOverlap(_) => {
                String::from_str("self replacement requires the allow-overlap policy")
            },
            ReplaceError::TimedOut { .. } => {
                String::from_str("the previous task did not stop before the replacement deadline")
            },
            ReplaceError::Superseded(_) => {
                String::from_str("the replacement reservation was superseded")
            },
            ReplaceError::Submit(error) => {
                text::join2("replacement submission failed: ", error.message())
            },
        }
    }
}

/// The largest event capacity.
pub const MAX_EVENT_CAPACITY: usize = 1_048_576;

/// Why a scheduler could not be built.
#[derive(Clone, Copy, Debug, Eq, PartialEq, Structural)]
#[non_exhaustive]
pub enum SchedulerBuildError {
    /// There is no runtime to build it on.
    RuntimeUnavailable,
    /// The concurrency is out of range.
    InvalidGlobalConcurrency { concurrency: usize, maximum: usize },
    /// The event capacity is out of range.
    InvalidEventCapacity { capacity: usize, maximum: usize },
}

impl SchedulerBuildError {
    /// Human-readable description.
    pub fn message(&self) -> (message: String)
        ensures
            match *self {
                SchedulerBuildError::RuntimeUnavailable => message@
                    == "no active Tokio runtime is available"@,
                SchedulerBuildError::InvalidGlobalConcurrency { concurrency, maximum } => message@
                    == "global concurrency ("@ + text::decimal(concurrency as nat)
                    + ") must be between 1 and "@ + text::decimal(maximum as nat),
                SchedulerBuildError::InvalidEventCapacity { capacity, maximum } => message@
                    == "event capacity ("@ + text::decimal(capacity as nat)
                    + ") must be between 1 and "@ + text::decimal(maximum as nat),
            },
    {
        match self {
            SchedulerBuildError::RuntimeUnavailable => {
                String::from_str("no active Tokio runtime is available")
            },
            SchedulerBuildError::InvalidGlobalConcurrency { concurrency, maximum } => {
                let mut message = String::from_str("global concurrency (");
                text::append_decimal(&mut message, *concurrency as u64);
                message.append(") must be between 1 and ");
                text::append_decimal(&mut message, *maximum as u64);
                message
            },
            SchedulerBuildError::InvalidEventCapacity { capacity, maximum } => {
                let mut message = String::from_str("event capacity (");
                text::append_decimal(&mut message, *capacity as u64);
                message.append(") must be between 1 and ");
                text::append_decimal(&mut message, *maximum as u64);
                message
            },
        }
    }
}

/// How long shutdown waits, and whether it aborts.
#[derive(Clone, Copy, Debug, Eq, PartialEq, Structural)]
pub struct ShutdownPolicy {
    grace_period: Duration,
    /// How long an abort is waited for, if runs are aborted.
    abort_wait: Option<Duration>,
    event_drain: Duration,
}

impl ShutdownPolicy {
    /// How long runs may take to stop on request.
    pub closed spec fn grace(self) -> Duration {
        self.grace_period
    }

    /// How long an abort is waited for, if runs are aborted.
    pub closed spec fn abort(self) -> Option<Duration> {
        self.abort_wait
    }

    /// How long events may take to drain.
    pub closed spec fn drain(self) -> Duration {
        self.event_drain
    }

    /// Policies with equal settings are equal.
    pub proof fn lemma_ext(a: ShutdownPolicy, b: ShutdownPolicy)
        requires
            a.grace() == b.grace(),
            a.abort() == b.abort(),
            a.drain() == b.drain(),
        ensures
            a == b,
    {
    }

    /// Runs are asked to stop and waited for.
    pub fn graceful(grace_period: Duration) -> (policy: Self)
        ensures
            policy.grace() == grace_period,
            policy.abort() is None,
            policy.drain()@ == 1_000_000_000,
    {
        ShutdownPolicy {
            grace_period,
            abort_wait: None,
            event_drain: Duration::from_secs(1),
        }
    }

    /// Runs are asked to stop, then aborted.
    pub fn graceful_then_abort(grace_period: Duration, abort_wait: Duration) -> (policy: Self)
        ensures
            policy.grace() == grace_period,
            policy.abort() == Some(abort_wait),
            policy.drain()@ == 1_000_000_000,
    {
        ShutdownPolicy {
            grace_period,
            abort_wait: Some(abort_wait),
            event_drain: Duration::from_secs(1),
        }
    }

    /// Sets how long events may take to drain.
    pub fn with_event_drain(self, event_drain: Duration) -> (policy: Self)
        ensures
            policy.grace() == self.grace(),
            policy.abort() == self.abort(),
            policy.drain() == event_drain,
    {
        ShutdownPolicy { event_drain, ..self }
    }

    /// How long runs may take to stop on request.
    pub fn grace_period(self) -> (grace_period: Duration)
        ensures
            grace_period == self.grace(),
    {
        self.grace_period
    }

    /// How long an abort is waited for, if runs are aborted.
    pub fn abort_wait(self) -> (abort_wait: Option<Duration>)
        ensures
            abort_wait == self.abort(),
    {
        self.abort_wait
    }

    /// How long events may take to drain.
    pub fn event_drain(self) -> (event_drain: Duration)
        ensures
            event_drain == self.drain(),
    {
        self.event_drain
    }
}

impl Default for ShutdownPolicy {
    /// Runs have five seconds to stop.
    fn default() -> (policy: Self)
        ensures
            policy.grace()@ == 5_000_000_000,
            policy.abort() is None,
            policy.drain()@ == 1_000_000_000,
    {
        ShutdownPolicy::graceful(Duration::from_secs(5))
    }
}

/// The context of a run takes no more child tasks.
#[derive(Clone, Copy, Debug, Eq, PartialEq, Structural)]
pub struct ContextClosedError;

impl ContextClosedError {
    /// Human-readable description.
    pub fn message(&self) -> (message: &'static str)
        ensures
            message@ == "task context is already closed"@,
    {
        "task context is already closed"
    }
}

/// An operation was interrupted by a request to stop.
#[derive(Clone, Copy, Debug, Eq, PartialEq, Structural)]
pub struct Cancelled {
    reason: CancelReason,
}

impl Cancelled {
    /// Who asked first.
    pub closed spec fn cause(self) -> CancelReason {
        self.reason
    }

    /// Interrupted for `reason`.
    pub fn new(reason: CancelReason) -> (cancelled: Self)
        ensures
            cancelled.cause() == reason,
    {
        Cancelled { reason }
    }

    /// Who asked first.
    pub fn reason(self) -> (reason: CancelReason)
        ensures
            reason == self.cause(),
    {
        self.reason
    }

    /// Human-readable description.
    pub fn message(&self) -> (message: String)
        ensures
            message@ == "task cancelled: "@ + self.cause().name_spec(),
    {
        text::join2("task cancelled: ", self.reason.name())
    }
}

/// A run is over exactly in the states that it does not leave any more.
pub proof fn lemma_which_states_are_over(state: TaskState)
    ensures
        state.terminal() <==> state is Completed || state is Failed || state is RetriesExhausted
            || state is Cancelled || state is TimedOut || state is ScheduleError
            || state is Panicked || state is Aborted || state is ExecutorStopped
            || state is ExecutorError || state is SubmissionFailed || state is Evicted,
{
}

/// A result puts a run into the state of its kind, which is terminal.
pub proof fn lemma_results_show_their_kind<T, E>(terminal: TaskTerminal<T, E>)
    ensures
        terminal.state_spec() is Completed <==> terminal is Completed,
        terminal.state_spec() is Failed <==> terminal is Failed,
        terminal.state_spec() is RetriesExhausted <==> terminal is RetriesExhausted,
        terminal.state_spec() is Cancelled <==> terminal is Cancelled,
        terminal.state_spec() is TimedOut <==> terminal is TimedOut,
        terminal.state_spec() is ScheduleError <==> terminal is ScheduleError,
        terminal.state_spec() is Panicked <==> terminal is Panicked,
        terminal.state_spec() is Aborted <==> terminal is Aborted,
        terminal.state_spec() is ExecutorStopped <==> terminal is ExecutorStopped,
        terminal.state_spec() is ExecutorError <==> terminal is ExecutorError,
        terminal.state_spec() is SubmissionFailed <==> terminal is SubmissionFailed,
        terminal.state_spec() is Evicted <==> terminal is Evicted,
        terminal.state_spec().terminal(),
{
}

/// A lane is configured validly exactly if both its limits are at least one and no more than
/// a semaphore can count; a limit that is not is named with its value.
pub proof fn lemma_which_lanes_are_valid(queue_capacity: usize, concurrency: usize)
    ensures
        lane_config_error(queue_capacity, concurrency) is None <==> 1 <= queue_capacity
            <= permit_limit() && 1 <= concurrency <= permit_limit(),
        !(1 <= queue_capacity <= permit_limit()) ==> lane_config_error(queue_capacity, concurrency)
            == Some(
            LaneError::InvalidCapacity { capacity: queue_capacity, maximum: permit_limit() },
        ),
        1 <= queue_capacity <= permit_limit() && !(1 <= concurrency <= permit_limit())
            ==> lane_config_error(queue_capacity, concurrency) == Some(
            LaneError::InvalidConcurrency { concurrency, maximum: permit_limit() },
        ),
        permit_limit() == usize::MAX / 8,
{
}

/// A rejection gives the job back and tells why it was rejected.
pub proof fn lemma_rejections_give_the_job_back<J>(error: TrySubmitError<J>, job: J)
    ensures
        TrySubmitError::Full(job).job() == job,
        TrySubmitError::ShuttingDown(job).job() == job,
        TrySubmitError::Closed(job).job() == job,
        TrySubmitError::LaneNotFound(job).job() == job,
        KeyedSubmitError::GenerationExhausted(job).job() == job,
        KeyedSubmitError::Submit(error).job() == error.job(),
        ReplaceError::GenerationExhausted(job).job() == job,
        ReplaceError::SelfReplacementRequiresOverlap(job).job() == job,
        ReplaceError::Superseded(job).job() == job,
        ReplaceError::Submit(error).job() == error.job(),
        error is Full <==> error.failure() == SubmissionFailure::Full,
        error is ShuttingDown <==> error.failure() == SubmissionFailure::ShuttingDown,
        error is Closed <==> error.failure() == SubmissionFailure::Closed,
        error is LaneNotFound <==> error.failure() == SubmissionFailure::LaneNotFound,
{
}

} // verus!
