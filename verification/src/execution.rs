//! Executions: why they stop, how they end, and what is known of them meanwhile.

use crate::ids::{is_random_uuid, uuid_digits, ExecutionId, LaneId, ScopeId, TaskSpecId};
use crate::recurring::RecurringFailure;
use crate::retry::{RetryFailure, RetryPolicyStage};
use crate::text;
use crate::time::Instant;
use std::sync::Arc;
use vstd::prelude::*;
use vstd::string::StringExecFns;

verus! {

/// Why an execution was asked to stop.
#[derive(Debug)]
#[non_exhaustive]
pub enum CancelReason {
    UserRequested,
    ExecutorShutdown,
    LaneClosing,
    ScopeCancelled,
    Replaced,
    Other(String),
}

impl Clone for CancelReason {
    fn clone(&self) -> (copy: Self)
        ensures
            copy == *self,
    {
        match self {
            CancelReason::UserRequested => CancelReason::UserRequested,
            CancelReason::ExecutorShutdown => CancelReason::ExecutorShutdown,
            CancelReason::LaneClosing => CancelReason::LaneClosing,
            CancelReason::ScopeCancelled => CancelReason::ScopeCancelled,
            CancelReason::Replaced => CancelReason::Replaced,
            CancelReason::Other(reason) => CancelReason::Other(reason.clone()),
        }
    }
}

/// An operation was interrupted because its execution stops.
#[derive(Clone, Copy, Debug, Eq, PartialEq, Structural)]
pub struct Cancelled;

impl Cancelled {
    /// Human-readable description.
    pub fn message(&self) -> (message: &'static str)
        ensures
            message@ == "execution was cancelled"@,
    {
        "execution was cancelled"
    }
}

/// The first accepted cause for an execution to stop.
#[derive(Debug)]
#[non_exhaustive]
pub enum StopCauseSummary {
    /// It was cancelled.
    Cancel(CancelReason),
    /// Its deadline passed.
    Deadline,
}

impl Clone for StopCauseSummary {
    fn clone(&self) -> (copy: Self)
        ensures
            copy == *self,
    {
        match self {
            StopCauseSummary::Cancel(reason) => StopCauseSummary::Cancel(reason.clone()),
            StopCauseSummary::Deadline => StopCauseSummary::Deadline,
        }
    }
}

/// A copy of an optional stop cause.
pub fn copy_cause(cause: &Option<StopCauseSummary>) -> (copy: Option<StopCauseSummary>)
    ensures
        copy == *cause,
{
    match cause {
        Some(cause) => Some(cause.clone()),
        None => None,
    }
}

/// Where an execution stands.
#[derive(Debug)]
#[non_exhaustive]
pub enum TaskState {
    /// Admitted.
    Queued,
    /// Running user work.
    Running { attempt: u32 },
    /// Sleeping until a point in time.
    Sleeping { attempt: u32, wake_at: Instant },
    /// Asked to stop.
    Stopping { cause: StopCauseSummary },
    /// Ended with a value.
    Completed,
    /// Ended with a failure.
    Failed,
    /// Ended on request.
    Cancelled,
    /// Its work was dropped.
    Aborted,
    /// Its work panicked.
    Panicked,
    /// Its runtime disappeared.
    ExecutorStopped,
}

impl Clone for TaskState {
    fn clone(&self) -> (copy: Self)
        ensures
            copy == *self,
    {
        match self {
            TaskState::Queued => TaskState::Queued,
            TaskState::Running { attempt } => TaskState::Running { attempt: *attempt },
            TaskState::Sleeping { attempt, wake_at } => {
                TaskState::Sleeping { attempt: *attempt, wake_at: *wake_at }
            },
            TaskState::Stopping { cause } => TaskState::Stopping { cause: cause.clone() },
            TaskState::Completed => TaskState::Completed,
            TaskState::Failed => TaskState::Failed,
            TaskState::Cancelled => TaskState::Cancelled,
            TaskState::Aborted => TaskState::Aborted,
            TaskState::Panicked => TaskState::Panicked,
            TaskState::ExecutorStopped => TaskState::ExecutorStopped,
        }
    }
}

impl TaskState {
    /// Whether the execution ended.
    pub open spec fn terminal(&self) -> bool {
        self is Completed || self is Failed || self is Cancelled || self is Aborted
            || self is Panicked || self is ExecutorStopped
    }

    /// Whether the execution ended.
    pub fn is_terminal(&self) -> (terminal: bool)
        ensures
            terminal <==> self.terminal(),
    {
        match self {
            TaskState::Completed => true,
            TaskState::Failed => true,
            TaskState::Cancelled => true,
            TaskState::Aborted => true,
            TaskState::Panicked => true,
            TaskState::ExecutorStopped => true,
            _ => false,
        }
    }
}

/// Where a panic came from.
#[derive(Clone, Copy, Debug, Eq, PartialEq, Structural)]
#[non_exhaustive]
pub enum PanicSource {
    Factory,
    WorkFuture,
    Child,
    Schedule,
    RestartPolicy,
    ServiceBody,
    ShutdownHook,
}

/// Whether an execution ends by itself.
#[derive(Clone, Copy, Debug, Eq, PartialEq, Structural)]
#[non_exhaustive]
pub enum ExecutionKind {
    Finite,
    Recurring,
    Service,
}

/// Whether the work of an execution may be dropped after it was asked to stop.
#[derive(Clone, Copy, Debug, Eq, PartialEq, Structural)]
#[non_exhaustive]
pub enum AbortPolicy {
    CooperativeOnly,
    Allowed,
}

impl Default for AbortPolicy {
    fn default() -> (policy: Self)
        ensures
            policy == AbortPolicy::CooperativeOnly,
    {
        AbortPolicy::CooperativeOnly
    }
}

/// A definition of work that can run any number of times: `F` starts it.
pub struct TaskSpec<F> {
    pub id: TaskSpecId,
    pub factory: Arc<F>,
    pub tag: Option<String>,
    pub abort_policy: AbortPolicy,
}

impl<F> Clone for TaskSpec<F> {
    fn clone(&self) -> (copy: Self)
        ensures
            copy == *self,
    {
        let tag: Option<String> = match &self.tag {
            Some(tag) => Some(tag.clone()),
            None => None,
        };
        TaskSpec {
            id: self.id,
            factory: Arc::clone(&self.factory),
            tag,
            abort_policy: self.abort_policy,
        }
    }
}

impl<F> TaskSpec<F> {
    /// A definition without a tag, whose work is never dropped.
    pub fn new(factory: F) -> (spec: Self)
        ensures
            is_random_uuid(spec.id.0),
            spec == (TaskSpec {
                id: spec.id,
                factory: spec.factory,
                tag: None,
                abort_policy: AbortPolicy::CooperativeOnly,
            }),
            *spec.factory == factory,
    {
        TaskSpec {
            id: TaskSpecId::new(),
            factory: Arc::new(factory),
            tag: None,
            abort_policy: AbortPolicy::CooperativeOnly,
        }
    }

    /// The identity of the definition.
    pub fn id(&self) -> (id: TaskSpecId)
        ensures
            id == self.id,
    {
        self.id
    }

    /// Sets the tag.
    pub fn tag(self, tag: String) -> (spec: Self)
        ensures
            spec == (TaskSpec { tag: Some(tag), ..self }),
    {
        TaskSpec { tag: Some(tag), ..self }
    }

    /// Sets whether the work may be dropped after it was asked to stop.
    pub fn abort_policy(self, policy: AbortPolicy) -> (spec: Self)
        ensures
            spec == (TaskSpec { abort_policy: policy, ..self }),
    {
        TaskSpec { abort_policy: policy, ..self }
    }
}

/// Why an execution could not go on.
#[derive(Clone, Copy, Debug, Eq, PartialEq, Structural)]
#[non_exhaustive]
pub enum ExecutorStopReason {
    RuntimeUnavailable,
    RunnerCancelled,
    InternalInvariantViolation,
}

/// How work failed.
#[derive(Debug)]
#[non_exhaustive]
pub enum TaskFailure<E> {
    /// The operation returned an error.
    Operation { error: E },
    /// Retried work failed.
    Retry(RetryFailure<E>),
    /// Recurring work failed.
    Recurring(RecurringFailure<E>),
    /// The deadline passed.
    DeadlineExceeded { last_error: Option<E> },
    /// A retry policy panicked.
    PolicyPanicked { stage: RetryPolicyStage, last_error: Option<E> },
    /// A child failed.
    ChildFailed,
    /// The runtime has no timer.
    TimerUnavailable,
}

/// The one outcome of an execution.
#[derive(Debug)]
#[non_exhaustive]
pub enum TaskExit<T, E> {
    Completed(T),
    Failed(TaskFailure<E>),
    Cancelled { reason: CancelReason },
    Aborted { preceding_stop: Option<StopCauseSummary> },
    Panicked { source: PanicSource, message: String },
    ExecutorStopped { reason: ExecutorStopReason },
}

impl<T, E> TaskExit<T, E> {
    /// The outcome without values, errors and panic texts.
    pub open spec fn summarized(&self) -> TaskExitSummary {
        match *self {
            TaskExit::Completed(_) => TaskExitSummary::Completed,
            TaskExit::Failed(_) => TaskExitSummary::Failed,
            TaskExit::Cancelled { reason } => TaskExitSummary::Cancelled { reason },
            TaskExit::Aborted { preceding_stop } => TaskExitSummary::Aborted { preceding_stop },
            TaskExit::Panicked { source, .. } => TaskExitSummary::Panicked { source },
            TaskExit::ExecutorStopped { reason } => TaskExitSummary::ExecutorStopped { reason },
        }
    }

    /// The outcome without values, errors and panic texts.
    pub fn summary(&self) -> (summary: TaskExitSummary)
        ensures
            summary == self.summarized(),
    {
        match self {
            TaskExit::Completed(_) => TaskExitSummary::Completed,
            TaskExit::Failed(_) => TaskExitSummary::Failed,
            TaskExit::Cancelled { reason } => TaskExitSummary::Cancelled { reason: reason.clone() },
            TaskExit::Aborted { preceding_stop } => {
                TaskExitSummary::Aborted { preceding_stop: copy_cause(preceding_stop) }
            },
            TaskExit::Panicked { source, .. } => TaskExitSummary::Panicked { source: *source },
            TaskExit::ExecutorStopped { reason } => {
                TaskExitSummary::ExecutorStopped { reason: *reason }
            },
        }
    }
}

/// An outcome without values, errors and panic texts.
#[derive(Debug)]
#[non_exhaustive]
pub enum TaskExitSummary {
    Completed,
    Failed,
    Cancelled { reason: CancelReason },
    Aborted { preceding_stop: Option<StopCauseSummary> },
    Panicked { source: PanicSource },
    ExecutorStopped { reason: ExecutorStopReason },
}

impl Clone for TaskExitSummary {
    fn clone(&self) -> (copy: Self)
        ensures
            copy == *self,
    {
        match self {
            TaskExitSummary::Completed => TaskExitSummary::Completed,
            TaskExitSummary::Failed => TaskExitSummary::Failed,
            TaskExitSummary::Cancelled { reason } => {
                TaskExitSummary::Cancelled { reason: reason.clone() }
            },
            TaskExitSummary::Aborted { preceding_stop } => {
                TaskExitSummary::Aborted { preceding_stop: copy_cause(preceding_stop) }
            },
            TaskExitSummary::Panicked { source } => TaskExitSummary::Panicked { source: *source },
            TaskExitSummary::ExecutorStopped { reason } => {
                TaskExitSummary::ExecutorStopped { reason: *reason }
            },
        }
    }
}

impl TaskExitSummary {
    /// The state that this outcome puts an execution into.
    pub open spec fn state_spec(&self) -> TaskState {
        match *self {
            TaskExitSummary::Completed => TaskState::Completed,
            TaskExitSummary::Failed => TaskState::Failed,
            TaskExitSummary::Cancelled { .. } => TaskState::Cancelled,
            TaskExitSummary::Aborted { .. } => TaskState::Aborted,
            TaskExitSummary::Panicked { .. } => TaskState::Panicked,
            TaskExitSummary::ExecutorStopped { .. } => TaskState::ExecutorStopped,
        }
    }

    /// Whether the execution ended with a value.
    pub fn is_completed(&self) -> (completed: bool)
        ensures
            completed <==> self is Completed,
    {
        match self {
            TaskExitSummary::Completed => true,
            _ => false,
        }
    }

    /// Whether the execution ended with a failure.
    pub fn is_failed(&self) -> (failed: bool)
        ensures
            failed <==> self is Failed,
    {
        match self {
            TaskExitSummary::Failed => true,
            _ => false,
        }
    }

    /// The state that this outcome puts an execution into; it is always terminal.
    pub fn state(&self) -> (state: TaskState)
        ensures
            state == self.state_spec(),
            state.terminal(),
    {
        match self {
            TaskExitSummary::Completed => TaskState::Completed,
            TaskExitSummary::Failed => TaskState::Failed,
            TaskExitSummary::Cancelled { .. } => TaskState::Cancelled,
            TaskExitSummary::Aborted { .. } => TaskState::Aborted,
            TaskExitSummary::Panicked { .. } => TaskState::Panicked,
            TaskExitSummary::ExecutorStopped { .. } => TaskState::ExecutorStopped,
        }
    }
}

/// A copy of an optional outcome.
pub fn copy_summary(summary: &Option<TaskExitSummary>) -> (copy: Option<TaskExitSummary>)
    ensures
        copy == *summary,
{
    match summary {
        Some(summary) => Some(summary.clone()),
        None => None,
    }
}

/// What is known of an execution at one point in time.
#[derive(Debug)]
pub struct TaskSnapshot {
    pub execution_id: ExecutionId,
    pub task_spec_id: TaskSpecId,
    pub state: TaskState,
    pub stop_cause: Option<StopCauseSummary>,
    pub final_exit: Option<TaskExitSummary>,
    pub kind: ExecutionKind,
    pub lane_id: Option<LaneId>,
    pub scope_id: Option<ScopeId>,
    pub scope_generation: Option<u64>,
}

impl Clone for TaskSnapshot {
    fn clone(&self) -> (copy: Self)
        ensures
            copy == *self,
    {
        TaskSnapshot {
            execution_id: self.execution_id,
            task_spec_id: self.task_spec_id,
            state: self.state.clone(),
            stop_cause: self.stop_cause.clone(),
            final_exit: match &self.final_exit {
                Some(exit) => Some(exit.clone()),
                None => None,
            },
            kind: self.kind,
            lane_id: self.lane_id,
            scope_id: self.scope_id,
            scope_generation: self.scope_generation,
        }
    }
}

/// What became of a request to stop.
#[derive(Clone, Copy, Debug, Eq, PartialEq, Structural)]
#[non_exhaustive]
pub enum CancelRequestOutcome {
    Requested,
    AlreadyStopping,
    AlreadyTerminal,
}

/// What became of a request to drop the work.
#[derive(Clone, Copy, Debug, Eq, PartialEq, Structural)]
#[non_exhaustive]
pub enum ForcedCancellationOutcome {
    Requested,
    AlreadyRequested,
    AlreadyTerminal,
}

/// Why the work cannot be dropped.
#[derive(Clone, Copy, Debug, Eq, PartialEq, Structural)]
#[non_exhaustive]
pub enum ForcedCancellationError {
    NotAllowed,
    NoTrackedFuture,
}

impl ForcedCancellationError {
    /// Human-readable description.
    pub fn message(&self) -> (message: &'static str)
        ensures
            match *self {
                ForcedCancellationError::NotAllowed => message@
                    == "execution did not opt into forced cancellation"@,
                ForcedCancellationError::NoTrackedFuture => message@
                    == "execution has no active tracked async body"@,
            },
    {
        match self {
            ForcedCancellationError::NotAllowed => "execution did not opt into forced cancellation",
            ForcedCancellationError::NoTrackedFuture => {
                "execution has no active tracked async body"
            },
        }
    }
}

/// Why a result cannot be taken.
#[derive(Clone, Copy, Debug, Eq, PartialEq, Structural)]
pub enum JoinResultError {
    AlreadyTaken,
}

impl JoinResultError {
    /// Human-readable description.
    pub fn message(&self) -> (message: &'static str)
        ensures
            message@ == "typed task result was already taken"@,
    {
        "typed task result was already taken"
    }
}

/// Why an execution cannot be waited for.
#[derive(Clone, Copy, Debug, Eq, PartialEq, Structural)]
#[non_exhaustive]
pub enum ExecutionWaitError {
    /// An execution cannot wait for itself or for one that it runs within.
    WouldJoin { current: ExecutionId, target: ExecutionId },
}

impl ExecutionWaitError {
    /// Human-readable description.
    pub fn message(&self) -> (message: String)
        ensures
            match *self {
                ExecutionWaitError::WouldJoin { current, target } => message@ == "execution "@
                    + uuid_digits(current.0)
                    + " cannot wait for itself or ancestor execution "@ + uuid_digits(target.0),
            },
    {
        match self {
            ExecutionWaitError::WouldJoin { current, target } => {
                let mut message = text::join3(
                    "execution ",
                    current.text().as_str(),
                    " cannot wait for itself or ancestor execution ",
                );
                message.append(target.text().as_str());
                message
            },
        }
    }
}

/// Why a child cannot be started.
#[derive(Clone, Copy, Debug, Eq, PartialEq, Structural)]
pub enum SpawnChildError {
    ParentClosing,
    ExecutorUnavailable,
    LimitReached { maximum: usize },
}

impl SpawnChildError {
    /// Human-readable description.
    pub fn message(&self) -> (message: String)
        ensures
            match *self {
                SpawnChildError::ParentClosing => message@
                    == "parent execution is closing child admission"@,
                SpawnChildError::ExecutorUnavailable => message@
                    == "parent runtime is unavailable"@,
                SpawnChildError::LimitReached { maximum } => message@
                    == "tracked child limit reached ("@ + text::decimal(maximum as nat) + ")"@,
            },
    {
        match self {
            SpawnChildError::ParentClosing => {
                String::from_str("parent execution is closing child admission")
            },
            SpawnChildError::ExecutorUnavailable => {
                String::from_str("parent runtime is unavailable")
            },
            SpawnChildError::LimitReached { maximum } => {
                let mut message = String::from_str("tracked child limit reached (");
                text::append_decimal(&mut message, *maximum as u64);
                message.append(")");
                message
            },
        }
    }
}

/// Which executions a cancellation applies to.
#[derive(Clone, Copy, Debug)]
#[non_exhaustive]
pub enum TaskSelector<'a> {
    Execution(ExecutionId),
    Spec(TaskSpecId),
    Tag(&'a str),
    Lane(LaneId),
    Scope(ScopeId),
}

/// What became of one execution in a cancellation of several.
#[derive(Clone, Copy, Debug, Eq, PartialEq, Structural)]
pub struct BatchCancelRecord {
    pub execution_id: ExecutionId,
    pub outcome: CancelRequestOutcome,
}

/// What became of a cancellation of several executions, by identity.
#[derive(Debug)]
pub struct BatchCancelReport {
    pub records: Vec<BatchCancelRecord>,
}

/// Whether a panic says that the runtime has no timer.
pub open spec fn says_timer_unavailable(message: Seq<char>) -> bool {
    ||| text::occurs(message, "timers are disabled"@)
    ||| text::occurs(message, "no reactor running"@)
    ||| text::occurs(message, "must be called from the context of a Tokio"@)
}

/// Whether a panic says that the runtime has no timer.
pub fn is_timer_unavailable_message(message: &str) -> (unavailable: bool)
    ensures
        unavailable <==> says_timer_unavailable(message@),
{
    text::contains(message, "timers are disabled") || text::contains(message, "no reactor running")
        || text::contains(message, "must be called from the context of a Tokio")
}

/// The outcome of a panic: a missing timer is a failure, everything else a panic.
pub open spec fn panic_outcome<T, E>(source: PanicSource, message: String) -> TaskExit<T, E> {
    if says_timer_unavailable(message@) {
        TaskExit::Failed(TaskFailure::TimerUnavailable)
    } else {
        TaskExit::Panicked { source, message }
    }
}

/// The outcome of a panic: a missing timer is a failure, everything else a panic.
pub fn panic_exit<T, E>(source: PanicSource, message: String) -> (exit: TaskExit<T, E>)
    ensures
        exit == panic_outcome::<T, E>(source, message),
{
    if is_timer_unavailable_message(message.as_str()) {
        TaskExit::Failed(TaskFailure::TimerUnavailable)
    } else {
        TaskExit::Panicked { source, message }
    }
}

/// A summary tells which kind of outcome it was and keeps its reason, its source and the
/// stop that came before it; the state that it shows is of the same kind and terminal.
pub proof fn lemma_summary_keeps_the_kind<T, E>(exit: TaskExit<T, E>)
    ensures
        exit.summarized() is Completed <==> exit is Completed,
        exit.summarized() is Failed <==> exit is Failed,
        exit matches TaskExit::Cancelled { reason } ==> exit.summarized() == (
        TaskExitSummary::Cancelled { reason }),
        exit matches TaskExit::Aborted { preceding_stop } ==> exit.summarized() == (
        TaskExitSummary::Aborted { preceding_stop }),
        exit matches TaskExit::Panicked { source, .. } ==> exit.summarized() == (
        TaskExitSummary::Panicked { source }),
        exit matches TaskExit::ExecutorStopped { reason } ==> exit.summarized() == (
        TaskExitSummary::ExecutorStopped { reason }),
        exit.summarized().state_spec() is Completed <==> exit is Completed,
        exit.summarized().state_spec() is Failed <==> exit is Failed,
        exit.summarized().state_spec() is Cancelled <==> exit is Cancelled,
        exit.summarized().state_spec() is Aborted <==> exit is Aborted,
        exit.summarized().state_spec() is Panicked <==> exit is Panicked,
        exit.summarized().state_spec() is ExecutorStopped <==> exit is ExecutorStopped,
        exit.summarized().state_spec().terminal(),
{
}

/// An execution is over exactly in the states that it does not leave any more.
pub proof fn lemma_which_states_are_terminal(state: TaskState)
    ensures
        state.terminal() <==> !(state is Queued) && !(state is Running) && !(state is Sleeping)
            && !(state is Stopping),
{
}

/// A panic says that there is no timer exactly if one of the three texts stands in it
/// somewhere, whatever stands around it.
pub proof fn lemma_missing_timer_is_said_anywhere(
    before: Seq<char>,
    after: Seq<char>,
    message: Seq<char>,
)
    ensures
        says_timer_unavailable(before + "timers are disabled"@ + after),
        says_timer_unavailable(before + "no reactor running"@ + after),
        says_timer_unavailable(before + "must be called from the context of a Tokio"@ + after),
        says_timer_unavailable(message) <==> exists|i: int, j: int|
            0 <= i <= j <= message.len() && ({
                let part = #[trigger] message.subrange(i, j);
                part == "timers are disabled"@ || part == "no reactor running"@ || part
                    == "must be called from the context of a Tokio"@
            }),
{
    lemma_occurs_between(before, "timers are disabled"@, after);
    lemma_occurs_between(before, "no reactor running"@, after);
    lemma_occurs_between(before, "must be called from the context of a Tokio"@, after);
    lemma_occurs_as_part(message, "timers are disabled"@);
    lemma_occurs_as_part(message, "no reactor running"@);
    lemma_occurs_as_part(message, "must be called from the context of a Tokio"@);
}

proof fn lemma_occurs_between(before: Seq<char>, needle: Seq<char>, after: Seq<char>)
    ensures
        text::occurs(before + needle + after, needle),
{
    let whole = before + needle + after;
    let start = before.len() as int;
    assert(whole.subrange(start, start + needle.len()) =~= needle);
    assert(text::occurs_at(whole, needle, start));
}

proof fn lemma_occurs_as_part(message: Seq<char>, needle: Seq<char>)
    ensures
        text::occurs(message, needle) <==> exists|i: int, j: int|
            0 <= i <= j <= message.len() && #[trigger] message.subrange(i, j) == needle,
{
    if exists|i: int, j: int|
        0 <= i <= j <= message.len() && #[trigger] message.subrange(i, j) == needle {
        let (i, j) = choose|i: int, j: int|
            0 <= i <= j <= message.len() && #[trigger] message.subrange(i, j) == needle;
        assert(message.subrange(i, j).len() == j - i);
        assert(message.subrange(i, i + needle.len()) =~= needle);
        assert(text::occurs_at(message, needle, i));
    }
    if text::occurs(message, needle) {
        let at = choose|at: int| #[trigger] text::occurs_at(message, needle, at);
        assert(message.subrange(at, at + needle.len()) == needle);
    }
}

/// A panic is reported with its source and its text, unless it says that there is no timer:
/// then it is a failure for want of one.
pub proof fn lemma_panics_are_reported<T, E>(source: PanicSource, message: String)
    ensures
        !says_timer_unavailable(message@) ==> panic_outcome::<T, E>(source, message) == (TaskExit::<
            T,
            E,
        >::Panicked { source, message }),
        says_timer_unavailable(message@) ==> panic_outcome::<T, E>(source, message) == TaskExit::<
            T,
            E,
        >::Failed(TaskFailure::TimerUnavailable),
{
}

} // verus!
