//! Recurring work: schedules of ticks, failure and restart policies, and the decision
//! after each tick.

use crate::execution::{
    is_timer_unavailable_message, panic_exit, panic_outcome, says_timer_unavailable, AbortPolicy,
    ExecutorStopReason, PanicSource, StopCauseSummary, TaskExit, TaskFailure,
};
use crate::execution_core::JoinFailure;
use crate::ids::{is_random_uuid, TaskSpecId};
use crate::retry::RetrySpec;
use crate::time::{Duration, Instant, MAX_NANOS};
use vstd::prelude::*;
use vstd::string::StringExecFns;

verus! {

/// What a tick decides.
#[derive(Debug)]
#[non_exhaustive]
pub enum TickOutcome<T> {
    /// Tick again.
    Continue,
    /// End with a value.
    Stop(T),
}

/// What an interval counts from.
#[derive(Clone, Copy, Debug, Eq, PartialEq, Structural)]
#[non_exhaustive]
pub enum ScheduleMode {
    /// From the end of a tick.
    FixedDelay,
    /// From the first tick.
    FixedRate,
}

/// What happens to ticks that are due before the previous one is over.
#[derive(Clone, Copy, Debug, Eq, PartialEq, Structural)]
#[non_exhaustive]
pub enum MissedTickPolicy {
    /// They run at once, one after another.
    Burst,
    /// They are left out.
    Skip,
    /// They are put off by one interval.
    Delay,
}

/// What a resumption does to the schedule.
#[derive(Clone, Copy, Debug, Eq, PartialEq, Structural)]
#[non_exhaustive]
pub enum ResumePolicy {
    /// Nothing.
    Continue,
    /// The next tick is due at once.
    RunImmediately,
    /// Ticks that were missed are left out.
    SkipMissed,
}

/// What is known when a schedule decides about the next tick.
#[derive(Clone, Copy, Debug)]
pub struct ScheduleDecisionContext {
    pub completed_ticks: u64,
    pub last_started_at: Instant,
    pub last_finished_at: Instant,
    pub observed_missed_ticks: u64,
    pub resume_observed: bool,
}

/// How the ticks of a schedule follow each other.
#[derive(Debug)]
pub enum SchedulePlan {
    /// By one interval.
    Fixed { interval: Duration, mode: ScheduleMode },
    /// By a delay for each tick.
    Steps { delays: Vec<Duration>, repeat_last: bool },
    /// As a function of the caller decides after each tick.
    Dynamic,
}

/// A recurring schedule with an initial delay of its own.
#[derive(Debug)]
pub struct Schedule {
    pub initial_delay: Duration,
    pub plan: SchedulePlan,
    pub missed_tick_policy: MissedTickPolicy,
    pub resume_policy: ResumePolicy,
    /// Whether the proportion of jitter is valid, if there is jitter.
    pub jitter_valid: Option<bool>,
}

impl Schedule {
    /// A schedule with the defaults: no initial delay, missed ticks are left out, and no
    /// jitter.
    pub open spec fn of_plan(&self, plan: SchedulePlan) -> bool {
        &&& self.initial_delay@ == 0
        &&& self.plan == plan
        &&& self.missed_tick_policy == MissedTickPolicy::Skip
        &&& self.resume_policy == ResumePolicy::Continue
        &&& self.jitter_valid is None
    }

    /// A tick is due one interval after the end of the previous one.
    pub fn fixed_delay(interval: Duration) -> (schedule: Self)
        ensures
            schedule.of_plan(SchedulePlan::Fixed { interval, mode: ScheduleMode::FixedDelay }),
    {
        Schedule::fixed(interval, ScheduleMode::FixedDelay)
    }

    /// Ticks are due at multiples of the interval.
    pub fn fixed_rate(interval: Duration) -> (schedule: Self)
        ensures
            schedule.of_plan(SchedulePlan::Fixed { interval, mode: ScheduleMode::FixedRate }),
    {
        Schedule::fixed(interval, ScheduleMode::FixedRate)
    }

    fn fixed(interval: Duration, mode: ScheduleMode) -> (schedule: Self)
        ensures
            schedule.of_plan(SchedulePlan::Fixed { interval, mode }),
    {
        Schedule {
            initial_delay: Duration::zero(),
            plan: SchedulePlan::Fixed { interval, mode },
            missed_tick_policy: MissedTickPolicy::Skip,
            resume_policy: ResumePolicy::Continue,
            jitter_valid: None,
        }
    }

    /// Each tick is followed by a delay of its own.
    pub fn steps(delays: Vec<Duration>) -> (schedule: Self)
        ensures
            schedule.of_plan(SchedulePlan::Steps { delays, repeat_last: false }),
    {
        Schedule {
            initial_delay: Duration::zero(),
            plan: SchedulePlan::Steps { delays, repeat_last: false },
            missed_tick_policy: MissedTickPolicy::Skip,
            resume_policy: ResumePolicy::Continue,
            jitter_valid: None,
        }
    }

    /// A function of the caller decides about each tick; its answers go to
    /// [`next_target`].
    pub fn dynamic() -> (schedule: Self)
        ensures
            schedule.of_plan(SchedulePlan::Dynamic),
    {
        Schedule {
            initial_delay: Duration::zero(),
            plan: SchedulePlan::Dynamic,
            missed_tick_policy: MissedTickPolicy::Skip,
            resume_policy: ResumePolicy::Continue,
            jitter_valid: None,
        }
    }

    /// Sets the delay before the first tick.
    pub fn initial_delay(self, delay: Duration) -> (schedule: Self)
        ensures
            schedule == (Schedule { initial_delay: delay, ..self }),
    {
        Schedule { initial_delay: delay, ..self }
    }

    /// Repeats the last of the delays for ever. Without effect on other schedules.
    pub fn repeat_last(self) -> (schedule: Self)
        ensures
            schedule == (Schedule {
                plan: match self.plan {
                    SchedulePlan::Steps { delays, .. } => SchedulePlan::Steps {
                        delays,
                        repeat_last: true,
                    },
                    plan => plan,
                },
                ..self
            }),
    {
        let plan: SchedulePlan = match self.plan {
            SchedulePlan::Steps { delays, .. } => {
                SchedulePlan::Steps { delays, repeat_last: true }
            },
            plan => plan,
        };
        Schedule {
            initial_delay: self.initial_delay,
            plan,
            missed_tick_policy: self.missed_tick_policy,
            resume_policy: self.resume_policy,
            jitter_valid: self.jitter_valid,
        }
    }

    /// Sets what happens to missed ticks.
    pub fn missed_tick_policy(self, policy: MissedTickPolicy) -> (schedule: Self)
        ensures
            schedule == (Schedule { missed_tick_policy: policy, ..self }),
    {
        Schedule { missed_tick_policy: policy, ..self }
    }

    /// Sets what a resumption does.
    pub fn resume_policy(self, policy: ResumePolicy) -> (schedule: Self)
        ensures
            schedule == (Schedule { resume_policy: policy, ..self }),
    {
        Schedule { resume_policy: policy, ..self }
    }

    /// Applies jitter to the wait before each tick. The caller computes it, and says
    /// whether its proportion is finite and between zero and one.
    pub fn jitter(self, ratio_valid: bool) -> (schedule: Self)
        ensures
            schedule == (Schedule { jitter_valid: Some(ratio_valid), ..self }),
    {
        Schedule { jitter_valid: Some(ratio_valid), ..self }
    }

    /// The delay before the first tick.
    pub fn configured_initial_delay(&self) -> (delay: Duration)
        ensures
            delay == self.initial_delay,
    {
        self.initial_delay
    }
}

/// What a failed tick does to the work.
#[derive(Clone, Copy, Debug, Eq, PartialEq, Structural)]
#[non_exhaustive]
pub enum TickFailurePolicy {
    /// It ends the work.
    Stop,
    /// The work goes on after a delay, unless too many ticks failed in a row.
    Continue { max_consecutive_failures: u32, delay: Duration },
}

/// How often panicked work is restarted.
#[derive(Clone, Copy, Debug, Eq, PartialEq, Structural)]
pub struct RestartPolicy {
    pub max_restarts: u32,
    pub window: Duration,
    pub backoff: Duration,
}

impl RestartPolicy {
    /// At most `max_restarts` restarts within a minute, without a delay.
    pub fn new(max_restarts: u32) -> (policy: Self)
        ensures
            policy.max_restarts == max_restarts,
            policy.window@ == 60_000_000_000,
            policy.backoff@ == 0,
    {
        RestartPolicy { max_restarts, window: Duration::from_secs(60), backoff: Duration::zero() }
    }

    /// Sets the span within which restarts are counted.
    pub fn window(self, window: Duration) -> (policy: Self)
        ensures
            policy == (RestartPolicy { window, ..self }),
    {
        RestartPolicy { window, ..self }
    }

    /// Sets the delay before a restart.
    pub fn backoff(self, backoff: Duration) -> (policy: Self)
        ensures
            policy == (RestartPolicy { backoff, ..self }),
    {
        RestartPolicy { backoff, ..self }
    }

    /// The most restarts within the window.
    pub fn maximum_restarts(&self) -> (count: u32)
        ensures
            count == self.max_restarts,
    {
        self.max_restarts
    }

    /// The span within which restarts are counted.
    pub fn configured_window(&self) -> (window: Duration)
        ensures
            window == self.window,
    {
        self.window
    }

    /// The delay before a restart.
    pub fn configured_backoff(&self) -> (backoff: Duration)
        ensures
            backoff == self.backoff,
    {
        self.backoff
    }
}

/// What a panic does to the work.
#[derive(Clone, Copy, Debug, Eq, PartialEq, Structural)]
#[non_exhaustive]
pub enum PanicPolicy {
    /// It ends the work.
    Stop,
    /// The tick is made again.
    Restart(RestartPolicy),
}

/// Why recurring work cannot be built.
#[derive(Clone, Copy, Debug, Eq, PartialEq, Structural)]
#[non_exhaustive]
pub enum RecurringBuildError {
    EmptySchedule,
    ZeroFailureBudget,
    ZeroRestartBudget,
    ZeroRestartWindow,
    DurationOverflow,
    InvalidJitterRatio,
}

impl RecurringBuildError {
    /// Human-readable description.
    pub fn message(&self) -> (message: &'static str)
        ensures
            match *self {
                RecurringBuildError::EmptySchedule => message@
                    == "step schedule must contain a delay"@,
                RecurringBuildError::ZeroFailureBudget => message@
                    == "continued tick failures require a non-zero budget"@,
                RecurringBuildError::ZeroRestartBudget => message@
                    == "restart budget must be non-zero"@,
                RecurringBuildError::ZeroRestartWindow => message@
                    == "restart window must be non-zero"@,
                RecurringBuildError::DurationOverflow => message@
                    == "schedule duration overflows Instant"@,
                RecurringBuildError::InvalidJitterRatio => message@
                    == "schedule jitter ratio must be finite and between zero and one"@,
            },
    {
        match self {
            RecurringBuildError::EmptySchedule => "step schedule must contain a delay",
            RecurringBuildError::ZeroFailureBudget => {
                "continued tick failures require a non-zero budget"
            },
            RecurringBuildError::ZeroRestartBudget => "restart budget must be non-zero",
            RecurringBuildError::ZeroRestartWindow => "restart window must be non-zero",
            RecurringBuildError::DurationOverflow => "schedule duration overflows Instant",
            RecurringBuildError::InvalidJitterRatio => {
                "schedule jitter ratio must be finite and between zero and one"
            },
        }
    }
}

/// Why recurring work failed.
#[derive(Debug)]
#[non_exhaustive]
pub enum RecurringFailure<E> {
    /// A tick failed.
    TickFailed { tick: u64, error: E },
    /// Too many ticks failed in a row.
    ConsecutiveFailuresExceeded { tick: u64, error: E },
    /// The schedule has no next tick.
    ScheduleEnded,
    /// The next tick is out of range.
    ScheduleOverflow { code: &'static str },
    /// A counter is used up.
    CounterOverflow { counter: &'static str },
    /// The work panicked too often.
    RestartLimitExceeded,
}

impl<E> RecurringFailure<E> {
    /// Stable machine-readable code.
    pub fn code(&self) -> (result: &'static str)
        ensures
            match *self {
                RecurringFailure::TickFailed { .. } => result@ == "BB-RECURRING-TICK-FAILED"@,
                RecurringFailure::ConsecutiveFailuresExceeded { .. } => result@
                    == "BB-RECURRING-CONSECUTIVE-FAILURES-EXCEEDED"@,
                RecurringFailure::ScheduleEnded => result@ == "BB-RECURRING-SCHEDULE-ENDED"@,
                RecurringFailure::ScheduleOverflow { code } => result@ == code@,
                RecurringFailure::CounterOverflow { .. } => result@
                    == "BB-RECURRING-COUNTER-OVERFLOW"@,
                RecurringFailure::RestartLimitExceeded => result@
                    == "BB-RECURRING-RESTART-LIMIT-EXCEEDED"@,
            },
    {
        match self {
            RecurringFailure::TickFailed { .. } => "BB-RECURRING-TICK-FAILED",
            RecurringFailure::ConsecutiveFailuresExceeded { .. } => {
                "BB-RECURRING-CONSECUTIVE-FAILURES-EXCEEDED"
            },
            RecurringFailure::ScheduleEnded => "BB-RECURRING-SCHEDULE-ENDED",
            RecurringFailure::ScheduleOverflow { code } => code,
            RecurringFailure::CounterOverflow { .. } => "BB-RECURRING-COUNTER-OVERFLOW",
            RecurringFailure::RestartLimitExceeded => "BB-RECURRING-RESTART-LIMIT-EXCEEDED",
        }
    }
}

/// What a tick does: a function of the caller, or retried work.
pub enum RecurringOperation<F, P> {
    Tick(F),
    Retry(RetrySpec<F, P>),
}

/// Validated recurring work.
pub struct RecurringSpec<F, P> {
    pub id: TaskSpecId,
    pub operation: RecurringOperation<F, P>,
    pub schedule: Schedule,
    pub failure_policy: TickFailurePolicy,
    pub panic_policy: PanicPolicy,
    pub tag: Option<String>,
    pub abort_policy: AbortPolicy,
}

impl<F, P> RecurringSpec<F, P> {
    /// The identity of the definition.
    pub fn id(&self) -> (id: TaskSpecId)
        ensures
            id == self.id,
    {
        self.id
    }
}

/// Builds recurring work.
pub struct RecurringBuilder<F, P> {
    pub operation: RecurringOperation<F, P>,
    pub schedule: Schedule,
    pub failure_policy: TickFailurePolicy,
    pub panic_policy: PanicPolicy,
    pub tag: Option<String>,
    pub abort_policy: AbortPolicy,
}

impl<F, P> RecurringBuilder<F, P> {
    /// A tick a second after the end of the previous one; failures and panics end the
    /// work.
    pub open spec fn of_operation(&self, operation: RecurringOperation<F, P>) -> bool {
        &&& self.operation == operation
        &&& self.schedule.plan matches SchedulePlan::Fixed { interval, mode }
        &&& interval@ == 1_000_000_000
        &&& mode == ScheduleMode::FixedDelay
        &&& self.schedule.of_plan(self.schedule.plan)
        &&& self.failure_policy == TickFailurePolicy::Stop
        &&& self.panic_policy == PanicPolicy::Stop
        &&& self.tag is None
        &&& self.abort_policy == AbortPolicy::CooperativeOnly
    }

    fn of(operation: RecurringOperation<F, P>) -> (builder: Self)
        ensures
            builder.of_operation(operation),
    {
        RecurringBuilder {
            operation,
            schedule: Schedule::fixed_delay(Duration::from_secs(1)),
            failure_policy: TickFailurePolicy::Stop,
            panic_policy: PanicPolicy::Stop,
            tag: None,
            abort_policy: AbortPolicy::CooperativeOnly,
        }
    }

    /// Recurring work that calls `factory` for each tick.
    pub fn new(factory: F) -> (builder: Self)
        ensures
            builder.of_operation(RecurringOperation::Tick(factory)),
    {
        RecurringBuilder::of(RecurringOperation::Tick(factory))
    }

    /// Recurring work that retries each tick.
    pub fn from_retry(spec: RetrySpec<F, P>) -> (builder: Self)
        ensures
            builder.of_operation(RecurringOperation::Retry(spec)),
    {
        RecurringBuilder::of(RecurringOperation::Retry(spec))
    }

    /// Sets the schedule.
    pub fn schedule(self, schedule: Schedule) -> (builder: Self)
        ensures
            builder == (RecurringBuilder { schedule, ..self }),
    {
        RecurringBuilder { schedule, ..self }
    }

    /// Sets the delay before the first tick.
    pub fn initial_delay(self, delay: Duration) -> (builder: Self)
        ensures
            builder == (RecurringBuilder {
                schedule: Schedule { initial_delay: delay, ..self.schedule },
                ..self
            }),
    {
        let mut builder = self;
        builder.schedule.initial_delay = delay;
        builder
    }

    /// Sets what a failed tick does.
    pub fn tick_failure_policy(self, policy: TickFailurePolicy) -> (builder: Self)
        ensures
            builder == (RecurringBuilder { failure_policy: policy, ..self }),
    {
        RecurringBuilder { failure_policy: policy, ..self }
    }

    /// Sets what a panic does.
    pub fn panic_policy(self, policy: PanicPolicy) -> (builder: Self)
        ensures
            builder == (RecurringBuilder { panic_policy: policy, ..self }),
    {
        RecurringBuilder { panic_policy: policy, ..self }
    }

    /// Sets the tag.
    pub fn tag(self, tag: String) -> (builder: Self)
        ensures
            builder == (RecurringBuilder { tag: Some(tag), ..self }),
    {
        RecurringBuilder { tag: Some(tag), ..self }
    }

    /// Sets whether the work may be dropped.
    pub fn abort_policy(self, policy: AbortPolicy) -> (builder: Self)
        ensures
            builder == (RecurringBuilder { abort_policy: policy, ..self }),
    {
        RecurringBuilder { abort_policy: policy, ..self }
    }

    /// What the work is rejected for at `now`, if it is.
    pub open spec fn build_error(&self, now: nat) -> Option<RecurringBuildError> {
        if self.schedule.plan is Steps && self.schedule.plan->delays.len() == 0 {
            Some(RecurringBuildError::EmptySchedule)
        } else if self.failure_policy is Continue
            && self.failure_policy->max_consecutive_failures == 0 {
            Some(RecurringBuildError::ZeroFailureBudget)
        } else if self.panic_policy is Restart && self.panic_policy->0.max_restarts == 0 {
            Some(RecurringBuildError::ZeroRestartBudget)
        } else if self.panic_policy is Restart && self.panic_policy->0.window@ == 0 {
            Some(RecurringBuildError::ZeroRestartWindow)
        } else if self.schedule.jitter_valid == Some(false) {
            Some(RecurringBuildError::InvalidJitterRatio)
        } else if now + self.schedule.initial_delay@ > MAX_NANOS {
            Some(RecurringBuildError::DurationOverflow)
        } else {
            None
        }
    }

    /// Validates the work.
    pub fn build(self, now: Instant) -> (result: Result<RecurringSpec<F, P>, RecurringBuildError>)
        ensures
            match self.build_error(now@) {
                Some(error) => result == Err::<RecurringSpec<F, P>, RecurringBuildError>(error),
                None => {
                    &&& result matches Ok(spec)
                    &&& is_random_uuid(spec.id.0)
                    &&& spec == (RecurringSpec {
                        id: spec.id,
                        operation: self.operation,
                        schedule: self.schedule,
                        failure_policy: self.failure_policy,
                        panic_policy: self.panic_policy,
                        tag: self.tag,
                        abort_policy: self.abort_policy,
                    })
                },
            },
    {
        if let SchedulePlan::Steps { delays, .. } = &self.schedule.plan {
            if delays.len() == 0 {
                return Err(RecurringBuildError::EmptySchedule);
            }
        }
        if let TickFailurePolicy::Continue { max_consecutive_failures, .. } = self.failure_policy {
            if max_consecutive_failures == 0 {
                return Err(RecurringBuildError::ZeroFailureBudget);
            }
        }
        if let PanicPolicy::Restart(policy) = &self.panic_policy {
            if policy.max_restarts == 0 {
                return Err(RecurringBuildError::ZeroRestartBudget);
            }
            if policy.window.is_zero() {
                return Err(RecurringBuildError::ZeroRestartWindow);
            }
        }
        if let Some(valid) = self.schedule.jitter_valid {
            if !valid {
                return Err(RecurringBuildError::InvalidJitterRatio);
            }
        }
        if now.checked_add(self.schedule.initial_delay).is_none() {
            return Err(RecurringBuildError::DurationOverflow);
        }
        Ok(
            RecurringSpec {
                id: TaskSpecId::new(),
                operation: self.operation,
                schedule: self.schedule,
                failure_policy: self.failure_policy,
                panic_policy: self.panic_policy,
                tag: self.tag,
                abort_policy: self.abort_policy,
            },
        )
    }
}

/// The span of `nanos` nanoseconds, if its seconds are in range.
pub fn duration_from_nanos(nanos: u128) -> (span: Option<Duration>)
    ensures
        span is Some <==> nanos <= MAX_NANOS,
        span is Some ==> span->0@ == nanos,
{
    let seconds: u128 = nanos / 1_000_000_000;
    let subsecond_nanos: u128 = nanos % 1_000_000_000;
    if seconds > u64::MAX as u128 {
        return None;
    }
    Some(Duration::new(seconds as u64, subsecond_nanos as u32))
}

/// What follows a tick: the next due time with the ticks missed up to it, the end of the
/// schedule, or the code of an overflow.
pub type Target = Result<Option<(nat, nat)>, Seq<char>>;

/// `at` as a due time with `missed` ticks, or the code if it is out of range.
pub open spec fn due(at: nat, missed: nat, code: Seq<char>) -> Target {
    if at <= MAX_NANOS {
        Ok(Some((at, missed)))
    } else {
        Err(code)
    }
}

/// What follows tick `completed` at a fixed rate from `anchor`.
pub open spec fn fixed_rate_target(
    schedule: Schedule,
    interval: nat,
    anchor: nat,
    completed: nat,
    finished: nat,
    resumed: bool,
    now: nat,
) -> Target {
    let target = anchor + interval * completed;
    if interval * completed > u128::MAX {
        Err("BB-SCHEDULE-FIXED-RATE-MULTIPLY-OVERFLOW"@)
    } else if interval * completed > MAX_NANOS {
        Err("BB-SCHEDULE-FIXED-RATE-DURATION-OVERFLOW"@)
    } else if target > MAX_NANOS {
        Err("BB-SCHEDULE-FIXED-RATE-INSTANT-OVERFLOW"@)
    } else if target > now {
        Ok(Some((target, 0)))
    } else if interval == 0 {
        Ok(Some((now, 0)))
    } else if schedule.missed_tick_policy == MissedTickPolicy::Skip || (resumed
        && schedule.resume_policy == ResumePolicy::SkipMissed) {
        let skipped = ((now - target) as nat / interval + 1) as nat;
        if skipped > u64::MAX {
            Err("BB-SCHEDULE-MISSED-COUNT-OVERFLOW"@)
        } else if interval * skipped > MAX_NANOS {
            Err("BB-SCHEDULE-MISSED-DURATION-OVERFLOW"@)
        } else {
            due(target + interval * skipped, skipped, "BB-SCHEDULE-MISSED-INSTANT-OVERFLOW"@)
        }
    } else if schedule.missed_tick_policy == MissedTickPolicy::Burst {
        Ok(Some((target, 1)))
    } else {
        due(finished + interval, 1, "BB-SCHEDULE-MISSED-DELAY-OVERFLOW"@)
    }
}

/// The delay after tick `completed`, if there is one.
pub open spec fn step_delay(delays: Seq<Duration>, repeat_last: bool, completed: nat) -> Option<
    nat,
> {
    if completed <= delays.len() {
        Some(delays[completed - 1]@)
    } else if repeat_last && delays.len() > 0 {
        Some(delays.last()@)
    } else {
        None
    }
}

/// What follows tick `completed`, where `answer` is what the caller's function says.
pub open spec fn target_after(
    schedule: Schedule,
    anchor: nat,
    completed: nat,
    finished: nat,
    resumed: bool,
    now: nat,
    answer: Option<Duration>,
) -> Target {
    if resumed && schedule.resume_policy == ResumePolicy::RunImmediately {
        Ok(Some((now, 0)))
    } else {
        match schedule.plan {
            SchedulePlan::Fixed { interval, mode: ScheduleMode::FixedDelay } => due(
                finished + interval@,
                0,
                "BB-SCHEDULE-FIXED-DELAY-OVERFLOW"@,
            ),
            SchedulePlan::Fixed { interval, mode: ScheduleMode::FixedRate } => fixed_rate_target(
                schedule,
                interval@,
                anchor,
                completed,
                finished,
                resumed,
                now,
            ),
            SchedulePlan::Steps { delays, repeat_last } => if completed == 0 {
                Err("BB-SCHEDULE-STEP-COUNTER-UNDERFLOW"@)
            } else if completed - 1 > usize::MAX {
                Err("BB-SCHEDULE-STEP-INDEX-OVERFLOW"@)
            } else {
                match step_delay(delays@, repeat_last, completed) {
                    Some(delay) => due(finished + delay, 0, "BB-SCHEDULE-STEP-INSTANT-OVERFLOW"@),
                    None => Ok(None),
                }
            },
            SchedulePlan::Dynamic => match answer {
                Some(delay) => due(finished + delay@, 0, "BB-SCHEDULE-DYNAMIC-INSTANT-OVERFLOW"@),
                None => Ok(None),
            },
        }
    }
}

/// The model of what follows a tick.
pub open spec fn target_view(result: Result<Option<(Instant, u64)>, &'static str>) -> Target {
    match result {
        Ok(Some((at, missed))) => Ok(Some((at@, missed as nat))),
        Ok(None) => Ok(None),
        Err(code) => Err(code@),
    }
}

fn due_at(at: Option<Instant>, missed: u64, code: &'static str) -> (result: Result<
    Option<(Instant, u64)>,
    &'static str,
>)
    ensures
        match at {
            Some(at) => target_view(result) == Ok::<Option<(nat, nat)>, Seq<char>>(
                Some((at@, missed as nat)),
            ),
            None => target_view(result) == Err::<Option<(nat, nat)>, Seq<char>>(code@),
        },
{
    match at {
        Some(at) => Ok(Some((at, missed))),
        None => Err(code),
    }
}

fn next_fixed_rate(
    schedule: &Schedule,
    interval: Duration,
    anchor: Instant,
    completed_ticks: u64,
    last_finished_at: Instant,
    resume_observed: bool,
    now: Instant,
) -> (result: Result<Option<(Instant, u64)>, &'static str>)
    ensures
        target_view(result) == fixed_rate_target(
            *schedule,
            interval@,
            anchor@,
            completed_ticks as nat,
            last_finished_at@,
            resume_observed,
            now@,
        ),
{
    let step: u128 = interval.as_nanos();
    assert(step * completed_ticks == interval@ * (completed_ticks as nat));
    let nanos: u128 = match step.checked_mul(completed_ticks as u128) {
        Some(nanos) => nanos,
        None => {
            return Err("BB-SCHEDULE-FIXED-RATE-MULTIPLY-OVERFLOW");
        },
    };
    let elapsed: Duration = match duration_from_nanos(nanos) {
        Some(elapsed) => elapsed,
        None => {
            return Err("BB-SCHEDULE-FIXED-RATE-DURATION-OVERFLOW");
        },
    };
    let target: Instant = match anchor.checked_add(elapsed) {
        Some(target) => target,
        None => {
            return Err("BB-SCHEDULE-FIXED-RATE-INSTANT-OVERFLOW");
        },
    };
    if target.as_nanos() > now.as_nanos() {
        return Ok(Some((target, 0)));
    }
    if interval.is_zero() {
        return Ok(Some((now, 0)));
    }
    let policy: MissedTickPolicy = if resume_observed && schedule.resume_policy
        == ResumePolicy::SkipMissed {
        MissedTickPolicy::Skip
    } else {
        schedule.missed_tick_policy
    };
    match policy {
        MissedTickPolicy::Burst => Ok(Some((target, 1))),
        MissedTickPolicy::Delay => {
            due_at(last_finished_at.checked_add(interval), 1, "BB-SCHEDULE-MISSED-DELAY-OVERFLOW")
        },
        MissedTickPolicy::Skip => {
            let behind: u128 = now.saturating_duration_since(target).as_nanos();
            let skipped: u128 = behind / step + 1;
            proof {
                assert(step * (behind / step) <= behind && behind / step <= behind)
                    by (nonlinear_arith)
                    requires
                        step > 0,
                ;
                assert(step * skipped == step * (behind / step) + step) by (nonlinear_arith)
                    requires
                        skipped == behind / step + 1,
                ;
                assert(interval@ * (skipped as nat) == step * skipped);
                assert(skipped as nat == ((now@ - target@) as nat / interval@ + 1) as nat);
            }
            if skipped > u64::MAX as u128 {
                return Err("BB-SCHEDULE-MISSED-COUNT-OVERFLOW");
            }
            let advance: Duration = match duration_from_nanos(step * skipped) {
                Some(advance) => advance,
                None => {
                    return Err("BB-SCHEDULE-MISSED-DURATION-OVERFLOW");
                },
            };
            due_at(
                target.checked_add(advance),
                skipped as u64,
                "BB-SCHEDULE-MISSED-INSTANT-OVERFLOW",
            )
        },
    }
}

/// What follows a tick at `now`. `answer` is what the caller's function says where the
/// schedule is dynamic.
pub fn next_target(
    schedule: &Schedule,
    anchor: Instant,
    completed_ticks: u64,
    last_finished_at: Instant,
    resume_observed: bool,
    now: Instant,
    answer: Option<Duration>,
) -> (result: Result<Option<(Instant, u64)>, &'static str>)
    ensures
        target_view(result) == target_after(
            *schedule,
            anchor@,
            completed_ticks as nat,
            last_finished_at@,
            resume_observed,
            now@,
            answer,
        ),
{
    if resume_observed && schedule.resume_policy == ResumePolicy::RunImmediately {
        return Ok(Some((now, 0)));
    }
    match &schedule.plan {
        SchedulePlan::Fixed { interval, mode: ScheduleMode::FixedDelay } => {
            due_at(
                last_finished_at.checked_add(*interval),
                0,
                "BB-SCHEDULE-FIXED-DELAY-OVERFLOW",
            )
        },
        SchedulePlan::Fixed { interval, mode: ScheduleMode::FixedRate } => {
            next_fixed_rate(
                schedule,
                *interval,
                anchor,
                completed_ticks,
                last_finished_at,
                resume_observed,
                now,
            )
        },
        SchedulePlan::Steps { delays, repeat_last } => {
            if completed_ticks == 0 {
                return Err("BB-SCHEDULE-STEP-COUNTER-UNDERFLOW");
            }
            let step: u64 = completed_ticks - 1;
            if step > usize::MAX as u64 {
                return Err("BB-SCHEDULE-STEP-INDEX-OVERFLOW");
            }
            let index: usize = step as usize;
            let delay: Option<Duration> = if index < delays.len() {
                Some(delays[index])
            } else if *repeat_last && delays.len() > 0 {
                Some(delays[delays.len() - 1])
            } else {
                None
            };
            match delay {
                Some(delay) => due_at(
                    last_finished_at.checked_add(delay),
                    0,
                    "BB-SCHEDULE-STEP-INSTANT-OVERFLOW",
                ),
                None => Ok(None),
            }
        },
        SchedulePlan::Dynamic => {
            match answer {
                Some(delay) => due_at(
                    last_finished_at.checked_add(delay),
                    0,
                    "BB-SCHEDULE-DYNAMIC-INSTANT-OVERFLOW",
                ),
                None => Ok(None),
            }
        },
    }
}

/// One tick; ticks count from one.
#[derive(Clone, Copy, Debug)]
pub struct TickContext {
    pub tick: u64,
    pub scheduled_at: Instant,
    pub observed_missed_ticks: u64,
}

impl TickContext {
    /// The number of the tick.
    pub fn number(&self) -> (number: u64)
        ensures
            number == self.tick,
    {
        self.tick
    }

    /// When the tick was due.
    pub fn scheduled_at(&self) -> (at: Instant)
        ensures
            at == self.scheduled_at,
    {
        self.scheduled_at
    }

    /// How many ticks were missed before this one.
    pub fn observed_missed_ticks(&self) -> (count: u64)
        ensures
            count == self.observed_missed_ticks,
    {
        self.observed_missed_ticks
    }
}

/// How a tick ended.
pub enum TickRun<T, E> {
    Outcome(TickOutcome<T>),
    Failure(E),
    Exit(TaskExit<TickOutcome<T>, E>),
    Panicked { source: PanicSource, message: String },
}

/// How a tick ended that was joined.
pub open spec fn joined_tick<T, E>(
    joined: Result<Result<TickOutcome<T>, E>, JoinFailure>,
) -> TickRun<T, E> {
    match joined {
        Ok(Ok(outcome)) => TickRun::Outcome(outcome),
        Ok(Err(error)) => TickRun::Failure(error),
        Err(JoinFailure::Panicked { message: None }) => TickRun::Exit(
            TaskExit::ExecutorStopped { reason: ExecutorStopReason::InternalInvariantViolation },
        ),
        Err(JoinFailure::Panicked { message: Some(message) }) => if says_timer_unavailable(
            message@,
        ) {
            TickRun::Exit(TaskExit::Failed(TaskFailure::TimerUnavailable))
        } else {
            TickRun::Panicked { source: PanicSource::WorkFuture, message }
        },
        Err(_) => TickRun::Exit(
            TaskExit::ExecutorStopped { reason: ExecutorStopReason::RuntimeUnavailable },
        ),
    }
}

/// How a tick ended that was joined.
pub fn tick_joined<T, E>(joined: Result<Result<TickOutcome<T>, E>, JoinFailure>) -> (run: TickRun<
    T,
    E,
>)
    ensures
        run == joined_tick(joined),
        joined matches Ok(Ok(outcome)) ==> run == TickRun::<T, E>::Outcome(outcome),
        joined matches Ok(Err(error)) ==> run == TickRun::<T, E>::Failure(error),
        joined matches Err(JoinFailure::Panicked { message: Some(message) }) ==> (
        if says_timer_unavailable(message@) {
            run == TickRun::<T, E>::Exit(TaskExit::Failed(TaskFailure::TimerUnavailable))
        } else {
            run == (TickRun::<T, E>::Panicked { source: PanicSource::WorkFuture, message })
        }),
        joined matches Err(JoinFailure::Panicked { message: None }) ==> run == TickRun::<
            T,
            E,
        >::Exit(
            TaskExit::ExecutorStopped { reason: ExecutorStopReason::InternalInvariantViolation },
        ),
        joined is Err && !(joined->Err_0 is Panicked) ==> run == TickRun::<T, E>::Exit(
            TaskExit::ExecutorStopped { reason: ExecutorStopReason::RuntimeUnavailable },
        ),
{
    match joined {
        Ok(Ok(outcome)) => TickRun::Outcome(outcome),
        Ok(Err(error)) => TickRun::Failure(error),
        Err(JoinFailure::Panicked { message: None }) => TickRun::Exit(
            TaskExit::ExecutorStopped { reason: ExecutorStopReason::InternalInvariantViolation },
        ),
        Err(JoinFailure::Panicked { message: Some(message) }) => {
            if is_timer_unavailable_message(message.as_str()) {
                TickRun::Exit(TaskExit::Failed(TaskFailure::TimerUnavailable))
            } else {
                TickRun::Panicked { source: PanicSource::WorkFuture, message }
            }
        },
        Err(_) => TickRun::Exit(
            TaskExit::ExecutorStopped { reason: ExecutorStopReason::RuntimeUnavailable },
        ),
    }
}

/// How a retried tick ended.
pub fn tick_retried<T, E>(exit: TaskExit<TickOutcome<T>, E>) -> (run: TickRun<T, E>)
    ensures
        run == match exit {
            TaskExit::Completed(outcome) => TickRun::Outcome(outcome),
            _ => TickRun::Exit(exit),
        },
{
    match exit {
        TaskExit::Completed(outcome) => TickRun::Outcome(outcome),
        exit => TickRun::Exit(exit),
    }
}

/// The outcome of recurring work whose tick ended it.
pub open spec fn mapped_exit<T, E>(exit: TaskExit<TickOutcome<T>, E>) -> TaskExit<T, E> {
    match exit {
        TaskExit::Completed(TickOutcome::Stop(value)) => TaskExit::Completed(value),
        TaskExit::Completed(TickOutcome::Continue) => TaskExit::Failed(
            TaskFailure::Recurring(RecurringFailure::ScheduleEnded),
        ),
        TaskExit::Failed(failure) => TaskExit::Failed(failure),
        TaskExit::Cancelled { reason } => TaskExit::Cancelled { reason },
        TaskExit::Aborted { preceding_stop } => TaskExit::Aborted { preceding_stop },
        TaskExit::Panicked { source, message } => TaskExit::Panicked { source, message },
        TaskExit::ExecutorStopped { reason } => TaskExit::ExecutorStopped { reason },
    }
}

/// The outcome of recurring work whose tick ended it.
pub fn map_tick_exit<T, E>(exit: TaskExit<TickOutcome<T>, E>) -> (mapped: TaskExit<T, E>)
    ensures
        mapped == mapped_exit(exit),
{
    match exit {
        TaskExit::Completed(TickOutcome::Stop(value)) => TaskExit::Completed(value),
        TaskExit::Completed(TickOutcome::Continue) => {
            TaskExit::Failed(TaskFailure::Recurring(RecurringFailure::ScheduleEnded))
        },
        TaskExit::Failed(failure) => TaskExit::Failed(failure),
        TaskExit::Cancelled { reason } => TaskExit::Cancelled { reason },
        TaskExit::Aborted { preceding_stop } => TaskExit::Aborted { preceding_stop },
        TaskExit::Panicked { source, message } => TaskExit::Panicked { source, message },
        TaskExit::ExecutorStopped { reason } => TaskExit::ExecutorStopped { reason },
    }
}

/// The outcome of recurring work that was interrupted.
pub open spec fn interrupted_exit<T, E>(stop: Option<StopCauseSummary>) -> TaskExit<T, E> {
    match stop {
        Some(StopCauseSummary::Cancel(reason)) => TaskExit::Cancelled { reason },
        Some(StopCauseSummary::Deadline) => TaskExit::Failed(
            TaskFailure::DeadlineExceeded { last_error: None },
        ),
        None => TaskExit::ExecutorStopped { reason: ExecutorStopReason::RunnerCancelled },
    }
}

/// The outcome of recurring work that was interrupted.
pub fn cancelled_exit<T, E>(stop: &Option<StopCauseSummary>) -> (exit: TaskExit<T, E>)
    ensures
        exit == interrupted_exit::<T, E>(*stop),
{
    match stop {
        Some(StopCauseSummary::Cancel(reason)) => TaskExit::Cancelled { reason: reason.clone() },
        Some(StopCauseSummary::Deadline) => {
            TaskExit::Failed(TaskFailure::DeadlineExceeded { last_error: None })
        },
        None => TaskExit::ExecutorStopped { reason: ExecutorStopReason::RunnerCancelled },
    }
}

/// Whether a restart at `at` is older than the window.
pub open spec fn is_stale(at: Instant, now: nat, window: nat) -> bool {
    now > at@ + window
}

/// The restarts that still count: without those at the front that are too old.
pub open spec fn recent_restarts(restarts: Seq<Instant>, now: nat, window: nat) -> Seq<Instant>
    decreases restarts.len(),
{
    if restarts.len() > 0 && is_stale(restarts[0], now, window) {
        recent_restarts(restarts.drop_first(), now, window)
    } else {
        restarts
    }
}

/// What recurring work does after a tick.
pub enum TickStep<T, E> {
    /// End.
    Exit(TaskExit<T, E>),
    /// Schedule the next tick.
    Schedule,
    /// Wait, then schedule the next tick.
    WaitThenSchedule { delay: Duration },
    /// Wait, then make the tick again.
    WaitThenRepeat { delay: Duration },
}

/// What recurring work does once the next tick is scheduled.
pub enum ScheduleStep<T, E> {
    /// End.
    Exit(TaskExit<T, E>),
    /// Wait; a resumption ends the wait early if it is wanted.
    Wait { delay: Duration, until_resumed: bool },
}

/// How a schedule decided.
pub enum Decision {
    /// The next due time with the ticks missed up to it.
    Next { at: Instant, missed: u64 },
    /// There is no next tick.
    Ended,
    /// The next due time is out of range.
    Overflow { code: &'static str },
    /// The caller's function panicked.
    Panicked { message: String },
}

/// How a wait ended.
#[derive(Clone, Copy, Debug)]
pub enum Wake {
    /// The span passed.
    Slept,
    /// The work was resumed.
    Resumed { epoch: u64, now: Instant },
    /// The work was asked to stop.
    Interrupted,
}

/// Recurring work between two decisions.
pub struct RecurringRun {
    pub anchor: Instant,
    pub scheduled_at: Instant,
    pub tick: u64,
    pub observed_missed_ticks: u64,
    pub consecutive_failures: u32,
    pub restarts: Vec<Instant>,
    pub resume_epoch: u64,
}

impl RecurringRun {
    /// The delay before the first tick, if there is one.
    pub fn first_delay(schedule: &Schedule) -> (delay: Option<Duration>)
        ensures
            delay == if schedule.initial_delay@ == 0 {
                None
            } else {
                Some(schedule.initial_delay)
            },
    {
        if schedule.initial_delay.is_zero() {
            None
        } else {
            Some(schedule.initial_delay)
        }
    }

    /// Recurring work before its first tick, which is due now.
    pub fn new(now: Instant, resume_epoch: u64) -> (run: Self)
        ensures
            run.anchor == now,
            run.scheduled_at == now,
            run.tick == 1,
            run.observed_missed_ticks == 0,
            run.consecutive_failures == 0,
            run.restarts@ == Seq::<Instant>::empty(),
            run.resume_epoch == resume_epoch,
    {
        RecurringRun {
            anchor: now,
            scheduled_at: now,
            tick: 1,
            observed_missed_ticks: 0,
            consecutive_failures: 0,
            restarts: Vec::new(),
            resume_epoch,
        }
    }

    /// The tick to make and the attempt under which its children run, unless the work
    /// was asked to stop.
    pub fn begin<T, E>(&self, cancelled: bool, stop: &Option<StopCauseSummary>) -> (result: Result<
        (TickContext, u32),
        TaskExit<T, E>,
    >)
        ensures
            if cancelled {
                result == Err::<(TickContext, u32), TaskExit<T, E>>(
                    interrupted_exit::<T, E>(*stop),
                )
            } else {
                result == Ok::<(TickContext, u32), TaskExit<T, E>>(
                    (
                        TickContext {
                            tick: self.tick,
                            scheduled_at: self.scheduled_at,
                            observed_missed_ticks: self.observed_missed_ticks,
                        },
                        if self.tick <= u32::MAX {
                            self.tick as u32
                        } else {
                            u32::MAX
                        },
                    ),
                )
            },
    {
        if cancelled {
            return Err(cancelled_exit(stop));
        }
        let attempt: u32 = if self.tick <= u32::MAX as u64 {
            self.tick as u32
        } else {
            u32::MAX
        };
        Ok(
            (
                TickContext {
                    tick: self.tick,
                    scheduled_at: self.scheduled_at,
                    observed_missed_ticks: self.observed_missed_ticks,
                },
                attempt,
            ),
        )
    }

    fn drop_stale_restarts(&mut self, now: Instant, window: Duration)
        ensures
            *final(self) == (RecurringRun { restarts: final(self).restarts, ..*old(self) }),
            final(self).restarts@ == recent_restarts(old(self).restarts@, now@, window@),
    {
        while self.restarts.len() > 0 && now.saturating_duration_since(
            self.restarts[0],
        ).as_nanos() > window.as_nanos()
            invariant
                *self == (RecurringRun { restarts: self.restarts, ..*old(self) }),
                recent_restarts(self.restarts@, now@, window@) == recent_restarts(
                    old(self).restarts@,
                    now@,
                    window@,
                ),
            decreases self.restarts.len(),
        {
            let ghost before = self.restarts@;
            self.restarts.remove(0);
            assert(self.restarts@ =~= before.drop_first());
        }
    }

    /// Decides after a tick.
    pub fn tick_done<T, E>(
        &mut self,
        run: TickRun<T, E>,
        failure_policy: &TickFailurePolicy,
        panic_policy: &PanicPolicy,
        now: Instant,
    ) -> (step: TickStep<T, E>)
        ensures
            match run {
                TickRun::Outcome(TickOutcome::Stop(value)) => {
                    &&& step == TickStep::<T, E>::Exit(TaskExit::Completed(value))
                    &&& *final(self) == *old(self)
                },
                TickRun::Outcome(TickOutcome::Continue) => {
                    &&& step == TickStep::<T, E>::Schedule
                    &&& *final(self) == (RecurringRun { consecutive_failures: 0, ..*old(self) })
                },
                TickRun::Failure(error) => match *failure_policy {
                    TickFailurePolicy::Stop => {
                        &&& step == TickStep::<T, E>::Exit(
                            TaskExit::Failed(
                                TaskFailure::Recurring(
                                    RecurringFailure::TickFailed { tick: old(self).tick, error },
                                ),
                            ),
                        )
                        &&& *final(self) == *old(self)
                    },
                    TickFailurePolicy::Continue { max_consecutive_failures, delay } => if old(
                        self,
                    ).consecutive_failures == u32::MAX {
                        &&& step matches TickStep::Exit(
                            TaskExit::Failed(
                                TaskFailure::Recurring(
                                    RecurringFailure::CounterOverflow { counter },
                                ),
                            ),
                        )
                        &&& counter@ == "consecutive_failures"@
                        &&& *final(self) == *old(self)
                    } else {
                        &&& *final(self) == (RecurringRun {
                            consecutive_failures: (old(self).consecutive_failures + 1) as u32,
                            ..*old(self)
                        })
                        &&& step == if old(self).consecutive_failures + 1
                            > max_consecutive_failures {
                            TickStep::<T, E>::Exit(
                                TaskExit::Failed(
                                    TaskFailure::Recurring(
                                        RecurringFailure::ConsecutiveFailuresExceeded {
                                            tick: old(self).tick,
                                            error,
                                        },
                                    ),
                                ),
                            )
                        } else {
                            TickStep::WaitThenSchedule { delay }
                        }
                    },
                },
                TickRun::Exit(exit) => {
                    &&& step == TickStep::<T, E>::Exit(mapped_exit(exit))
                    &&& *final(self) == *old(self)
                },
                TickRun::Panicked { source, message } => match *panic_policy {
                    PanicPolicy::Stop => {
                        &&& step == TickStep::<T, E>::Exit(TaskExit::Panicked { source, message })
                        &&& *final(self) == *old(self)
                    },
                    PanicPolicy::Restart(policy) => {
                        let recent = recent_restarts(old(self).restarts@, now@, policy.window@);
                        &&& *final(self) == (RecurringRun {
                            restarts: final(self).restarts,
                            ..*old(self)
                        })
                        &&& if recent.len() >= policy.max_restarts {
                            &&& step == TickStep::<T, E>::Exit(
                                TaskExit::Failed(
                                    TaskFailure::Recurring(RecurringFailure::RestartLimitExceeded),
                                ),
                            )
                            &&& final(self).restarts@ == recent
                        } else {
                            &&& step == (TickStep::<T, E>::WaitThenRepeat {
                                delay: policy.backoff,
                            })
                            &&& final(self).restarts@ == recent.push(now)
                        }
                    },
                },
            },
    {
        match run {
            TickRun::Outcome(TickOutcome::Stop(value)) => TickStep::Exit(
                TaskExit::Completed(value),
            ),
            TickRun::Outcome(TickOutcome::Continue) => {
                self.consecutive_failures = 0;
                TickStep::Schedule
            },
            TickRun::Failure(error) => {
                match failure_policy {
                    TickFailurePolicy::Stop => TickStep::Exit(
                        TaskExit::Failed(
                            TaskFailure::Recurring(
                                RecurringFailure::TickFailed { tick: self.tick, error },
                            ),
                        ),
                    ),
                    TickFailurePolicy::Continue { max_consecutive_failures, delay } => {
                        if self.consecutive_failures == u32::MAX {
                            return TickStep::Exit(
                                TaskExit::Failed(
                                    TaskFailure::Recurring(
                                        RecurringFailure::CounterOverflow {
                                            counter: "consecutive_failures",
                                        },
                                    ),
                                ),
                            );
                        }
                        self.consecutive_failures = self.consecutive_failures + 1;
                        if self.consecutive_failures > *max_consecutive_failures {
                            return TickStep::Exit(
                                TaskExit::Failed(
                                    TaskFailure::Recurring(
                                        RecurringFailure::ConsecutiveFailuresExceeded {
                                            tick: self.tick,
                                            error,
                                        },
                                    ),
                                ),
                            );
                        }
                        TickStep::WaitThenSchedule { delay: *delay }
                    },
                }
            },
            TickRun::Exit(exit) => TickStep::Exit(map_tick_exit(exit)),
            TickRun::Panicked { source, message } => {
                match panic_policy {
                    PanicPolicy::Stop => TickStep::Exit(TaskExit::Panicked { source, message }),
                    PanicPolicy::Restart(policy) => {
                        self.drop_stale_restarts(now, policy.window);
                        if self.restarts.len() as u64 >= policy.max_restarts as u64 {
                            return TickStep::Exit(
                                TaskExit::Failed(
                                    TaskFailure::Recurring(RecurringFailure::RestartLimitExceeded),
                                ),
                            );
                        }
                        self.restarts.push(now);
                        TickStep::WaitThenRepeat { delay: policy.backoff }
                    },
                }
            },
        }
    }

    /// Whether the work was resumed since the last look, and what a schedule is told
    /// about the tick that ended at `finished_at`.
    pub fn look(&mut self, finished_at: Instant, current_epoch: u64) -> (context:
        ScheduleDecisionContext)
        ensures
            *final(self) == (RecurringRun { resume_epoch: current_epoch, ..*old(self) }),
            context == (ScheduleDecisionContext {
                completed_ticks: old(self).tick,
                last_started_at: old(self).scheduled_at,
                last_finished_at: finished_at,
                observed_missed_ticks: old(self).observed_missed_ticks,
                resume_observed: current_epoch != old(self).resume_epoch,
            }),
    {
        let resume_observed: bool = current_epoch != self.resume_epoch;
        self.resume_epoch = current_epoch;
        ScheduleDecisionContext {
            completed_ticks: self.tick,
            last_started_at: self.scheduled_at,
            last_finished_at: finished_at,
            observed_missed_ticks: self.observed_missed_ticks,
            resume_observed,
        }
    }

    /// Whether the caller's function is asked when the next tick is due.
    pub fn asks(schedule: &Schedule, context: &ScheduleDecisionContext) -> (asks: bool)
        ensures
            asks == (schedule.plan is Dynamic && !(context.resume_observed
                && schedule.resume_policy == ResumePolicy::RunImmediately)),
    {
        let dynamic: bool = match &schedule.plan {
            SchedulePlan::Dynamic => true,
            _ => false,
        };
        dynamic && !(context.resume_observed && schedule.resume_policy
            == ResumePolicy::RunImmediately)
    }

    /// How a schedule without a function of the caller's decides, or how it decides on
    /// what that function says.
    pub fn decide(
        &self,
        schedule: &Schedule,
        context: &ScheduleDecisionContext,
        now: Instant,
        answer: Option<Duration>,
    ) -> (decision: Decision)
        ensures
            match target_after(
                *schedule,
                self.anchor@,
                context.completed_ticks as nat,
                context.last_finished_at@,
                context.resume_observed,
                now@,
                answer,
            ) {
                Ok(Some((target, count))) => {
                    &&& decision matches Decision::Next { at, missed }
                    &&& at@ == target
                    &&& missed == count
                },
                Ok(None) => decision is Ended,
                Err(text) => {
                    &&& decision matches Decision::Overflow { code }
                    &&& code@ == text
                },
            },
    {
        match next_target(
            schedule,
            self.anchor,
            context.completed_ticks,
            context.last_finished_at,
            context.resume_observed,
            now,
            answer,
        ) {
            Ok(Some((at, missed))) => Decision::Next { at, missed },
            Ok(None) => Decision::Ended,
            Err(code) => Decision::Overflow { code },
        }
    }

    /// The wait for a tick that is due at `target`, before jitter.
    pub fn wait_for(target: Instant, now: Instant) -> (delay: Duration)
        ensures
            delay@ == if now@ <= target@ {
                (target@ - now@) as nat
            } else {
                0
            },
    {
        target.saturating_duration_since(now)
    }

    /// Schedules the next tick. `jittered` is the wait after jitter, where there is
    /// jitter; a wait that could not be computed is out of range.
    pub fn schedule_next<T, E>(
        &mut self,
        decision: Decision,
        schedule: &Schedule,
        now: Instant,
        jittered: Option<Duration>,
    ) -> (step: ScheduleStep<T, E>)
        ensures
            match decision {
                Decision::Ended => {
                    &&& step == ScheduleStep::<T, E>::Exit(
                        TaskExit::Failed(TaskFailure::Recurring(RecurringFailure::ScheduleEnded)),
                    )
                    &&& *final(self) == *old(self)
                },
                Decision::Overflow { code } => {
                    &&& step == ScheduleStep::<T, E>::Exit(
                        TaskExit::Failed(
                            TaskFailure::Recurring(RecurringFailure::ScheduleOverflow { code }),
                        ),
                    )
                    &&& *final(self) == *old(self)
                },
                Decision::Panicked { message } => {
                    &&& step == ScheduleStep::<T, E>::Exit(
                        panic_outcome::<T, E>(PanicSource::Schedule, message),
                    )
                    &&& *final(self) == *old(self)
                },
                Decision::Next { at, missed } => {
                    &&& *final(self) == (RecurringRun {
                        observed_missed_ticks: missed,
                        scheduled_at: final(self).scheduled_at,
                        ..*old(self)
                    })
                    &&& match (schedule.jitter_valid, jittered) {
                        (None, _) => {
                            &&& final(self).scheduled_at == at
                            &&& step matches ScheduleStep::Wait { delay, until_resumed }
                            &&& delay@ == if now@ <= at@ {
                                (at@ - now@) as nat
                            } else {
                                0
                            }
                            &&& until_resumed == (schedule.resume_policy
                                == ResumePolicy::RunImmediately && delay@ != 0)
                        },
                        (Some(_), None) => {
                            &&& final(self).scheduled_at == old(self).scheduled_at
                            &&& step matches ScheduleStep::Exit(
                                TaskExit::Panicked { source, message },
                            )
                            &&& source == PanicSource::Schedule
                            &&& message@ == "schedule jitter overflow"@
                        },
                        (Some(_), Some(delay)) => if now@ + delay@ > MAX_NANOS {
                            &&& final(self).scheduled_at == old(self).scheduled_at
                            &&& step matches ScheduleStep::Exit(
                                TaskExit::Panicked { source, message },
                            )
                            &&& source == PanicSource::Schedule
                            &&& message@ == "schedule jitter Instant overflow"@
                        } else {
                            &&& final(self).scheduled_at@ == now@ + delay@
                            &&& step == (ScheduleStep::<T, E>::Wait {
                                delay,
                                until_resumed: schedule.resume_policy
                                    == ResumePolicy::RunImmediately && delay@ != 0,
                            })
                        },
                    }
                },
            },
    {
        let (at, missed): (Instant, u64) = match decision {
            Decision::Next { at, missed } => (at, missed),
            Decision::Ended => {
                return ScheduleStep::Exit(
                    TaskExit::Failed(TaskFailure::Recurring(RecurringFailure::ScheduleEnded)),
                );
            },
            Decision::Overflow { code } => {
                return ScheduleStep::Exit(
                    TaskExit::Failed(
                        TaskFailure::Recurring(RecurringFailure::ScheduleOverflow { code }),
                    ),
                );
            },
            Decision::Panicked { message } => {
                return ScheduleStep::Exit(panic_exit(PanicSource::Schedule, message));
            },
        };
        self.observed_missed_ticks = missed;
        let mut delay: Duration = RecurringRun::wait_for(at, now);
        if schedule.jitter_valid.is_some() {
            delay =
            match jittered {
                Some(jittered) => jittered,
                None => {
                    return ScheduleStep::Exit(
                        TaskExit::Panicked {
                            source: PanicSource::Schedule,
                            message: String::from_str("schedule jitter overflow"),
                        },
                    );
                },
            };
            match now.checked_add(delay) {
                Some(jittered_target) => {
                    self.scheduled_at = jittered_target;
                },
                None => {
                    return ScheduleStep::Exit(
                        TaskExit::Panicked {
                            source: PanicSource::Schedule,
                            message: String::from_str("schedule jitter Instant overflow"),
                        },
                    );
                },
            }
        } else {
            self.scheduled_at = at;
        }
        let until_resumed: bool = schedule.resume_policy == ResumePolicy::RunImmediately
            && !delay.is_zero();
        ScheduleStep::Wait { delay, until_resumed }
    }

    /// Goes on to the next tick after the wait for it, or ends.
    pub fn woken<T, E>(&mut self, wake: Wake, stop: &Option<StopCauseSummary>) -> (exit: Option<
        TaskExit<T, E>,
    >)
        ensures
            match wake {
                Wake::Interrupted => {
                    &&& exit == Some(interrupted_exit::<T, E>(*stop))
                    &&& *final(self) == *old(self)
                },
                _ => {
                    &&& exit is None <==> old(self).tick < u64::MAX
                    &&& exit is Some ==> {
                        &&& exit->0 matches TaskExit::Failed(
                            TaskFailure::Recurring(RecurringFailure::CounterOverflow { counter }),
                        )
                        &&& counter@ == "tick"@
                    }
                    &&& final(self).tick == if old(self).tick < u64::MAX {
                        old(self).tick + 1
                    } else {
                        old(self).tick as int
                    }
                    &&& *final(self) == match wake {
                        Wake::Resumed { epoch, now } => RecurringRun {
                            resume_epoch: epoch,
                            scheduled_at: now,
                            observed_missed_ticks: 0,
                            tick: final(self).tick,
                            ..*old(self)
                        },
                        _ => RecurringRun { tick: final(self).tick, ..*old(self) },
                    }
                },
            },
    {
        match wake {
            Wake::Interrupted => {
                return Some(cancelled_exit(stop));
            },
            Wake::Resumed { epoch, now } => {
                self.resume_epoch = epoch;
                self.scheduled_at = now;
                self.observed_missed_ticks = 0;
            },
            Wake::Slept => {},
        }
        if self.tick == u64::MAX {
            return Some(
                TaskExit::Failed(
                    TaskFailure::Recurring(RecurringFailure::CounterOverflow { counter: "tick" }),
                ),
            );
        }
        self.tick = self.tick + 1;
        None
    }
}

/// Ticks at a fixed rate stay on the grid of the first tick, whether ticks are missed or
/// not, unless a missed tick is put off.
pub proof fn lemma_fixed_rate_stays_on_grid(
    schedule: Schedule,
    interval: nat,
    anchor: nat,
    completed: nat,
    finished: nat,
    resumed: bool,
    now: nat,
)
    requires
        interval > 0,
        schedule.missed_tick_policy != MissedTickPolicy::Delay,
    ensures
        fixed_rate_target(
            schedule,
            interval,
            anchor,
            completed,
            finished,
            resumed,
            now,
        ) matches Ok(Some((at, missed))) ==> at >= anchor && (at - anchor) % interval as int == 0,
{
    let target = anchor + interval * completed;
    let skipped = ((now - target) as nat / interval + 1) as nat;
    assert((interval * completed) % interval == 0) by (nonlinear_arith)
        requires
            interval > 0,
    ;
    assert(interval * completed + interval * skipped == interval * (completed + skipped))
        by (nonlinear_arith);
    assert((interval * (completed + skipped)) % interval == 0) by (nonlinear_arith)
        requires
            interval > 0,
    ;
}

/// Where missed ticks are left out, the next tick is the first one on the grid after now.
pub proof fn lemma_skipping_finds_the_next_tick(
    schedule: Schedule,
    interval: nat,
    anchor: nat,
    completed: nat,
    finished: nat,
    resumed: bool,
    now: nat,
)
    requires
        interval > 0,
        schedule.missed_tick_policy == MissedTickPolicy::Skip,
    ensures
        fixed_rate_target(
            schedule,
            interval,
            anchor,
            completed,
            finished,
            resumed,
            now,
        ) matches Ok(Some((at, missed))) ==> {
            &&& at > now
            &&& missed > 0 ==> at <= now + interval
            &&& at == anchor + interval * (completed + missed)
        },
{
    let target = anchor + interval * completed;
    if target <= now {
        let behind = (now - target) as nat;
        let skipped = (behind / interval + 1) as nat;
        assert(behind < interval * skipped <= behind + interval) by (nonlinear_arith)
            requires
                interval > 0,
                skipped == behind / interval + 1,
        ;
        assert(interval * completed + interval * skipped == interval * (completed + skipped))
            by (nonlinear_arith);
    }
}

/// Restarts in the order of time.
pub open spec fn in_order(restarts: Seq<Instant>) -> bool {
    forall|i: int, j: int| 0 <= i <= j < restarts.len() ==> restarts[i]@ <= restarts[j]@
}

/// The restarts that count are those within the window: what is left out is older, what
/// is kept is not.
pub proof fn lemma_recent_restarts(restarts: Seq<Instant>, now: nat, window: nat)
    requires
        in_order(restarts),
    ensures
        ({
            let recent = recent_restarts(restarts, now, window);
            let dropped = restarts.len() - recent.len();
            &&& 0 <= dropped
            &&& recent == restarts.skip(dropped)
            &&& forall|i: int| 0 <= i < dropped ==> is_stale(#[trigger] restarts[i], now, window)
            &&& forall|i: int|
                dropped <= i < restarts.len() ==> !is_stale(#[trigger] restarts[i], now, window)
        }),
    decreases restarts.len(),
{
    if restarts.len() > 0 && is_stale(restarts[0], now, window) {
        let rest = restarts.drop_first();
        lemma_recent_restarts(rest, now, window);
        let recent = recent_restarts(rest, now, window);
        let dropped = rest.len() - recent.len();
        assert(restarts.skip(dropped + 1) =~= rest.skip(dropped));
        assert forall|i: int| 0 <= i < dropped + 1 implies is_stale(
            #[trigger] restarts[i],
            now,
            window,
        ) by {
            if i > 0 {
                assert(rest[i - 1] == restarts[i]);
            }
        }
        assert forall|i: int| dropped + 1 <= i < restarts.len() implies !is_stale(
            #[trigger] restarts[i],
            now,
            window,
        ) by {
            assert(rest[i - 1] == restarts[i]);
        }
    } else {
        assert(restarts.skip(0) =~= restarts);
    }
}

/// There are never more restarts on record than the policy permits.
pub proof fn lemma_restarts_are_bounded(
    restarts: Seq<Instant>,
    now: Instant,
    policy: RestartPolicy,
)
    requires
        in_order(restarts),
        restarts.len() <= policy.max_restarts,
    ensures
        ({
            let recent = recent_restarts(restarts, now@, policy.window@);
            &&& recent.len() <= policy.max_restarts
            &&& recent.len() < policy.max_restarts ==> recent.push(now).len()
                <= policy.max_restarts
        }),
{
    lemma_recent_restarts(restarts, now@, policy.window@);
}

/// After tick k of a schedule of steps the next tick is due at the end of that tick plus the
/// k-th delay. Two schedules of steps that agree in the k-th delay give the same tick, and
/// ones that differ there do not.
pub proof fn lemma_step_k_takes_the_kth_delay(
    schedule: Schedule,
    other: Schedule,
    anchor: nat,
    k: nat,
    finished: nat,
    resumed: bool,
    now: nat,
    answer: Option<Duration>,
)
    requires
        schedule.plan is Steps,
        other.plan is Steps,
        1 <= k <= schedule.plan->delays.len(),
        k <= other.plan->delays.len(),
        schedule.resume_policy == other.resume_policy,
        !(resumed && schedule.resume_policy == ResumePolicy::RunImmediately),
        finished + schedule.plan->delays@[k - 1]@ <= MAX_NANOS,
        finished + other.plan->delays@[k - 1]@ <= MAX_NANOS,
    ensures
        target_after(schedule, anchor, k, finished, resumed, now, answer) == Ok::<
            Option<(nat, nat)>,
            Seq<char>,
        >(Some((finished + schedule.plan->delays@[k - 1]@, 0))),
        schedule.plan->delays@[k - 1]@ == other.plan->delays@[k - 1]@ <==> target_after(
            schedule,
            anchor,
            k,
            finished,
            resumed,
            now,
            answer,
        ) == target_after(other, anchor, k, finished, resumed, now, answer),
{
    let one = target_after(schedule, anchor, k, finished, resumed, now, answer);
    let two = target_after(other, anchor, k, finished, resumed, now, answer);
    assert(one->Ok_0->0 == (finished + schedule.plan->delays@[k - 1]@, 0nat));
    assert(two->Ok_0->0 == (finished + other.plan->delays@[k - 1]@, 0nat));
    if one == two {
        assert(one->Ok_0->0 == two->Ok_0->0);
        assert((one->Ok_0->0).0 == (two->Ok_0->0).0);
    }
}

/// Past its delays a schedule of steps ends, unless it repeats the last delay: then every
/// further tick follows by that one.
pub proof fn lemma_past_the_steps(
    schedule: Schedule,
    anchor: nat,
    k: nat,
    finished: nat,
    now: nat,
    answer: Option<Duration>,
)
    requires
        schedule.plan is Steps,
        schedule.plan->delays.len() < k <= usize::MAX,
    ensures
        !schedule.plan->repeat_last ==> target_after(
            schedule,
            anchor,
            k,
            finished,
            false,
            now,
            answer,
        ) == Ok::<Option<(nat, nat)>, Seq<char>>(None),
        schedule.plan->repeat_last && schedule.plan->delays.len() > 0 && finished
            + schedule.plan->delays@[schedule.plan->delays.len() - 1]@ <= MAX_NANOS
            ==> target_after(schedule, anchor, k, finished, false, now, answer) == Ok::<
            Option<(nat, nat)>,
            Seq<char>,
        >(
            Some(
                (
                    finished + schedule.plan->delays@[schedule.plan->delays.len() - 1]@,
                    0,
                ),
            ),
        ),
{
}

/// With a fixed delay the next tick is due one interval after the end of the previous one,
/// wherever the first tick was and however late it is. It misses none.
pub proof fn lemma_fixed_delay_counts_from_the_end(
    schedule: Schedule,
    interval: Duration,
    anchor: nat,
    completed: nat,
    finished: nat,
    now: nat,
    answer: Option<Duration>,
)
    requires
        schedule.plan == (SchedulePlan::Fixed { interval, mode: ScheduleMode::FixedDelay }),
    ensures
        finished + interval@ <= MAX_NANOS ==> target_after(
            schedule,
            anchor,
            completed,
            finished,
            false,
            now,
            answer,
        ) == Ok::<Option<(nat, nat)>, Seq<char>>(Some((finished + interval@, 0))),
        finished + interval@ > MAX_NANOS ==> target_after(
            schedule,
            anchor,
            completed,
            finished,
            false,
            now,
            answer,
        ) is Err,
{
}

/// At a fixed rate, tick k + 1 is due k intervals after the first one. If that has passed, a
/// burst runs it all the same and counts it as missed, and a delay puts it off to one
/// interval after the end of the previous tick.
pub proof fn lemma_fixed_rate_counts_from_the_first_tick(
    schedule: Schedule,
    interval: Duration,
    anchor: nat,
    k: nat,
    finished: nat,
    now: nat,
    answer: Option<Duration>,
)
    requires
        schedule.plan == (SchedulePlan::Fixed { interval, mode: ScheduleMode::FixedRate }),
        anchor + interval@ * k <= MAX_NANOS,
    ensures
        ({
            let target = target_after(schedule, anchor, k, finished, false, now, answer);
            let tick = anchor + interval@ * k;
            &&& now < tick ==> target == Ok::<Option<(nat, nat)>, Seq<char>>(Some((tick, 0)))
            &&& tick <= now && interval@ == 0 ==> target == Ok::<Option<(nat, nat)>, Seq<char>>(
                Some((now, 0)),
            )
            &&& tick <= now && interval@ > 0 && schedule.missed_tick_policy
                == MissedTickPolicy::Burst ==> target == Ok::<Option<(nat, nat)>, Seq<char>>(
                Some((tick, 1)),
            )
            &&& tick <= now && interval@ > 0 && schedule.missed_tick_policy
                == MissedTickPolicy::Delay && finished + interval@ <= MAX_NANOS ==> target == Ok::<
                Option<(nat, nat)>,
                Seq<char>,
            >(Some((finished + interval@, 1)))
        }),
{
    assert(interval@ * k <= MAX_NANOS && MAX_NANOS <= u128::MAX);
}

/// Where missed ticks are left out, the next tick succeeds wherever it is in range, and as
/// many ticks are reported missed as lie between. A resumption that leaves them out does so
/// whatever the policy.
pub proof fn lemma_skipped_ticks_are_counted(
    schedule: Schedule,
    interval: nat,
    anchor: nat,
    k: nat,
    finished: nat,
    resumed: bool,
    now: nat,
)
    requires
        interval > 0,
        anchor + interval * k <= now,
        now + interval <= MAX_NANOS,
        now < anchor + interval * k + interval * 0xffff_ffff_ffff_ffff,
        schedule.missed_tick_policy == MissedTickPolicy::Skip || (resumed
            && schedule.resume_policy == ResumePolicy::SkipMissed),
    ensures
        fixed_rate_target(
            schedule,
            interval,
            anchor,
            k,
            finished,
            resumed,
            now,
        ) matches Ok(Some((at, missed))) && {
            &&& now < at <= now + interval
            &&& missed >= 1
            &&& at == anchor + interval * (k + missed)
        },
{
    let target = anchor + interval * k;
    let behind = (now - target) as nat;
    let skipped = (behind / interval + 1) as nat;
    assert(behind < interval * skipped <= behind + interval && skipped
        <= 0xffff_ffff_ffff_ffff) by (nonlinear_arith)
        requires
            interval > 0,
            skipped == behind / interval + 1,
            behind < interval * 0xffff_ffff_ffff_ffff,
    ;
    assert(interval * k + interval * skipped == interval * (k + skipped)) by (nonlinear_arith);
    assert(interval * k <= MAX_NANOS && MAX_NANOS <= u128::MAX);
}

/// A resumption that wants the next tick at once makes it due now, whatever the schedule is.
/// Of any other one, only a fixed rate takes notice.
pub proof fn lemma_resumption_runs_at_once(
    schedule: Schedule,
    anchor: nat,
    completed: nat,
    finished: nat,
    now: nat,
    answer: Option<Duration>,
)
    ensures
        schedule.resume_policy == ResumePolicy::RunImmediately ==> target_after(
            schedule,
            anchor,
            completed,
            finished,
            true,
            now,
            answer,
        ) == Ok::<Option<(nat, nat)>, Seq<char>>(Some((now, 0))),
        schedule.resume_policy == ResumePolicy::Continue ==> target_after(
            schedule,
            anchor,
            completed,
            finished,
            true,
            now,
            answer,
        ) == target_after(schedule, anchor, completed, finished, false, now, answer),
{
}

/// A dynamic schedule goes on after the span that the caller's function says, from the end of
/// the tick, and ends where it says none.
pub proof fn lemma_dynamic_follows_the_answer(
    schedule: Schedule,
    anchor: nat,
    completed: nat,
    finished: nat,
    now: nat,
    answer: Option<Duration>,
)
    requires
        schedule.plan is Dynamic,
    ensures
        answer is None ==> target_after(schedule, anchor, completed, finished, false, now, answer)
            == Ok::<Option<(nat, nat)>, Seq<char>>(None),
        answer matches Some(delay) ==> (finished + delay@ <= MAX_NANOS ==> target_after(
            schedule,
            anchor,
            completed,
            finished,
            false,
            now,
            answer,
        ) == Ok::<Option<(nat, nat)>, Seq<char>>(Some((finished + delay@, 0)))),
{
}

/// What follows a tick is given as it is: the due time, the count of missed ticks, the end,
/// or the code.
pub proof fn lemma_targets_are_given_as_they_are(
    result: Result<Option<(Instant, u64)>, &'static str>,
    at: nat,
    missed: nat,
)
    ensures
        target_view(result) == Ok::<Option<(nat, nat)>, Seq<char>>(Some((at, missed))) <==> {
            &&& result matches Ok(Some(target))
            &&& target.0@ == at
            &&& target.1 == missed
        },
        target_view(result) == Ok::<Option<(nat, nat)>, Seq<char>>(None) <==> result == Ok::<
            Option<(Instant, u64)>,
            &'static str,
        >(None),
        result matches Err(code) ==> target_view(result) == Err::<Option<(nat, nat)>, Seq<char>>(
            code@,
        ),
{
    if let Ok(Some(target)) = result {
        assert(target_view(result)->Ok_0->0 == (target.0@, target.1 as nat));
        if target_view(result) == Ok::<Option<(nat, nat)>, Seq<char>>(Some((at, missed))) {
            assert(target_view(result)->Ok_0->0 == (at, missed));
            assert((target_view(result)->Ok_0->0).0 == at);
        }
    }
}

/// A tick that was joined is what it returned: a decision, or its very error. A panic is one
/// of the work, unless it says that there is no timer.
pub proof fn lemma_joined_ticks_keep_what_they_returned<T, E>(
    joined: Result<Result<TickOutcome<T>, E>, JoinFailure>,
)
    ensures
        joined matches Ok(Ok(outcome)) ==> joined_tick(joined) == TickRun::<T, E>::Outcome(outcome),
        joined matches Ok(Err(error)) ==> joined_tick(joined) == TickRun::<T, E>::Failure(error),
        joined is Err ==> joined_tick(joined) is Exit || joined_tick(joined) is Panicked,
        joined_tick(joined) matches TickRun::Panicked { source, message } ==> {
            &&& source is WorkFuture
            &&& joined == Err::<Result<TickOutcome<T>, E>, JoinFailure>(
                JoinFailure::Panicked { message: Some(message) },
            )
        },
{
}

/// A retried tick that ended without a decision ends the work as it ended; a decision to stop
/// completes it, and one to go on has nothing to go on to.
pub proof fn lemma_tick_exits_are_kept<T, E>(exit: TaskExit<TickOutcome<T>, E>)
    ensures
        exit matches TaskExit::Completed(TickOutcome::Stop(value)) ==> mapped_exit(exit)
            == TaskExit::<T, E>::Completed(value),
        exit matches TaskExit::Completed(TickOutcome::Continue) ==> mapped_exit(exit)
            == TaskExit::<T, E>::Failed(TaskFailure::Recurring(RecurringFailure::ScheduleEnded)),
        exit matches TaskExit::Failed(failure) ==> mapped_exit(exit) == TaskExit::<T, E>::Failed(
            failure,
        ),
        exit matches TaskExit::Cancelled { reason } ==> mapped_exit(exit) == (TaskExit::<
            T,
            E,
        >::Cancelled { reason }),
        exit matches TaskExit::Aborted { preceding_stop } ==> mapped_exit(exit) == (TaskExit::<
            T,
            E,
        >::Aborted { preceding_stop }),
        exit matches TaskExit::Panicked { source, message } ==> mapped_exit(exit) == (TaskExit::<
            T,
            E,
        >::Panicked { source, message }),
        exit matches TaskExit::ExecutorStopped { reason } ==> mapped_exit(exit) == (TaskExit::<
            T,
            E,
        >::ExecutorStopped { reason }),
{
}

/// Interrupted work ends as it was asked to: cancelled with the reason, or past its deadline.
/// Without a request its runner went away.
pub proof fn lemma_interruption_names_the_exit<T, E>(stop: Option<StopCauseSummary>)
    ensures
        stop matches Some(StopCauseSummary::Cancel(reason)) ==> interrupted_exit::<T, E>(stop) == (
        TaskExit::<T, E>::Cancelled { reason }),
        stop matches Some(StopCauseSummary::Deadline) ==> interrupted_exit::<T, E>(stop)
            == TaskExit::<T, E>::Failed(TaskFailure::DeadlineExceeded { last_error: None }),
        stop is None ==> interrupted_exit::<T, E>(stop) == (TaskExit::<T, E>::ExecutorStopped {
            reason: ExecutorStopReason::RunnerCancelled,
        }),
{
}

/// A restart counts as long as it lies no further back than the window: one that is younger
/// than another that counts does too.
pub proof fn lemma_restarts_within_the_window_count(
    restarts: Seq<Instant>,
    now: nat,
    window: nat,
    i: int,
)
    requires
        in_order(restarts),
        0 <= i < restarts.len(),
    ensures
        ({
            let recent = recent_restarts(restarts, now, window);
            now <= restarts[i]@ + window <==> i >= restarts.len() - recent.len()
        }),
        ({
            let recent = recent_restarts(restarts, now, window);
            &&& recent.len() <= restarts.len()
            &&& i >= restarts.len() - recent.len() ==> recent[i - (restarts.len() - recent.len())]
                == restarts[i]
        }),
{
    lemma_recent_restarts(restarts, now, window);
    let recent = recent_restarts(restarts, now, window);
    let dropped = restarts.len() - recent.len();
    assert(is_stale(restarts[i], now, window) || !is_stale(restarts[i], now, window));
    if i < dropped {
        assert(is_stale(restarts[i], now, window));
    } else {
        assert(!is_stale(restarts[i], now, window));
    }
}

/// A schedule begins without a delay, leaves missed ticks out, takes no notice of a
/// resumption and has no jitter.
pub proof fn lemma_schedule_defaults(schedule: Schedule, plan: SchedulePlan)
    ensures
        schedule.of_plan(plan) <==> {
            &&& schedule.initial_delay@ == 0
            &&& schedule.plan == plan
            &&& schedule.missed_tick_policy == MissedTickPolicy::Skip
            &&& schedule.resume_policy == ResumePolicy::Continue
            &&& schedule.jitter_valid is None
        },
{
}

/// Recurring work ticks a second after the end of the previous tick, and failures and panics
/// end it, unless it is told otherwise.
pub proof fn lemma_recurring_defaults<F, P>(
    builder: RecurringBuilder<F, P>,
    operation: RecurringOperation<F, P>,
)
    requires
        builder.of_operation(operation),
    ensures
        builder.operation == operation,
        builder.schedule.plan matches SchedulePlan::Fixed { interval, mode } && interval@
            == 1_000_000_000 && mode == ScheduleMode::FixedDelay,
        builder.schedule.initial_delay@ == 0,
        builder.schedule.missed_tick_policy == MissedTickPolicy::Skip,
        builder.schedule.resume_policy == ResumePolicy::Continue,
        builder.schedule.jitter_valid is None,
        builder.failure_policy == TickFailurePolicy::Stop,
        builder.panic_policy == PanicPolicy::Stop,
        builder.tag is None,
        builder.abort_policy == AbortPolicy::CooperativeOnly,
{
}

/// Recurring work is accepted exactly if its steps are not empty, its budgets and its window
/// are not zero, its jitter is valid and its first tick is in range.
pub proof fn lemma_which_recurring_work_is_valid<F, P>(builder: RecurringBuilder<F, P>, now: nat)
    ensures
        builder.build_error(now) is None <==> {
            &&& builder.schedule.plan matches SchedulePlan::Steps { delays, .. } ==> delays.len()
                > 0
            &&& builder.failure_policy matches TickFailurePolicy::Continue {
                max_consecutive_failures,
                ..
            } ==> max_consecutive_failures > 0
            &&& builder.panic_policy matches PanicPolicy::Restart(policy) ==> policy.max_restarts
                > 0 && policy.window@ > 0
            &&& builder.schedule.jitter_valid != Some(false)
            &&& now + builder.schedule.initial_delay@ <= MAX_NANOS
        },
        builder.build_error(now) == Some(RecurringBuildError::EmptySchedule) <==> {
            &&& builder.schedule.plan matches SchedulePlan::Steps { delays, .. }
            &&& delays.len() == 0
        },
        builder.build_error(now) == Some(RecurringBuildError::DurationOverflow) ==> now
            + builder.schedule.initial_delay@ > MAX_NANOS,
        builder.build_error(now) == Some(RecurringBuildError::InvalidJitterRatio)
            ==> builder.schedule.jitter_valid == Some(false),
        builder.build_error(now) == Some(RecurringBuildError::ZeroFailureBudget)
            ==> builder.failure_policy is Continue
            && builder.failure_policy->max_consecutive_failures == 0,
        builder.build_error(now) == Some(RecurringBuildError::ZeroRestartBudget)
            ==> builder.panic_policy is Restart && builder.panic_policy->0.max_restarts == 0,
        builder.build_error(now) == Some(RecurringBuildError::ZeroRestartWindow)
            ==> builder.panic_policy is Restart && builder.panic_policy->0.window@ == 0,
{
}

/// A next tick that is out of range is an error, and its code says which kind of schedule it
/// was; so is a schedule of steps that is asked before its first tick.
pub proof fn lemma_overflows_are_told(
    schedule: Schedule,
    anchor: nat,
    completed: nat,
    finished: nat,
    now: nat,
    answer: Option<Duration>,
)
    ensures
        ({
            let target = target_after(schedule, anchor, completed, finished, false, now, answer);
            &&& schedule.plan matches SchedulePlan::Fixed { interval, mode } ==> {
                &&& mode == ScheduleMode::FixedDelay && finished + interval@ > MAX_NANOS ==> target
                    == Err::<Option<(nat, nat)>, Seq<char>>("BB-SCHEDULE-FIXED-DELAY-OVERFLOW"@)
                &&& mode == ScheduleMode::FixedRate && interval@ * completed <= MAX_NANOS && anchor
                    + interval@ * completed > MAX_NANOS ==> target == Err::<
                    Option<(nat, nat)>,
                    Seq<char>,
                >("BB-SCHEDULE-FIXED-RATE-INSTANT-OVERFLOW"@)
            }
            &&& schedule.plan matches SchedulePlan::Steps { delays, repeat_last } ==> {
                &&& completed == 0 ==> target == Err::<Option<(nat, nat)>, Seq<char>>(
                    "BB-SCHEDULE-STEP-COUNTER-UNDERFLOW"@,
                )
                &&& 1 <= completed <= delays.len() && finished + delays@[completed - 1]@
                    > MAX_NANOS ==> target == Err::<Option<(nat, nat)>, Seq<char>>(
                    "BB-SCHEDULE-STEP-INSTANT-OVERFLOW"@,
                )
            }
            &&& schedule.plan is Dynamic && answer is Some && finished + answer->0@ > MAX_NANOS
                ==> target == Err::<Option<(nat, nat)>, Seq<char>>(
                "BB-SCHEDULE-DYNAMIC-INSTANT-OVERFLOW"@,
            )
        }),
{
}

} // verus!
