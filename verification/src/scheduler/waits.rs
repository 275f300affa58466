//! The waits of a run: for permits, for the end of a pause, for a delay that pauses and
//! triggers interrupt.

use crate::observe::{Observability, TaskEvent, TaskEventKind};
use crate::scheduler::run::{ManualControl, RunShared};
use crate::scheduler::types::{CancelReason, TaskState, TimeoutScope};
use crate::time::{Duration, Instant, MAX_NANOS};
use vstd::prelude::*;

verus! {

/// Why a wait ended without what was waited for.
#[derive(Clone, Copy, Debug, Eq, PartialEq, Structural)]
pub enum WaitError {
    /// The run was asked to stop.
    Cancelled(CancelReason),
    /// The deadline of the run passed.
    TimedOut,
    /// There will be no more permits.
    Closed,
    /// The run was paused.
    Paused,
}

/// Whether a deadline has passed.
pub open spec fn passed(deadline: Option<Instant>, now: Instant) -> bool {
    deadline is Some && deadline->0@ <= now@
}

fn is_passed(deadline: Option<Instant>, now: Instant) -> (result: bool)
    ensures
        result == passed(deadline, now),
{
    match deadline {
        Some(deadline) => deadline.as_nanos() <= now.as_nanos(),
        None => false,
    }
}

/// Whether a wait for a permit does not even begin.
pub fn permit_wait(paused: bool, deadline: Option<Instant>, now: Instant) -> (error: Option<
    WaitError,
>)
    ensures
        error == if paused {
            Some(WaitError::Paused)
        } else if passed(deadline, now) {
            Some(WaitError::TimedOut)
        } else {
            None
        },
{
    if paused {
        Some(WaitError::Paused)
    } else if is_passed(deadline, now) {
        Some(WaitError::TimedOut)
    } else {
        None
    }
}

/// What ended a wait for a permit. Where several things happened, the first in this order
/// counts.
#[derive(Clone, Copy, Debug)]
pub enum PermitWake {
    Cancelled(CancelReason),
    PauseChanged,
    Deadline,
    Acquired,
    Closed,
}

/// How a wait for a permit goes on; nothing means that it begins again.
pub fn permit_woken(wake: PermitWake) -> (result: Option<Result<(), WaitError>>)
    ensures
        result == match wake {
            PermitWake::Cancelled(reason) => Some(
                Err::<(), WaitError>(WaitError::Cancelled(reason)),
            ),
            PermitWake::PauseChanged => None,
            PermitWake::Deadline => Some(Err(WaitError::TimedOut)),
            PermitWake::Acquired => Some(Ok(())),
            PermitWake::Closed => Some(Err(WaitError::Closed)),
        },
{
    match wake {
        PermitWake::Cancelled(reason) => Some(Err(WaitError::Cancelled(reason))),
        PermitWake::PauseChanged => None,
        PermitWake::Deadline => Some(Err(WaitError::TimedOut)),
        PermitWake::Acquired => Some(Ok(())),
        PermitWake::Closed => Some(Err(WaitError::Closed)),
    }
}

/// When an attempt must be over, and by which limit: that of the attempt, or that of all
/// attempts if it is not later. A limit of the attempt that is out of range is none.
pub fn attempt_limit(
    attempt_timeout: Option<Duration>,
    total_deadline: Option<Instant>,
    now: Instant,
) -> (limit: Option<(Instant, TimeoutScope)>)
    ensures
        ({
            let attempt = match attempt_timeout {
                Some(timeout) => if now@ + timeout@ <= MAX_NANOS {
                    Some(now@ + timeout@)
                } else {
                    None
                },
                None => None,
            };
            match (attempt, total_deadline) {
                (Some(attempt), Some(total)) => if total@ <= attempt {
                    limit == Some((total, TimeoutScope::TotalElapsed))
                } else {
                    &&& limit matches Some((at, scope))
                    &&& at@ == attempt
                    &&& scope == TimeoutScope::Attempt
                },
                (Some(attempt), None) => {
                    &&& limit matches Some((at, scope))
                    &&& at@ == attempt
                    &&& scope == TimeoutScope::Attempt
                },
                (None, Some(total)) => limit == Some((total, TimeoutScope::TotalElapsed)),
                (None, None) => limit is None,
            }
        }),
{
    let attempt: Option<Instant> = match attempt_timeout {
        Some(timeout) => now.checked_add(timeout),
        None => None,
    };
    match attempt {
        Some(attempt) => {
            match total_deadline {
                Some(total) => {
                    if total.as_nanos() <= attempt.as_nanos() {
                        Some((total, TimeoutScope::TotalElapsed))
                    } else {
                        Some((attempt, TimeoutScope::Attempt))
                    }
                },
                None => Some((attempt, TimeoutScope::Attempt)),
            }
        },
        None => {
            match total_deadline {
                Some(total) => Some((total, TimeoutScope::TotalElapsed)),
                None => None,
            }
        },
    }
}

/// A step of a wait for the end of a pause.
pub enum PauseStep {
    /// Over.
    Done(Result<(), WaitError>),
    /// Wait for a change of the pause, a request to stop, or the deadline.
    Wait { until: Option<Instant>, event: Option<TaskEvent> },
}

/// Waits for the end of a pause: a run that is paused says so, unless its deadline passed.
pub fn pause_wait(
    run: &mut RunShared,
    deadline: Option<Instant>,
    observability: &mut Observability,
    now: Instant,
) -> (step: PauseStep)
    requires
        old(run).wf(),
    ensures
        final(run).wf(),
        old(run).evolves_into(final(run)),
        if !old(run).manual.paused() {
            &&& step == PauseStep::Done(Ok(()))
            &&& *final(run) == *old(run)
            &&& *final(observability) == *old(observability)
        } else if passed(deadline, now) {
            &&& step == PauseStep::Done(Err(WaitError::TimedOut))
            &&& *final(run) == *old(run)
            &&& *final(observability) == *old(observability)
        } else {
            &&& step matches PauseStep::Wait { until, event }
            &&& until == deadline
            &&& published_state(
                *old(run),
                *final(run),
                TaskState::Paused,
                None,
                *old(observability),
                *final(observability),
                now,
                event,
            )
        },
{
    if !run.manual.is_paused() {
        return PauseStep::Done(Ok(()));
    }
    if is_passed(deadline, now) {
        return PauseStep::Done(Err(WaitError::TimedOut));
    }
    let event = run.transition(TaskState::Paused, observability, now);
    PauseStep::Wait { until: deadline, event }
}

/// What ended a step of a wait for the end of a pause. Where several things happened, the
/// first in this order counts.
#[derive(Clone, Copy, Debug)]
pub enum PauseWake {
    Cancelled(CancelReason),
    Deadline,
    PauseChanged,
}

impl PauseWake {
    /// How a wait for the end of a pause ends that was woken so, if it ends.
    pub open spec fn ends(self) -> Option<Result<(), WaitError>> {
        match self {
            PauseWake::Cancelled(reason) => Some(Err(WaitError::Cancelled(reason))),
            PauseWake::Deadline => Some(Err(WaitError::TimedOut)),
            PauseWake::PauseChanged => None,
        }
    }
}

/// How a wait for the end of a pause goes on after a step; nothing means that it looks
/// again.
pub fn pause_woken(wake: PauseWake) -> (result: Option<Result<(), WaitError>>)
    ensures
        result == wake.ends(),
{
    match wake {
        PauseWake::Cancelled(reason) => Some(Err(WaitError::Cancelled(reason))),
        PauseWake::Deadline => Some(Err(WaitError::TimedOut)),
        PauseWake::PauseChanged => None,
    }
}

/// What a published state of a run that is not terminal does.
pub open spec fn published_state(
    before: RunShared,
    after: RunShared,
    state: TaskState,
    delay: Option<nat>,
    observed: Observability,
    observing: Observability,
    now: Instant,
    event: Option<TaskEvent>,
) -> bool {
    if before.takes(state) {
        &&& exists|span: Option<Duration>|
            #![trigger before.becomes(after, state, span, observed, now)]
            before.becomes(after, state, span, observed, now) && match delay {
                Some(delay) => span is Some && span->0@ == delay,
                None => span is None,
            }
        &&& after.publishes(TaskEventKind::StateChanged, observed, event)
        &&& observing == observed.published()
    } else {
        &&& event is None
        &&& after == before
        &&& observing == observed
    }
}

/// A delay of a run that pauses, triggers, requests to stop and a deadline interrupt.
#[derive(Clone, Copy, Debug)]
pub struct ControlledDelay {
    pub delay: Duration,
    /// When the delay is over, if that is in range.
    pub delay_deadline: Option<Instant>,
    pub total_deadline: Option<Instant>,
    /// The state that the run publishes while it waits.
    pub state: TaskState,
    /// Whether a manual trigger ends the delay.
    pub allow_trigger: bool,
}

/// What the end of a sleep means.
#[derive(Clone, Copy, Debug, Eq, PartialEq, Structural)]
pub enum SleepEnd {
    /// The delay is over.
    Delay,
    /// The deadline passed.
    Timeout,
    /// Nothing; look again.
    Continue,
}

/// A step of a controlled delay.
pub enum DelayStep {
    /// Over.
    Done(Result<(), WaitError>),
    /// Paused: wait for a change of the pause, a request to stop, or the deadline.
    Paused { until: Option<Instant>, event: Option<TaskEvent> },
    /// Give others a turn; a pause or a trigger meanwhile counts.
    Yield { event: Option<TaskEvent> },
    /// Sleep; a pause, a trigger or a request to stop meanwhile counts.
    Sleep { until: Instant, end: SleepEnd, event: Option<TaskEvent> },
}

/// What ended a step of a controlled delay. Where several things happened, the first in
/// this order counts.
#[derive(Clone, Copy, Debug)]
pub enum DelayWake {
    Cancelled(CancelReason),
    PauseChanged,
    TriggerChanged,
    /// The deadline of a paused run passed.
    Deadline,
    /// Others had a turn.
    Yielded,
    /// The sleep is over.
    Slept(SleepEnd),
}

impl DelayWake {
    /// How a delay ends that was woken so, if it ends.
    pub open spec fn ends(self) -> Option<Result<(), WaitError>> {
        match self {
            DelayWake::Cancelled(reason) => Some(Err(WaitError::Cancelled(reason))),
            DelayWake::PauseChanged => None,
            DelayWake::TriggerChanged => None,
            DelayWake::Deadline => Some(Err(WaitError::TimedOut)),
            DelayWake::Yielded => Some(Ok(())),
            DelayWake::Slept(SleepEnd::Delay) => Some(Ok(())),
            DelayWake::Slept(SleepEnd::Timeout) => Some(Err(WaitError::TimedOut)),
            DelayWake::Slept(SleepEnd::Continue) => None,
        }
    }
}

/// One day in nanoseconds.
pub const DAY: u64 = 86_400_000_000_000;

/// The earlier of two points in time, if there is one.
pub open spec fn earlier(a: Option<Instant>, b: Option<Instant>) -> Option<Instant> {
    match (a, b) {
        (Some(a), Some(b)) => if b@ < a@ {
            Some(b)
        } else {
            Some(a)
        },
        (Some(a), None) => Some(a),
        (None, b) => b,
    }
}

/// How long it is from `now` to a point in time.
pub open spec fn until_span(at: nat, now: Instant) -> nat {
    if now@ <= at {
        (at - now@) as nat
    } else {
        0
    }
}

impl ControlledDelay {
    /// The point in time up to which the run sleeps, and what its end means.
    pub open spec fn sleep_target(self, now: Instant) -> (nat, SleepEnd) {
        match (self.delay_deadline, self.total_deadline) {
            (Some(delay), Some(total)) => if total@ <= delay@ {
                (total@, SleepEnd::Timeout)
            } else {
                (delay@, SleepEnd::Delay)
            },
            (Some(delay), None) => (delay@, SleepEnd::Delay),
            (None, Some(total)) => (total@, SleepEnd::Timeout),
            (None, None) => (now@ + DAY as nat, SleepEnd::Continue),
        }
    }

    /// Begins a delay at `now`, unless the run was asked to stop.
    pub fn begin(
        delay: Duration,
        reason: Option<CancelReason>,
        total_deadline: Option<Instant>,
        state: TaskState,
        allow_trigger: bool,
        now: Instant,
    ) -> (result: Result<Self, WaitError>)
        ensures
            match reason {
                Some(reason) => result == Err::<Self, WaitError>(WaitError::Cancelled(reason)),
                None => {
                    &&& result matches Ok(wait)
                    &&& wait == (ControlledDelay {
                        delay,
                        delay_deadline: wait.delay_deadline,
                        total_deadline,
                        state,
                        allow_trigger,
                    })
                    &&& if now@ + delay@ <= MAX_NANOS {
                        wait.delay_deadline is Some && wait.delay_deadline->0@ == now@ + delay@
                    } else {
                        wait.delay_deadline is None
                    }
                },
            },
    {
        match reason {
            Some(reason) => Err(WaitError::Cancelled(reason)),
            None => Ok(
                ControlledDelay {
                    delay,
                    delay_deadline: now.checked_add(delay),
                    total_deadline,
                    state,
                    allow_trigger,
                },
            ),
        }
    }

    fn target(&self, now: Instant) -> (target: (Instant, SleepEnd))
        requires
            self.delay_deadline is None && self.total_deadline is None ==> now@ + DAY
                <= MAX_NANOS,
        ensures
            target.0@ == self.sleep_target(now).0,
            target.1 == self.sleep_target(now).1,
    {
        match self.delay_deadline {
            Some(delay) => {
                match self.total_deadline {
                    Some(total) => {
                        if total.as_nanos() <= delay.as_nanos() {
                            (total, SleepEnd::Timeout)
                        } else {
                            (delay, SleepEnd::Delay)
                        }
                    },
                    None => (delay, SleepEnd::Delay),
                }
            },
            None => {
                match self.total_deadline {
                    Some(total) => (total, SleepEnd::Timeout),
                    None => {
                        match now.checked_add(Duration::from_nanos(DAY)) {
                            Some(tomorrow) => (tomorrow, SleepEnd::Continue),
                            None => {
                                assert(false);
                                (now, SleepEnd::Continue)
                            },
                        }
                    },
                }
            },
        }
    }

    /// What a look at a run that is delayed does. A request to stop comes first, then the
    /// deadline, then a pause, then a trigger.
    pub open spec fn steps(
        &self,
        before: RunShared,
        after: RunShared,
        observed: Observability,
        observing: Observability,
        now: Instant,
        step: DelayStep,
    ) -> bool {
        if before.cancellation.reason is Some {
            &&& step == DelayStep::Done(
                Err(WaitError::Cancelled(before.cancellation.reason->0)),
            )
            &&& after == before
            &&& observing == observed
        } else if passed(self.total_deadline, now) {
            &&& step == DelayStep::Done(Err(WaitError::TimedOut))
            &&& after == before
            &&& observing == observed
        } else if before.manual.paused() {
            &&& step matches DelayStep::Paused { until, event }
            &&& until == self.total_deadline
            &&& published_state(
                before,
                after,
                TaskState::Paused,
                match earlier(self.delay_deadline, self.total_deadline) {
                    Some(at) => Some(until_span(at@, now)),
                    None => None,
                },
                observed,
                observing,
                now,
                event,
            )
        } else if self.allow_trigger && before.manual.pending > 0 {
            &&& step == DelayStep::Done(Ok(()))
            &&& after == (RunShared {
                manual: ManualControl {
                    pending: (before.manual.pending - 1) as usize,
                    ..before.manual
                },
                ..before
            })
            &&& observing == observed
        } else if self.delay@ == 0 {
            &&& step matches DelayStep::Yield { event }
            &&& published_state(
                before,
                after,
                self.state,
                Some(0),
                observed,
                observing,
                now,
                event,
            )
        } else {
            &&& step matches DelayStep::Sleep { until, end, event }
            &&& until@ == self.sleep_target(now).0
            &&& end == self.sleep_target(now).1
            &&& published_state(
                before,
                after,
                self.state,
                Some(until_span(until@, now)),
                observed,
                observing,
                now,
                event,
            )
        }
    }

    /// A run after its delay was woken: a trigger that comes just as the delay ends is taken
    /// with it.
    pub open spec fn after_wake(&self, wake: DelayWake, run: RunShared) -> RunShared {
        if wake == DelayWake::Slept(SleepEnd::Delay) && self.allow_trigger && run.manual.pending
            > 0 {
            RunShared {
                manual: ManualControl {
                    pending: (run.manual.pending - 1) as usize,
                    ..run.manual
                },
                ..run
            }
        } else {
            run
        }
    }

    /// Looks at the run, and says what the delay does next. A request to stop comes
    /// first, then the deadline, then a pause, then a trigger.
    pub fn step(&self, run: &mut RunShared, observability: &mut Observability, now: Instant) -> (
    step: DelayStep)
        requires
            old(run).wf(),
            !self.state.terminal(),
            self.delay_deadline is None && self.total_deadline is None ==> now@ + DAY
                <= MAX_NANOS,
        ensures
            final(run).wf(),
            old(run).evolves_into(final(run)),
            self.steps(
                *old(run),
                *final(run),
                *old(observability),
                *final(observability),
                now,
                step,
            ),
    {
        if let Some(reason) = run.cancellation.reason() {
            return DelayStep::Done(Err(WaitError::Cancelled(reason)));
        }
        if is_passed(self.total_deadline, now) {
            return DelayStep::Done(Err(WaitError::TimedOut));
        }
        if run.manual.is_paused() {
            let next: Option<Instant> = match self.delay_deadline {
                Some(delay) => match self.total_deadline {
                    Some(total) => if total.as_nanos() < delay.as_nanos() {
                        Some(total)
                    } else {
                        Some(delay)
                    },
                    None => Some(delay),
                },
                None => self.total_deadline,
            };
            let span: Option<Duration> = match next {
                Some(next) => Some(next.saturating_duration_since(now)),
                None => None,
            };
            let ghost before = *run;
            let ghost observed = *observability;
            let event = run.transition_with_delay(TaskState::Paused, span, observability, now);
            proof {
                if before.takes(TaskState::Paused) {
                    assert(before.becomes(*run, TaskState::Paused, span, observed, now));
                }
            }
            return DelayStep::Paused { until: self.total_deadline, event };
        }
        if self.allow_trigger {
            if run.manual.take_trigger() {
                return DelayStep::Done(Ok(()));
            }
        }
        let ghost before = *run;
        let ghost observed = *observability;
        if self.delay.is_zero() {
            let span: Option<Duration> = Some(Duration::zero());
            let event = run.transition_with_delay(self.state, span, observability, now);
            proof {
                if before.takes(self.state) {
                    assert(before.becomes(*run, self.state, span, observed, now));
                }
            }
            return DelayStep::Yield { event };
        }
        let (until, end) = self.target(now);
        let span: Option<Duration> = Some(until.saturating_duration_since(now));
        let event = run.transition_with_delay(self.state, span, observability, now);
        proof {
            if before.takes(self.state) {
                assert(before.becomes(*run, self.state, span, observed, now));
            }
        }
        DelayStep::Sleep { until, end, event }
    }

    /// How a delay goes on after a step; nothing means that it looks again. A trigger
    /// that comes just as the delay ends is taken with it.
    pub fn woken(&self, wake: DelayWake, run: &mut RunShared) -> (result: Option<
        Result<(), WaitError>,
    >)
        requires
            old(run).wf(),
        ensures
            final(run).wf(),
            old(run).evolves_into(final(run)),
            result == wake.ends(),
            *final(run) == self.after_wake(wake, *old(run)),
    {
        match wake {
            DelayWake::Cancelled(reason) => Some(Err(WaitError::Cancelled(reason))),
            DelayWake::PauseChanged => None,
            DelayWake::TriggerChanged => None,
            DelayWake::Deadline => Some(Err(WaitError::TimedOut)),
            DelayWake::Yielded => Some(Ok(())),
            DelayWake::Slept(end) => {
                match end {
                    SleepEnd::Delay => {
                        if self.allow_trigger {
                            run.manual.take_trigger();
                        }
                        Some(Ok(()))
                    },
                    SleepEnd::Timeout => Some(Err(WaitError::TimedOut)),
                    SleepEnd::Continue => None,
                }
            },
        }
    }
}

/// A deadline has passed exactly from its own point in time on, and one that is not there
/// never does.
pub proof fn lemma_when_deadlines_pass(deadline: Option<Instant>, now: Instant)
    ensures
        deadline is None ==> !passed(deadline, now),
        deadline matches Some(at) ==> (passed(deadline, now) <==> at@ <= now@),
{
}

/// A request to stop and a deadline end a wait as such, a delay that is over ends it well, and
/// anything else lets it look again.
pub proof fn lemma_how_waits_end(pause: PauseWake, delay: DelayWake)
    ensures
        pause matches PauseWake::Cancelled(reason) ==> pause.ends() == Some(
            Err::<(), WaitError>(WaitError::Cancelled(reason)),
        ),
        pause is Deadline ==> pause.ends() == Some(Err::<(), WaitError>(WaitError::TimedOut)),
        pause is PauseChanged ==> pause.ends() is None,
        delay matches DelayWake::Cancelled(reason) ==> delay.ends() == Some(
            Err::<(), WaitError>(WaitError::Cancelled(reason)),
        ),
        delay is Deadline || delay == DelayWake::Slept(SleepEnd::Timeout) ==> delay.ends() == Some(
            Err::<(), WaitError>(WaitError::TimedOut),
        ),
        delay is Yielded || delay == DelayWake::Slept(SleepEnd::Delay) ==> delay.ends() == Some(
            Ok::<(), WaitError>(()),
        ),
        delay is PauseChanged || delay is TriggerChanged || delay == DelayWake::Slept(
            SleepEnd::Continue,
        ) ==> delay.ends() is None,
{
}

/// The earlier of two points is one of them and no later than either.
pub proof fn lemma_earlier_of_two(a: Option<Instant>, b: Option<Instant>, now: Instant, at: nat)
    ensures
        earlier(a, b) is None <==> a is None && b is None,
        earlier(a, b) == a || earlier(a, b) == b,
        a matches Some(one) ==> earlier(a, b)->0@ <= one@,
        b matches Some(two) ==> earlier(a, b)->0@ <= two@,
        now@ <= at ==> now@ + until_span(at, now) == at,
        at < now@ ==> until_span(at, now) == 0,
{
}

/// A run sleeps up to the earlier of its delay and its deadline, which wins if they fall
/// together, and says which it was; with neither it sleeps for a day and looks again.
pub proof fn lemma_sleeps_up_to_the_earlier(delayed: ControlledDelay, now: Instant)
    ensures
        ({
            let (until, end) = delayed.sleep_target(now);
            &&& delayed.delay_deadline matches Some(delay) ==> until <= delay@
            &&& delayed.total_deadline matches Some(total) ==> until <= total@
            &&& end == SleepEnd::Delay ==> delayed.delay_deadline is Some && until
                == delayed.delay_deadline->0@ && (delayed.total_deadline matches Some(total)
                ==> until < total@)
            &&& end == SleepEnd::Timeout ==> delayed.total_deadline is Some && until
                == delayed.total_deadline->0@
            &&& end == SleepEnd::Continue <==> delayed.delay_deadline is None
                && delayed.total_deadline is None
            &&& end == SleepEnd::Continue ==> until == now@ + 86_400_000_000_000
        }),
{
}

/// A look at a delayed run: a request to stop comes before everything, then the deadline, then
/// a pause, then a trigger, which it takes; else it sleeps, and a delay of nothing only gives
/// others a turn.
pub proof fn lemma_what_a_delayed_run_sees_first(
    delayed: ControlledDelay,
    before: RunShared,
    after: RunShared,
    observed: Observability,
    observing: Observability,
    now: Instant,
    step: DelayStep,
)
    requires
        delayed.steps(before, after, observed, observing, now, step),
    ensures
        before.cancellation.reason matches Some(reason) ==> step == DelayStep::Done(
            Err(WaitError::Cancelled(reason)),
        ) && after == before,
        ({
            let free = before.cancellation.reason is None;
            let late = delayed.total_deadline is Some && delayed.total_deadline->0@ <= now@;
            let paused = before.manual.task_paused || before.manual.scope_paused;
            let triggered = delayed.allow_trigger && before.manual.pending > 0;
            &&& free && late ==> step == DelayStep::Done(Err(WaitError::TimedOut)) && after
                == before
            &&& free && !late && paused ==> step is Paused
            &&& free && !late && !paused && triggered ==> {
                &&& step == DelayStep::Done(Ok(()))
                &&& after.manual.pending == before.manual.pending - 1
                &&& after.snapshot == before.snapshot
            }
            &&& free && !late && !paused && !triggered && delayed.delay@ == 0 ==> step is Yield
            &&& free && !late && !paused && !triggered && delayed.delay@ > 0 ==> step is Sleep
            &&& step is Sleep || step is Yield || step is Paused ==> free && !late
        }),
{
}

/// A trigger that comes just as the delay ends is taken with it, and only then.
pub proof fn lemma_trigger_at_the_end_of_a_delay(
    delayed: ControlledDelay,
    wake: DelayWake,
    run: RunShared,
)
    ensures
        wake == DelayWake::Slept(SleepEnd::Delay) && delayed.allow_trigger && run.manual.pending
            > 0 ==> delayed.after_wake(wake, run).manual.pending == run.manual.pending - 1,
        wake != DelayWake::Slept(SleepEnd::Delay) || !delayed.allow_trigger || run.manual.pending
            == 0 ==> delayed.after_wake(wake, run) == run,
        delayed.after_wake(wake, run).snapshot == run.snapshot,
        delayed.after_wake(wake, run).cancellation == run.cancellation,
{
}

/// A state is published as it is meant, with an event and its number, as long as the run is
/// not over and was not asked to stop; else nothing changes.
pub proof fn lemma_what_is_published(
    before: RunShared,
    after: RunShared,
    state: TaskState,
    delay: Option<nat>,
    observed: Observability,
    observing: Observability,
    now: Instant,
    event: Option<TaskEvent>,
)
    requires
        published_state(before, after, state, delay, observed, observing, now, event),
        observed.sequence < u64::MAX,
    ensures
        before.terminal || (before.snapshot.state == TaskState::CancelRequested && state
            != TaskState::CancelRequested) ==> {
            &&& after == before
            &&& event is None
            &&& observing == observed
        },
        !before.terminal && before.snapshot.state != TaskState::CancelRequested ==> {
            &&& after.snapshot.state == state
            &&& after.snapshot.snapshot_version == observed.sequence + 1
            &&& after.snapshot.cancel_reason == before.cancellation.reason
            &&& after.manual == before.manual
            &&& after.cancellation == before.cancellation
            &&& observing.sequence == observed.sequence + 1
            &&& event == Some(after.event(TaskEventKind::StateChanged))
            &&& delay is None ==> after.snapshot.next_wake_at is None
            &&& delay matches Some(span) ==> (after.snapshot.observed_at@ + span <= MAX_NANOS
                ==> after.snapshot.next_wake_at is Some && after.snapshot.next_wake_at->0@
                == after.snapshot.observed_at@ + span)
        },
{
}

} // verus!
