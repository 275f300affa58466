//! The life of a run from its acceptance to its result: pauses, permits, attempts,
//! retries and the schedule.

use crate::schedule::{
    takes, CursorView, FirstRun, RetryExhaustedAction, Schedule, ScheduleCursor, ScheduleError,
    TaskControl,
};
use crate::scheduler::run::{finalize_terminal, Cancellation};
use crate::scheduler::types::{
    CancelReason, ExecutorErrorCode, TaskState, TaskTerminal, TimeoutScope,
};
use crate::scheduler::waits::{attempt_limit, PauseWake, WaitError};
use crate::time::{Duration, Instant, MAX_NANOS};
use vstd::prelude::*;

verus! {

/// What a run needs to know of its retry policy.
#[derive(Clone, Copy, Debug)]
pub struct RetrySettings {
    pub max_attempts: u32,
    pub max_elapsed: Option<Duration>,
    pub attempt_timeout: Option<Duration>,
}

/// When all attempts that start at `started_at` must be over; a point out of range is
/// none.
pub open spec fn deadline_from(retry: Option<RetrySettings>, started_at: nat) -> Option<nat> {
    match retry {
        Some(retry) => match retry.max_elapsed {
            Some(limit) => if started_at + limit@ <= MAX_NANOS {
                Some(started_at + limit@)
            } else {
                None
            },
            None => None,
        },
        None => None,
    }
}

/// Whether `deadline` is the point in time `at`.
pub open spec fn is_deadline(deadline: Option<Instant>, at: Option<nat>) -> bool {
    match at {
        Some(at) => deadline is Some && deadline->0@ == at,
        None => deadline is None,
    }
}

/// When all attempts that start at `started_at` must be over.
pub fn retry_deadline(retry: &Option<RetrySettings>, started_at: Instant) -> (deadline: Option<
    Instant,
>)
    ensures
        is_deadline(deadline, deadline_from(*retry, started_at@)),
{
    match retry {
        Some(retry) => match retry.max_elapsed {
            Some(limit) => started_at.checked_add(limit),
            None => None,
        },
        None => None,
    }
}

/// What an attempt came to.
pub enum AttemptOutput<T, E> {
    /// A limit passed.
    TimedOut(TimeoutScope),
    /// The work of an unscheduled job returned.
    Value(T),
    /// The work of a scheduled job returned.
    Control(TaskControl<T>),
    /// The work failed.
    Error(E),
}

/// What a run does next.
pub enum JobStep<T, E> {
    /// Wait for a delay in a state; a manual trigger may end it.
    Delay { delay: Duration, state: TaskState, deadline: Option<Instant>, allow_trigger: bool },
    /// Wait for the end of a pause.
    Unpause { deadline: Option<Instant> },
    /// Publish that the run is queued, and wait for a place in the queue.
    AcquireQueue { deadline: Option<Instant> },
    /// Publish that the run waits for permits, and wait for one of the lane.
    AcquireLane { deadline: Option<Instant> },
    /// Wait for a permit of the scheduler.
    AcquireGlobal { deadline: Option<Instant> },
    /// Publish that the run is running, give the place in the queue back, and start.
    Start { attempt: u32, run_index: u64 },
    /// Let the attempt run, within the limit if there is one.
    Run { limit: Option<(Instant, TimeoutScope)> },
    /// Ask the policy whether to retry the error.
    AskRetry,
    /// Ask the policy for the delay before the next attempt.
    AskDelay { attempt: u32 },
    /// End.
    End(TaskTerminal<T, E>),
}

impl<T, E> JobStep<T, E> {
    /// Whether the run keeps its permits for the step: only from the wait for the last one
    /// to the end of the attempt.
    pub open spec fn keeps_permits(&self) -> bool {
        self is AcquireGlobal || self is Start || self is Run
    }
}

/// A run between two steps.
pub struct JobExecution<E> {
    pub retry: Option<RetrySettings>,
    pub cursor: Option<ScheduleCursor>,
    pub retry_exhausted_action: RetryExhaustedAction,
    pub submitted_at: Instant,
    /// Whether the run holds a place in the queue.
    pub has_slot: bool,
    /// Whether the run holds a permit of its lane.
    pub has_lane: bool,
    /// Whether the run holds a permit of the scheduler.
    pub has_global: bool,
    /// The number of the attempt.
    pub attempt: u32,
    /// The number of the invocation.
    pub run_index: u64,
    pub total_deadline: Option<Instant>,
    /// The error of the attempt before.
    pub pending_error: Option<E>,
    /// The error that is decided about.
    pub decided_error: Option<E>,
}

/// The outcome of a run whose total time is used up.
pub open spec fn elapsed<T, E>(attempts: u32, last_error: Option<E>) -> TaskTerminal<T, E> {
    TaskTerminal::TimedOut { scope: TimeoutScope::TotalElapsed, attempts, last_error }
}

/// The outcome of a run: a request to stop overrules it.
pub open spec fn settled<T, E>(
    cancellation: Cancellation,
    terminal: TaskTerminal<T, E>,
) -> TaskTerminal<T, E> {
    match cancellation.reason {
        Some(reason) => TaskTerminal::Cancelled { reason },
        None => terminal,
    }
}

impl<E> JobExecution<E> {
    /// Attempts count from one, up to the policy's limit; the cursor is sound.
    pub open spec fn wf(&self) -> bool {
        &&& 1 <= self.attempt
        &&& self.retry matches Some(retry) ==> self.attempt <= retry.max_attempts
            || self.attempt == 1
        &&& self.cursor matches Some(cursor) ==> cursor@.wf()
    }

    /// The run after it gave back what it does not keep for a step: its permits, and at the
    /// end its place in the queue.
    pub open spec fn released<T>(self, step: JobStep<T, E>) -> Self {
        JobExecution {
            has_slot: self.has_slot && !(step is End),
            has_lane: self.has_lane && step.keeps_permits(),
            has_global: self.has_global && step.keeps_permits(),
            ..self
        }
    }

    /// Outside an attempt the run holds no permit, and nothing once it ended.
    pub open spec fn holds_for<T>(&self, step: JobStep<T, E>) -> bool {
        &&& !step.keeps_permits() ==> !self.has_lane && !self.has_global
        &&& step is End ==> !self.has_slot
    }

    fn give_back<T>(&mut self, step: JobStep<T, E>) -> (same: JobStep<T, E>)
        ensures
            same == step,
            *final(self) == old(self).released(step),
            final(self).holds_for(step),
    {
        match &step {
            JobStep::AcquireGlobal { .. } => {},
            JobStep::Start { .. } => {},
            JobStep::Run { .. } => {},
            JobStep::End(_) => {
                self.has_slot = false;
                self.has_lane = false;
                self.has_global = false;
            },
            _ => {
                self.has_lane = false;
                self.has_global = false;
            },
        }
        step
    }

    /// Begins a run that holds a place in the queue. A run whose first invocation is
    /// delayed gives the place back and waits.
    pub fn begin<T>(
        schedule: Option<&Schedule>,
        retry: Option<RetrySettings>,
        retry_exhausted_action: RetryExhaustedAction,
        submitted_at: Instant,
    ) -> (begun: (Self, JobStep<T, E>))
        requires
            schedule matches Some(schedule) ==> schedule@.wf(),
        ensures
            begun.0.wf(),
            begun.0.holds_for(begun.1),
            begun.0 == (JobExecution::<E> {
                retry,
                cursor: begun.0.cursor,
                retry_exhausted_action,
                submitted_at,
                has_slot: begun.0.has_slot,
                has_lane: false,
                has_global: false,
                attempt: 1,
                run_index: 0,
                total_deadline: begun.0.total_deadline,
                pending_error: None,
                decided_error: None,
            }),
            begun.0.cursor is Some <==> schedule is Some,
            match schedule {
                Some(schedule) => {
                    let offset = match schedule@.first_run {
                        FirstRun::Immediate => 0,
                        FirstRun::After(delay) => delay@,
                    };
                    begun.0.cursor->0@ == (CursorView {
                        schedule: schedule@,
                        offset,
                        index: 0,
                        burst: 0,
                    })
                },
                None => true,
            },
            if schedule is Some && schedule->0@.first_run is After {
                &&& !begun.0.has_slot
                &&& begun.0.total_deadline is None
                &&& begun.1 matches JobStep::Delay { delay, state, deadline, allow_trigger }
                &&& delay@ == schedule->0@.first_run->0@
                &&& state == TaskState::WaitingForSchedule
                &&& deadline is None
                &&& allow_trigger
            } else {
                &&& begun.0.has_slot
                &&& is_deadline(begun.0.total_deadline, deadline_from(retry, submitted_at@))
                &&& begun.1 == (JobStep::<T, E>::Unpause { deadline: begun.0.total_deadline })
            },
    {
        let mut execution = JobExecution {
            retry,
            cursor: None,
            retry_exhausted_action,
            submitted_at,
            has_slot: true,
            has_lane: false,
            has_global: false,
            attempt: 1,
            run_index: 0,
            total_deadline: None,
            pending_error: None,
            decided_error: None,
        };
        if let Some(schedule) = schedule {
            let cursor = schedule.cursor();
            let first: Duration = cursor.first_delay();
            execution.cursor = Some(cursor);
            if let FirstRun::After(_) = schedule.first_run() {
                execution.has_slot = false;
                return (
                    execution,
                    JobStep::Delay {
                        delay: first,
                        state: TaskState::WaitingForSchedule,
                        deadline: None,
                        allow_trigger: true,
                    },
                );
            }
        }
        let deadline: Option<Instant> = retry_deadline(&execution.retry, submitted_at);
        execution.total_deadline = deadline;
        (execution, JobStep::Unpause { deadline })
    }

    /// Goes on after the delay of the first invocation.
    pub fn first_delay_done<T>(&mut self, result: Result<(), CancelReason>, now: Instant) -> (step:
        JobStep<T, E>)
        requires
            old(self).wf(),
        ensures
            final(self).wf(),
            final(self).holds_for(step),
            match result {
                Err(reason) => {
                    &&& step == JobStep::<T, E>::End(TaskTerminal::Cancelled { reason })
                    &&& *final(self) == old(self).released(step)
                },
                Ok(_) => {
                    &&& *final(self) == (JobExecution {
                        total_deadline: final(self).total_deadline,
                        ..old(self).released(step)
                    })
                    &&& is_deadline(
                        final(self).total_deadline,
                        deadline_from(old(self).retry, now@),
                    )
                    &&& step == (JobStep::<T, E>::Unpause {
                        deadline: final(self).total_deadline,
                    })
                },
            },
    {
        let step: JobStep<T, E> = match result {
            Err(reason) => JobStep::End(TaskTerminal::Cancelled { reason }),
            Ok(_) => {
                self.total_deadline = retry_deadline(&self.retry, now);
                JobStep::Unpause { deadline: self.total_deadline }
            },
        };
        self.give_back(step)
    }

    /// What the end of a wait that did not get what it waited for comes to. `attempts`
    /// says how many attempts had started.
    pub open spec fn failed_wait<T>(
        self,
        error: WaitError,
        attempts: int,
        cancellation: Cancellation,
    ) -> JobStep<T, E> {
        match error {
            WaitError::Cancelled(reason) => JobStep::End(TaskTerminal::Cancelled { reason }),
            WaitError::TimedOut => JobStep::End(
                settled(cancellation, elapsed(attempts as u32, self.pending_error)),
            ),
            WaitError::Closed => JobStep::End(
                settled(cancellation, TaskTerminal::ExecutorStopped),
            ),
            WaitError::Paused => JobStep::Unpause { deadline: self.total_deadline },
        }
    }

    /// What a failed wait leaves of the run: a result takes the last error with it, and a
    /// paused run gives its place in the queue back.
    pub open spec fn after_failed_wait(self, error: WaitError, gives_back: bool) -> Self {
        match error {
            WaitError::TimedOut => JobExecution { pending_error: None, ..self },
            WaitError::Paused => JobExecution { has_slot: self.has_slot && !gives_back, ..self },
            _ => self,
        }
    }

    /// The outcome is claimed where a result stands on its own.
    pub open spec fn claims(error: WaitError) -> bool {
        error is TimedOut || error is Closed
    }

    fn wait_failed<T>(
        &mut self,
        error: WaitError,
        attempts: u32,
        gives_back: bool,
        cancellation: &mut Cancellation,
    ) -> (step: JobStep<T, E>)
        requires
            old(self).wf(),
        ensures
            final(self).wf(),
            final(self).holds_for(step),
            step == old(self).failed_wait::<T>(error, attempts as int, *old(cancellation)),
            *final(self) == old(self).after_failed_wait(error, gives_back).released(step),
            *final(cancellation) == if JobExecution::<E>::claims(error) {
                old(cancellation).claimed()
            } else {
                *old(cancellation)
            },
    {
        let step: JobStep<T, E> = match error {
            WaitError::Cancelled(reason) => JobStep::End(TaskTerminal::Cancelled { reason }),
            WaitError::TimedOut => {
                let last_error = self.pending_error.take();
                JobStep::End(
                    finalize_terminal(
                        cancellation,
                        TaskTerminal::TimedOut {
                            scope: TimeoutScope::TotalElapsed,
                            attempts,
                            last_error,
                        },
                    ),
                )
            },
            WaitError::Closed => JobStep::End(
                finalize_terminal(cancellation, TaskTerminal::ExecutorStopped),
            ),
            WaitError::Paused => {
                if gives_back {
                    self.has_slot = false;
                }
                JobStep::Unpause { deadline: self.total_deadline }
            },
        };
        self.give_back(step)
    }

    /// Goes on after the run is not paused.
    pub fn unpaused<T>(&mut self, result: Result<(), WaitError>, cancellation: &mut Cancellation)
        -> (step: JobStep<T, E>)
        requires
            old(self).wf(),
        ensures
            final(self).wf(),
            final(self).holds_for(step),
            match result {
                Ok(_) => {
                    &&& *final(self) == old(self).released(step)
                    &&& *final(cancellation) == *old(cancellation)
                    &&& step == if old(self).has_slot {
                        JobStep::<T, E>::AcquireLane { deadline: old(self).total_deadline }
                    } else {
                        JobStep::AcquireQueue { deadline: old(self).total_deadline }
                    }
                },
                Err(error) => {
                    &&& step == old(self).failed_wait::<T>(
                        error,
                        old(self).attempt - 1,
                        *old(cancellation),
                    )
                    &&& *final(self) == old(self).after_failed_wait(error, false).released(step)
                    &&& *final(cancellation) == if JobExecution::<E>::claims(error) {
                        old(cancellation).claimed()
                    } else {
                        *old(cancellation)
                    }
                },
            },
    {
        match result {
            Ok(_) => {
                let step: JobStep<T, E> = if self.has_slot {
                    JobStep::AcquireLane { deadline: self.total_deadline }
                } else {
                    JobStep::AcquireQueue { deadline: self.total_deadline }
                };
                self.give_back(step)
            },
            Err(error) => {
                let attempts: u32 = self.attempt - 1;
                self.wait_failed(error, attempts, false, cancellation)
            },
        }
    }

    /// Goes on after the wait for a place in the queue.
    pub fn queue_acquired<T>(
        &mut self,
        result: Result<(), WaitError>,
        cancellation: &mut Cancellation,
    ) -> (step: JobStep<T, E>)
        requires
            old(self).wf(),
        ensures
            final(self).wf(),
            final(self).holds_for(step),
            match result {
                Ok(_) => {
                    &&& *final(self) == (JobExecution {
                        has_slot: true,
                        ..old(self).released(step)
                    })
                    &&& *final(cancellation) == *old(cancellation)
                    &&& step == (JobStep::<T, E>::AcquireLane {
                        deadline: old(self).total_deadline,
                    })
                },
                Err(error) => {
                    &&& step == old(self).failed_wait::<T>(
                        error,
                        old(self).attempt - 1,
                        *old(cancellation),
                    )
                    &&& *final(self) == old(self).after_failed_wait(error, false).released(step)
                    &&& *final(cancellation) == if JobExecution::<E>::claims(error) {
                        old(cancellation).claimed()
                    } else {
                        *old(cancellation)
                    }
                },
            },
    {
        match result {
            Ok(_) => {
                self.has_slot = true;
                self.give_back(JobStep::AcquireLane { deadline: self.total_deadline })
            },
            Err(error) => {
                let attempts: u32 = self.attempt - 1;
                self.wait_failed(error, attempts, false, cancellation)
            },
        }
    }

    /// Goes on after the wait for a permit of the lane.
    pub fn lane_acquired<T>(
        &mut self,
        result: Result<(), WaitError>,
        cancellation: &mut Cancellation,
    ) -> (step: JobStep<T, E>)
        requires
            old(self).wf(),
        ensures
            final(self).wf(),
            final(self).holds_for(step),
            match result {
                Ok(_) => {
                    &&& *final(self) == (JobExecution {
                        has_lane: true,
                        ..old(self).released(step)
                    })
                    &&& *final(cancellation) == *old(cancellation)
                    &&& step == (JobStep::<T, E>::AcquireGlobal {
                        deadline: old(self).total_deadline,
                    })
                },
                Err(error) => {
                    &&& step == old(self).failed_wait::<T>(
                        error,
                        old(self).attempt - 1,
                        *old(cancellation),
                    )
                    &&& *final(self) == old(self).after_failed_wait(error, true).released(step)
                    &&& *final(cancellation) == if JobExecution::<E>::claims(error) {
                        old(cancellation).claimed()
                    } else {
                        *old(cancellation)
                    }
                },
            },
    {
        match result {
            Ok(_) => {
                self.has_lane = true;
                JobStep::AcquireGlobal { deadline: self.total_deadline }
            },
            Err(error) => {
                let attempts: u32 = self.attempt - 1;
                self.wait_failed(error, attempts, true, cancellation)
            },
        }
    }

    /// What follows the wait for a permit of the scheduler: a pause or a request to stop
    /// that came meanwhile is seen before the work starts.
    pub open spec fn starts<T>(
        self,
        after: Self,
        result: Result<(), WaitError>,
        paused: bool,
        cancellation: Cancellation,
        step: JobStep<T, E>,
    ) -> bool {
        match result {
            Ok(_) => {
                if paused {
                    &&& step == (JobStep::<T, E>::Unpause {
                        deadline: self.total_deadline,
                    })
                    &&& after == (JobExecution {
                        has_slot: false,
                        ..self.released(step)
                    })
                } else if cancellation.reason is Some {
                    &&& step == JobStep::<T, E>::End(
                        TaskTerminal::Cancelled { reason: cancellation.reason->0 },
                    )
                    &&& after == self.released(step)
                } else {
                    &&& step == (JobStep::<T, E>::Start {
                        attempt: self.attempt,
                        run_index: self.run_index,
                    })
                    &&& after == (JobExecution {
                        has_slot: false,
                        has_global: true,
                        ..self.released(step)
                    })
                }
            },
            Err(error) => {
                &&& step == self.failed_wait::<T>(
                    error,
                    self.attempt - 1,
                    cancellation,
                )
                &&& after == self.after_failed_wait(error, true).released(step)
            },
        }
    }

    /// Goes on after the wait for a permit of the scheduler. A pause or a request to stop
    /// that came meanwhile is seen before the work starts.
    pub fn global_acquired<T>(
        &mut self,
        result: Result<(), WaitError>,
        paused: bool,
        cancellation: &mut Cancellation,
    ) -> (step: JobStep<T, E>)
        requires
            old(self).wf(),
        ensures
            final(self).wf(),
            final(self).holds_for(step),
            old(self).starts(*final(self), result, paused, *old(cancellation), step),
            *final(cancellation) == claimed_by(result, *old(cancellation)),
    {
        match result {
            Ok(_) => {
                if paused {
                    self.has_slot = false;
                    return self.give_back(JobStep::Unpause { deadline: self.total_deadline });
                }
                if let Some(reason) = cancellation.reason() {
                    return self.give_back(JobStep::End(TaskTerminal::Cancelled { reason }));
                }
                self.has_slot = false;
                self.has_global = true;
                JobStep::Start { attempt: self.attempt, run_index: self.run_index }
            },
            Err(error) => {
                let attempts: u32 = self.attempt - 1;
                self.wait_failed(error, attempts, true, cancellation)
            },
        }
    }

    /// Goes on after the work was started, or could not be.
    pub fn started<T>(
        &mut self,
        result: Result<(), ExecutorErrorCode>,
        cancellation: &mut Cancellation,
        now: Instant,
    ) -> (step: JobStep<T, E>)
        requires
            old(self).wf(),
        ensures
            final(self).wf(),
            final(self).holds_for(step),
            *final(self) == old(self).released(step),
            match result {
                Err(code) => {
                    &&& step == JobStep::<T, E>::End(
                        settled(*old(cancellation), TaskTerminal::ExecutorError { code }),
                    )
                    &&& *final(cancellation) == old(cancellation).claimed()
                },
                Ok(_) => {
                    &&& *final(cancellation) == *old(cancellation)
                    &&& step matches JobStep::Run { limit }
                    &&& runs_within(
                        limit,
                        match old(self).retry {
                            Some(retry) => retry.attempt_timeout,
                            None => None,
                        },
                        old(self).total_deadline,
                        now@,
                    )
                },
            },
    {
        match result {
            Err(code) => {
                let terminal = finalize_terminal(
                    cancellation,
                    TaskTerminal::ExecutorError { code },
                );
                self.give_back(JobStep::End(terminal))
            },
            Ok(_) => {
                let timeout: Option<Duration> = match &self.retry {
                    Some(retry) => retry.attempt_timeout,
                    None => None,
                };
                JobStep::Run { limit: attempt_limit(timeout, self.total_deadline, now) }
            },
        }
    }

    /// Moves on to the next invocation of a scheduled run, if there is one.
    fn next_invocation<T>(
        &mut self,
        control: TaskControl<T>,
        cancellation: &mut Cancellation,
        now: Instant,
    ) -> (step: JobStep<T, E>)
        requires
            old(self).wf(),
            !(control is Complete),
        ensures
            final(self).wf(),
            *final(self) == (JobExecution { cursor: final(self).cursor, ..*old(self) }),
            advances(*old(self), *final(self), control, *old(cancellation), now, step),
            *final(cancellation) == if step is End {
                old(cancellation).claimed()
            } else {
                *old(cancellation)
            },
    {
        let mut cursor: ScheduleCursor = match self.cursor.take() {
            Some(cursor) => cursor,
            None => {
                return JobStep::End(
                    finalize_terminal(
                        cancellation,
                        TaskTerminal::ExecutorError {
                            code: ExecutorErrorCode::ScheduleCursorMissing,
                        },
                    ),
                );
            },
        };
        if self.run_index == u64::MAX {
            self.cursor = Some(cursor);
            return JobStep::End(
                finalize_terminal(
                    cancellation,
                    TaskTerminal::ScheduleError(ScheduleError::RunIndexExhausted),
                ),
            );
        }
        let elapsed: Duration = now.saturating_duration_since(self.submitted_at);
        let next = cursor.next_delay(&control, elapsed);
        self.cursor = Some(cursor);
        match next {
            Err(error) => JobStep::End(
                finalize_terminal(cancellation, TaskTerminal::ScheduleError(error)),
            ),
            Ok(delay) => {
                if now.checked_add(delay).is_none() {
                    return JobStep::End(
                        finalize_terminal(
                            cancellation,
                            TaskTerminal::ScheduleError(ScheduleError::DurationOverflow),
                        ),
                    );
                }
                JobStep::Delay {
                    delay,
                    state: TaskState::WaitingForSchedule,
                    deadline: None,
                    allow_trigger: true,
                }
            },
        }
    }

    fn advance<T>(
        &mut self,
        control: TaskControl<T>,
        cancellation: &mut Cancellation,
        now: Instant,
    ) -> (step: JobStep<T, E>)
        requires
            old(self).wf(),
            !(control is Complete),
        ensures
            final(self).wf(),
            final(self).holds_for(step),
            *final(self) == (JobExecution {
                cursor: final(self).cursor,
                ..old(self).released(step)
            }),
            advances(*old(self), *final(self), control, *old(cancellation), now, step),
            *final(cancellation) == if step is End {
                old(cancellation).claimed()
            } else {
                *old(cancellation)
            },
    {
        let step = self.next_invocation(control, cancellation, now);
        self.give_back(step)
    }

    /// Goes on after an attempt.
    pub fn attempt_done<T>(
        &mut self,
        output: AttemptOutput<T, E>,
        cancellation: &mut Cancellation,
        now: Instant,
    ) -> (step: JobStep<T, E>)
        requires
            old(self).wf(),
        ensures
            final(self).wf(),
            final(self).holds_for(step),
            match output {
                AttemptOutput::TimedOut(scope) => {
                    &&& step == JobStep::<T, E>::End(
                        settled(
                            *old(cancellation),
                            TaskTerminal::TimedOut {
                                scope,
                                attempts: old(self).attempt,
                                last_error: old(self).pending_error,
                            },
                        ),
                    )
                    &&& *final(cancellation) == old(cancellation).claimed()
                    &&& *final(self) == (JobExecution {
                        pending_error: None,
                        ..old(self).released(step)
                    })
                },
                AttemptOutput::Value(value) => {
                    &&& step == JobStep::<T, E>::End(
                        settled(*old(cancellation), TaskTerminal::Completed(value)),
                    )
                    &&& *final(cancellation) == old(cancellation).claimed()
                    &&& *final(self) == old(self).released(step)
                },
                AttemptOutput::Control(TaskControl::Complete(value)) => {
                    &&& step == JobStep::<T, E>::End(
                        settled(*old(cancellation), TaskTerminal::Completed(value)),
                    )
                    &&& *final(cancellation) == old(cancellation).claimed()
                    &&& *final(self) == old(self).released(step)
                },
                AttemptOutput::Control(control) => {
                    &&& *final(self) == (JobExecution {
                        cursor: final(self).cursor,
                        ..old(self).released(step)
                    })
                    &&& advances(*old(self), *final(self), control, *old(cancellation), now, step)
                    &&& *final(cancellation) == if step is End {
                        old(cancellation).claimed()
                    } else {
                        *old(cancellation)
                    }
                },
                AttemptOutput::Error(error) => if old(self).retry is None {
                    &&& step == JobStep::<T, E>::End(
                        settled(*old(cancellation), TaskTerminal::Failed(error)),
                    )
                    &&& *final(cancellation) == old(cancellation).claimed()
                    &&& *final(self) == old(self).released(step)
                } else {
                    &&& step == JobStep::<T, E>::AskRetry
                    &&& *final(cancellation) == *old(cancellation)
                    &&& *final(self) == (JobExecution {
                        decided_error: Some(error),
                        ..old(self).released(step)
                    })
                },
            },
    {
        let step: JobStep<T, E> = match output {
            AttemptOutput::TimedOut(scope) => {
                let attempts: u32 = self.attempt;
                let last_error = self.pending_error.take();
                JobStep::End(
                    finalize_terminal(
                        cancellation,
                        TaskTerminal::TimedOut { scope, attempts, last_error },
                    ),
                )
            },
            AttemptOutput::Value(value) => {
                JobStep::End(finalize_terminal(cancellation, TaskTerminal::Completed(value)))
            },
            AttemptOutput::Control(TaskControl::Complete(value)) => {
                JobStep::End(finalize_terminal(cancellation, TaskTerminal::Completed(value)))
            },
            AttemptOutput::Control(control) => {
                return self.advance(control, cancellation, now);
            },
            AttemptOutput::Error(error) => {
                if self.retry.is_none() {
                    JobStep::End(finalize_terminal(cancellation, TaskTerminal::Failed(error)))
                } else {
                    self.decided_error = Some(error);
                    JobStep::AskRetry
                }
            },
        };
        self.give_back(step)
    }

    /// Goes on after the policy decided about the error. A scheduled run that used up its
    /// attempts goes on with its schedule if it is told to.
    pub fn retry_decided<T>(
        &mut self,
        should_retry: bool,
        cancellation: &mut Cancellation,
        now: Instant,
    ) -> (step: JobStep<T, E>)
        requires
            old(self).wf(),
            old(self).retry is Some,
            old(self).decided_error is Some,
        ensures
            final(self).wf(),
            final(self).holds_for(step),
            ({
                let error = old(self).decided_error->0;
                let cleared = JobExecution { decided_error: None, ..*old(self) };
                if !should_retry {
                    &&& step == JobStep::<T, E>::End(
                        settled(*old(cancellation), TaskTerminal::Failed(error)),
                    )
                    &&& *final(cancellation) == old(cancellation).claimed()
                    &&& *final(self) == cleared.released(step)
                } else if old(self).attempt < old(self).retry->0.max_attempts {
                    &&& step == (JobStep::<T, E>::AskDelay { attempt: old(self).attempt })
                    &&& *final(cancellation) == *old(cancellation)
                    &&& *final(self) == old(self).released(step)
                } else if old(self).retry_exhausted_action
                    == RetryExhaustedAction::ContinueSchedule && old(self).cursor is Some {
                    &&& *final(self) == (JobExecution {
                        cursor: final(self).cursor,
                        ..cleared.released(step)
                    })
                    &&& advances(
                        cleared,
                        *final(self),
                        TaskControl::<T>::Continue,
                        *old(cancellation),
                        now,
                        step,
                    )
                    &&& *final(cancellation) == if step is End {
                        old(cancellation).claimed()
                    } else {
                        *old(cancellation)
                    }
                } else {
                    &&& step == JobStep::<T, E>::End(
                        settled(
                            *old(cancellation),
                            TaskTerminal::RetriesExhausted {
                                attempts: old(self).attempt,
                                last_error: error,
                            },
                        ),
                    )
                    &&& *final(cancellation) == old(cancellation).claimed()
                    &&& *final(self) == cleared.released(step)
                }
            }),
    {
        let max_attempts: u32 = match &self.retry {
            Some(retry) => retry.max_attempts,
            None => 0,
        };
        if should_retry && self.attempt < max_attempts {
            return self.give_back(JobStep::AskDelay { attempt: self.attempt });
        }
        let error: E = match self.decided_error.take() {
            Some(error) => error,
            None => {
                assert(false);
                return self.give_back(JobStep::AskRetry);
            },
        };
        if !should_retry {
            let terminal = finalize_terminal(cancellation, TaskTerminal::Failed(error));
            return self.give_back(JobStep::End(terminal));
        }
        if self.retry_exhausted_action == RetryExhaustedAction::ContinueSchedule
            && self.cursor.is_some() {
            return self.advance(TaskControl::Continue, cancellation, now);
        }
        let terminal = finalize_terminal(
            cancellation,
            TaskTerminal::RetriesExhausted { attempts: self.attempt, last_error: error },
        );
        self.give_back(JobStep::End(terminal))
    }

    /// Waits for the delay that the policy chose.
    pub fn delay_decided<T>(&mut self, delay: Duration) -> (step: JobStep<T, E>)
        requires
            old(self).wf(),
            old(self).retry is Some,
            old(self).decided_error is Some,
            old(self).attempt < old(self).retry->0.max_attempts,
        ensures
            final(self).wf(),
            final(self).holds_for(step),
            *final(self) == (JobExecution {
                pending_error: old(self).decided_error,
                decided_error: None,
                ..old(self).released(step)
            }),
            step == (JobStep::<T, E>::Delay {
                delay,
                state: TaskState::WaitingForRetry,
                deadline: old(self).total_deadline,
                allow_trigger: false,
            }),
    {
        self.pending_error = self.decided_error.take();
        self.give_back(
            JobStep::Delay {
                delay,
                state: TaskState::WaitingForRetry,
                deadline: self.total_deadline,
                allow_trigger: false,
            },
        )
    }

    /// Goes on after the delay before a retry.
    pub fn retry_waited<T>(
        &mut self,
        result: Result<(), WaitError>,
        cancellation: &mut Cancellation,
    ) -> (step: JobStep<T, E>)
        requires
            old(self).wf(),
            old(self).retry is Some,
            old(self).attempt < old(self).retry->0.max_attempts,
            !(result matches Err(WaitError::Closed)),
            !(result matches Err(WaitError::Paused)),
        ensures
            final(self).wf(),
            final(self).holds_for(step),
            match result {
                Ok(_) => {
                    &&& step == (JobStep::<T, E>::Unpause { deadline: old(self).total_deadline })
                    &&& *final(self) == (JobExecution {
                        attempt: (old(self).attempt + 1) as u32,
                        ..old(self).released(step)
                    })
                    &&& *final(cancellation) == *old(cancellation)
                },
                Err(error) => {
                    &&& step == old(self).failed_wait::<T>(
                        error,
                        old(self).attempt as int,
                        *old(cancellation),
                    )
                    &&& *final(self) == old(self).after_failed_wait(error, false).released(step)
                    &&& *final(cancellation) == if JobExecution::<E>::claims(error) {
                        old(cancellation).claimed()
                    } else {
                        *old(cancellation)
                    }
                },
            },
    {
        match result {
            Ok(_) => {
                self.attempt = self.attempt + 1;
                self.give_back(JobStep::Unpause { deadline: self.total_deadline })
            },
            Err(error) => {
                let attempts: u32 = self.attempt;
                self.wait_failed(error, attempts, false, cancellation)
            },
        }
    }

    /// Goes on after the delay before the next invocation of a scheduled run.
    pub fn schedule_waited<T>(&mut self, result: Result<(), CancelReason>, now: Instant) -> (step:
        JobStep<T, E>)
        requires
            old(self).wf(),
            old(self).run_index < u64::MAX,
        ensures
            final(self).wf(),
            final(self).holds_for(step),
            match result {
                Err(reason) => {
                    &&& step == JobStep::<T, E>::End(TaskTerminal::Cancelled { reason })
                    &&& *final(self) == old(self).released(step)
                },
                Ok(_) => {
                    &&& *final(self) == (JobExecution {
                        run_index: (old(self).run_index + 1) as u64,
                        attempt: 1,
                        pending_error: None,
                        total_deadline: final(self).total_deadline,
                        ..old(self).released(step)
                    })
                    &&& is_deadline(
                        final(self).total_deadline,
                        deadline_from(old(self).retry, now@),
                    )
                    &&& step == (JobStep::<T, E>::Unpause {
                        deadline: final(self).total_deadline,
                    })
                },
            },
    {
        let step: JobStep<T, E> = match result {
            Err(reason) => JobStep::End(TaskTerminal::Cancelled { reason }),
            Ok(_) => {
                self.run_index = self.run_index + 1;
                self.attempt = 1;
                self.pending_error = None;
                self.total_deadline = retry_deadline(&self.retry, now);
                JobStep::Unpause { deadline: self.total_deadline }
            },
        };
        self.give_back(step)
    }
}

/// The race between a request to stop and an outcome, after a wait: where the wait alone
/// ended the run, the outcome is claimed.
pub open spec fn claimed_by(
    result: Result<(), WaitError>,
    cancellation: Cancellation,
) -> Cancellation {
    match result {
        Err(WaitError::TimedOut) => cancellation.claimed(),
        Err(WaitError::Closed) => cancellation.claimed(),
        _ => cancellation,
    }
}

/// A paused run that is asked to stop ends as cancelled, for the reason that was given.
pub proof fn lemma_stopped_pause_ends_the_run<T, E>(
    run: JobExecution<E>,
    reason: CancelReason,
    attempts: int,
    cancellation: Cancellation,
)
    ensures
        PauseWake::Cancelled(reason).ends() == Some(
            Err::<(), WaitError>(WaitError::Cancelled(reason)),
        ),
        run.failed_wait::<T>(WaitError::Cancelled(reason), attempts, cancellation) == (JobStep::<
            T,
            E,
        >::End(TaskTerminal::Cancelled { reason })),
{
}

/// Whether `limit` is that of an attempt which starts at `now`.
pub open spec fn runs_within(
    limit: Option<(Instant, TimeoutScope)>,
    timeout: Option<Duration>,
    total: Option<Instant>,
    now: nat,
) -> bool {
    let attempt = match timeout {
        Some(timeout) => if now + timeout@ <= MAX_NANOS {
            Some(now + timeout@)
        } else {
            None
        },
        None => None,
    };
    match (attempt, total) {
        (Some(attempt), Some(total)) => if total@ <= attempt {
            limit == Some((total, TimeoutScope::TotalElapsed))
        } else {
            &&& limit matches Some((at, scope))
            &&& at@ == attempt
            &&& scope == TimeoutScope::Attempt
        },
        (Some(attempt), None) => {
            &&& limit matches Some((at, scope))
            &&& at@ == attempt
            &&& scope == TimeoutScope::Attempt
        },
        (None, Some(total)) => limit == Some((total, TimeoutScope::TotalElapsed)),
        (None, None) => limit is None,
    }
}

/// How a scheduled run moves on to its next invocation: it waits as its schedule says, or
/// ends where there is no schedule, no number, or no next invocation.
pub open spec fn advances<T, E>(
    before: JobExecution<E>,
    after: JobExecution<E>,
    control: TaskControl<T>,
    cancellation: Cancellation,
    now: Instant,
    step: JobStep<T, E>,
) -> bool {
    match before.cursor {
        None => {
            &&& step == JobStep::<T, E>::End(
                settled(
                    cancellation,
                    TaskTerminal::ExecutorError { code: ExecutorErrorCode::ScheduleCursorMissing },
                ),
            )
            &&& after.cursor is None
        },
        Some(cursor) => if before.run_index == u64::MAX {
            &&& step == JobStep::<T, E>::End(
                settled(
                    cancellation,
                    TaskTerminal::ScheduleError(ScheduleError::RunIndexExhausted),
                ),
            )
            &&& after.cursor == before.cursor
        } else {
            let elapsed = if before.submitted_at@ <= now@ {
                (now@ - before.submitted_at@) as nat
            } else {
                0
            };
            let next = cursor@.next(control, elapsed);
            &&& after.cursor is Some
            &&& after.cursor->0@ == next.cursor
            &&& match next.delay {
                Err(error) => step == JobStep::<T, E>::End(
                    settled(cancellation, TaskTerminal::ScheduleError(error)),
                ),
                Ok(nanos) => if now@ + nanos > MAX_NANOS {
                    step == JobStep::<T, E>::End(
                        settled(
                            cancellation,
                            TaskTerminal::ScheduleError(ScheduleError::DurationOverflow),
                        ),
                    )
                } else {
                    &&& step matches JobStep::Delay { delay, state, deadline, allow_trigger }
                    &&& delay@ == nanos
                    &&& state == TaskState::WaitingForSchedule
                    &&& deadline is None
                    &&& allow_trigger
                },
            }
        },
    }
}

/// All attempts must be over once the limit has passed since their start; without a limit,
/// or with one that is out of range, there is no such point.
pub proof fn lemma_total_deadline_counts_from_the_start(
    retry: RetrySettings,
    started_at: nat,
    deadline: Option<Instant>,
)
    requires
        is_deadline(deadline, deadline_from(Some(retry), started_at)),
    ensures
        retry.max_elapsed is None ==> deadline is None,
        retry.max_elapsed matches Some(limit) ==> {
            &&& started_at + limit@ <= MAX_NANOS ==> deadline is Some && deadline->0@ == started_at
                + limit@
            &&& started_at + limit@ > MAX_NANOS ==> deadline is None
        },
        is_deadline(deadline, deadline_from(None, started_at)) ==> deadline is None,
{
}

/// A request to stop overrules any outcome of a run; without one the outcome stands.
pub proof fn lemma_request_overrules_the_outcome<T, E>(
    cancellation: Cancellation,
    terminal: TaskTerminal<T, E>,
)
    ensures
        cancellation.reason matches Some(reason) ==> settled(cancellation, terminal) == (
        TaskTerminal::<T, E>::Cancelled { reason }),
        cancellation.reason is None ==> settled(cancellation, terminal) == terminal,
{
}

/// A run gives its permits back for everything but the wait for the last permit and its
/// attempt, and its place in the queue when it ends. It never gains any of them so.
pub proof fn lemma_what_is_given_back<T, E>(run: JobExecution<E>, step: JobStep<T, E>)
    ensures
        step is Delay || step is Unpause || step is AcquireQueue || step is AcquireLane
            || step is AskRetry || step is AskDelay || step is End ==> !run.released(step).has_lane
            && !run.released(step).has_global,
        step is AcquireGlobal || step is Start || step is Run ==> run.released(step).has_lane
            == run.has_lane && run.released(step).has_global == run.has_global,
        step is End ==> !run.released(step).has_slot,
        !(step is End) ==> run.released(step).has_slot == run.has_slot,
        run.released(step).attempt == run.attempt,
        run.released(step).run_index == run.run_index,
        run.released(step).total_deadline == run.total_deadline,
        run.released(step).pending_error == run.pending_error,
        run.released(step).cursor == run.cursor,
        run.holds_for(step) && !(step is AcquireGlobal || step is Start || step is Run)
            ==> !run.has_lane && !run.has_global,
        run.holds_for(step) && step is End ==> !run.has_slot,
{
}

/// A wait that failed ends the run as cancelled for the reason given, as timed out with the
/// last error and the attempts made, or as stopped; a pause only makes it wait, and then the
/// place in the queue may go. A request to stop overrules a limit and a stop.
pub proof fn lemma_how_failed_waits_end<T, E>(
    run: JobExecution<E>,
    error: WaitError,
    attempts: u32,
    gives_back: bool,
    cancellation: Cancellation,
)
    ensures
        error matches WaitError::Cancelled(reason) ==> run.failed_wait::<T>(
            error,
            attempts as int,
            cancellation,
        ) == JobStep::<T, E>::End(TaskTerminal::Cancelled { reason }),
        error is TimedOut && cancellation.reason is None ==> run.failed_wait::<T>(
            error,
            attempts as int,
            cancellation,
        ) == JobStep::<T, E>::End(
            TaskTerminal::TimedOut {
                scope: TimeoutScope::TotalElapsed,
                attempts,
                last_error: run.pending_error,
            },
        ),
        error is Closed && cancellation.reason is None ==> run.failed_wait::<T>(
            error,
            attempts as int,
            cancellation,
        ) == JobStep::<T, E>::End(TaskTerminal::ExecutorStopped),
        (error is TimedOut || error is Closed) && cancellation.reason is Some ==> run.failed_wait::<
            T,
        >(error, attempts as int, cancellation) == JobStep::<T, E>::End(
            TaskTerminal::Cancelled { reason: cancellation.reason->0 },
        ),
        error is Paused ==> run.failed_wait::<T>(error, attempts as int, cancellation) == (
        JobStep::<T, E>::Unpause { deadline: run.total_deadline }),
        error is TimedOut ==> run.after_failed_wait(error, gives_back).pending_error is None,
        !(error is TimedOut) ==> run.after_failed_wait(error, gives_back).pending_error
            == run.pending_error,
        error is Paused && gives_back ==> !run.after_failed_wait(error, gives_back).has_slot,
        !(error is Paused && gives_back) ==> run.after_failed_wait(error, gives_back).has_slot
            == run.has_slot,
        run.after_failed_wait(error, gives_back).attempt == run.attempt,
        JobExecution::<E>::claims(error) <==> error is TimedOut || error is Closed,
{
}

/// An attempt starts only with both permits, with no pause and no request to stop in the way:
/// a pause makes the run wait without its permits and its place, and a request ends it.
pub proof fn lemma_when_attempts_start<T, E>(
    run: JobExecution<E>,
    after: JobExecution<E>,
    result: Result<(), WaitError>,
    paused: bool,
    cancellation: Cancellation,
    step: JobStep<T, E>,
)
    requires
        run.starts(after, result, paused, cancellation, step),
    ensures
        step is Start <==> result is Ok && !paused && cancellation.reason is None,
        step is Start ==> {
            &&& step == (JobStep::<T, E>::Start { attempt: run.attempt, run_index: run.run_index })
            &&& after.has_global
            &&& !after.has_slot
            &&& after.has_lane == run.has_lane
        },
        result is Ok && paused ==> {
            &&& step == (JobStep::<T, E>::Unpause { deadline: run.total_deadline })
            &&& !after.has_lane
            &&& !after.has_global
            &&& !after.has_slot
        },
        result is Ok && !paused && cancellation.reason is Some ==> {
            &&& step == JobStep::<T, E>::End(
                TaskTerminal::Cancelled { reason: cancellation.reason->0 },
            )
            &&& !after.has_lane
            &&& !after.has_global
            &&& !after.has_slot
        },
        after.attempt == run.attempt,
{
}

/// The outcome of a wait is claimed exactly where the wait alone ended the run: after a
/// deadline or a stop that no request came before.
pub proof fn lemma_which_waits_claim(result: Result<(), WaitError>, cancellation: Cancellation)
    ensures
        claimed_by(result, cancellation).reason == cancellation.reason,
        result is Ok ==> claimed_by(result, cancellation) == cancellation,
        result matches Err(WaitError::Cancelled(_)) ==> claimed_by(result, cancellation)
            == cancellation,
        result == Err::<(), WaitError>(WaitError::Paused) ==> claimed_by(result, cancellation)
            == cancellation,
        cancellation.reason is None && (result == Err::<(), WaitError>(WaitError::TimedOut)
            || result == Err::<(), WaitError>(WaitError::Closed)) ==> claimed_by(
            result,
            cancellation,
        ).outcome_claimed,
{
}

/// An attempt runs up to the earlier of its own limit and the total one, which wins if they
/// fall together; the scope says which it is.
pub proof fn lemma_attempt_runs_up_to_the_earlier_limit(
    limit: Option<(Instant, TimeoutScope)>,
    timeout: Option<Duration>,
    total: Option<Instant>,
    now: nat,
)
    requires
        runs_within(limit, timeout, total, now),
        timeout matches Some(span) ==> now + span@ <= MAX_NANOS,
    ensures
        limit is None <==> timeout is None && total is None,
        limit is Some ==> {
            &&& timeout matches Some(span) ==> (limit->0).0@ <= now + span@
            &&& total matches Some(at) ==> (limit->0).0@ <= at@
            &&& (limit->0).1 == TimeoutScope::TotalElapsed || (limit->0).1 == TimeoutScope::Attempt
            &&& (limit->0).1 == TimeoutScope::TotalElapsed ==> total == Some((limit->0).0)
            &&& (limit->0).1 == TimeoutScope::Attempt ==> timeout is Some && (limit->0).0@ == now
                + timeout->0@
            &&& timeout is Some && total is Some && total->0@ == now + timeout->0@ ==> (limit->0).1
                == TimeoutScope::TotalElapsed
        },
{
}

/// A scheduled run that goes on waits in the state for it, without a deadline, and a manual
/// trigger may end the wait: for the interval of a fixed delay, for a span that the
/// invocation asked for, and up to a point counted from its submission.
pub proof fn lemma_scheduled_runs_wait_as_asked<T, E>(
    before: JobExecution<E>,
    after: JobExecution<E>,
    control: TaskControl<T>,
    cancellation: Cancellation,
    now: Instant,
    step: JobStep<T, E>,
)
    requires
        advances(before, after, control, cancellation, now, step),
        before.cursor is Some,
        before.run_index < u64::MAX,
        before.submitted_at@ <= now@ <= MAX_NANOS,
    ensures
        step matches JobStep::Delay { delay, state, deadline, allow_trigger } ==> {
            &&& state == TaskState::WaitingForSchedule
            &&& deadline is None
            &&& allow_trigger
        },
        step is Delay || step is End,
        control matches TaskControl::ContinueAfter(span) ==> (now@ + span@ <= MAX_NANOS ==> {
            &&& step matches JobStep::Delay { delay, .. }
            &&& delay@ == span@
        }),
        control matches TaskControl::ContinueAt(point) ==> (before.submitted_at@ + point@
            <= MAX_NANOS ==> {
            &&& step matches JobStep::Delay { delay, .. }
            &&& now@ <= before.submitted_at@ + point@ ==> now@ + delay@ == before.submitted_at@
                + point@
            &&& before.submitted_at@ + point@ < now@ ==> delay@ == 0
        }),
        control is Continue ==> (before.cursor->0@.schedule.kind
            matches crate::schedule::KindView::FixedDelay(interval) ==> (now@ + interval
            <= MAX_NANOS ==> {
            &&& step matches JobStep::Delay { delay, .. }
            &&& delay@ == interval
        })),
        control is Continue && before.cursor->0@.schedule.kind
            is Dynamic ==> step == JobStep::<T, E>::End(
            settled(
                cancellation,
                TaskTerminal::ScheduleError(ScheduleError::DynamicControlRequired),
            ),
        ),
        after.cursor is Some && after.cursor->0@.schedule == before.cursor->0@.schedule,
{
    crate::schedule::lemma_steps_keep_the_schedule(
        before.cursor->0@,
        control,
        (now@ - before.submitted_at@) as nat,
    );
    crate::schedule::lemma_control_comes_before_the_schedule(
        before.cursor->0@,
        control,
        (now@ - before.submitted_at@) as nat,
    );
}

/// A run without a schedule, or one whose invocations cannot be numbered any more, does not
/// go on: it ends with that error, unless it was asked to stop.
pub proof fn lemma_when_runs_cannot_go_on<T, E>(
    before: JobExecution<E>,
    after: JobExecution<E>,
    control: TaskControl<T>,
    cancellation: Cancellation,
    now: Instant,
    step: JobStep<T, E>,
)
    requires
        advances(before, after, control, cancellation, now, step),
        cancellation.reason is None,
    ensures
        before.cursor is None ==> step == JobStep::<T, E>::End(
            TaskTerminal::ExecutorError { code: ExecutorErrorCode::ScheduleCursorMissing },
        ),
        before.cursor is Some && before.run_index == u64::MAX ==> step == JobStep::<T, E>::End(
            TaskTerminal::ScheduleError(ScheduleError::RunIndexExhausted),
        ),
{
}

} // verus!
