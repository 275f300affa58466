//! What is done to one registered run.

use crate::execution_core::JoinFailure;
use crate::observe::{TaskEvent, TaskEventKind};
use crate::scheduler::execute::{claimed_by, JobExecution, JobStep};
use crate::scheduler::run::{ManualControl, RunShared};
use crate::scheduler::runs::{find_run, has_run, lemma_run_place, run_place};
use crate::scheduler::state::{members_known, Scheduler, SchedulerView};
use crate::scheduler::types::{
    CancelReason, ExecutorErrorCode, TaskCommandError, TaskRunId, TaskState, TaskTerminal,
    TriggerOutcome,
};
use crate::scheduler::waits::{
    passed, pause_wait, published_state, ControlledDelay, DelayStep, DelayWake, PauseStep,
    WaitError, DAY,
};
use crate::time::{Instant, MAX_NANOS};
use vstd::prelude::*;

verus! {

impl SchedulerView {
    /// Nothing changes but the run at a place and the observations.
    pub open spec fn changes_run(self, after: SchedulerView, i: int) -> bool {
        after == (SchedulerView {
            runs: self.runs.update(i, after.runs[i]),
            observability: after.observability,
            ..self
        })
    }
}

/// The scheduler stays sound where one of its runs evolves.
proof fn lemma_run_changed(before: SchedulerView, after: SchedulerView, i: int)
    requires
        before.sound(),
        0 <= i < before.runs.len(),
        after.runs == before.runs.update(i, after.runs[i]),
        after == (SchedulerView {
            runs: after.runs,
            observability: after.observability,
            ..before
        }),
        after.runs[i].wf(),
        before.runs[i].evolves_into(&after.runs[i]),
    ensures
        after.sound(),
{
    assert forall|a: int, b: int| 0 <= a < b < after.runs.len() implies (
    #[trigger] after.runs[a]).run_id != (#[trigger] after.runs[b]).run_id by {
        assert(before.runs[a].run_id != before.runs[b].run_id);
    }
    assert forall|k: int| 0 <= k < after.runs.len() implies (#[trigger] after.runs[k]).wf() by {
        assert(before.runs[k].wf());
    }
    assert(members_known(after.groups, after.runs)) by {
        assert forall|k: int| 0 <= k < after.runs.len() implies ((
        #[trigger] after.runs[k]).group_generation matches Some(generation)
            ==> after.groups.contains_key(generation)) by {
            assert(before.runs[k].group_generation == after.runs[k].group_generation);
        }
    }
}

impl Scheduler {
    /// A registered run.
    pub fn run(&self, run_id: TaskRunId) -> (run: Option<&RunShared>)
        requires
            self.wf(),
        ensures
            match run {
                Some(run) => has_run(self@.runs, run_id) && *run == self@.runs[run_place(
                    self@.runs,
                    run_id,
                )],
                None => !has_run(self@.runs, run_id),
            },
    {
        match find_run(&self.runs, run_id) {
            None => None,
            Some(at) => {
                proof {
                    lemma_run_place(self@.runs, at as int);
                }
                Some(&self.runs[at])
            },
        }
    }

    /// Pauses a run; says whether that changed anything. A run that is not registered is over.
    pub fn pause(&mut self, run_id: TaskRunId) -> (result: Result<bool, TaskCommandError>)
        requires
            old(self).wf(),
        ensures
            final(self).wf(),
            old(self)@.kept_by(final(self)@),
            if !has_run(old(self)@.runs, run_id) {
                &&& result == Err::<bool, TaskCommandError>(TaskCommandError::Terminal)
                &&& final(self)@ == old(self)@
            } else {
                let i = run_place(old(self)@.runs, run_id);
                let before = old(self)@.runs[i];
                let after = final(self)@.runs[i];
                &&& old(self)@.changes_run(final(self)@, i)
                &&& final(self)@.observability == old(self)@.observability
                &&& if before.terminal {
                    &&& result == Err::<bool, TaskCommandError>(TaskCommandError::Terminal)
                    &&& after == before
                } else {
                    &&& result == Ok::<bool, TaskCommandError>(!before.manual.task_paused)
                    &&& after == (RunShared {
                        manual: ManualControl { task_paused: true, ..before.manual },
                        ..before
                    })
                }
            },
    {
        match find_run(&self.runs, run_id) {
            None => Err(TaskCommandError::Terminal),
            Some(at) => {
                let ghost scheduler = self@;
                proof {
                    lemma_run_place(scheduler.runs, at as int);
                }
                let result = self.runs[at].pause();
                proof {
                    lemma_run_changed(scheduler, self@, at as int);
                }
                result
            },
        }
    }

    /// Ends the pause of a run, unless its group is paused; says whether that changed
    /// anything.
    pub fn resume(&mut self, run_id: TaskRunId) -> (result: Result<bool, TaskCommandError>)
        requires
            old(self).wf(),
        ensures
            final(self).wf(),
            old(self)@.kept_by(final(self)@),
            if !has_run(old(self)@.runs, run_id) {
                &&& result == Err::<bool, TaskCommandError>(TaskCommandError::Terminal)
                &&& final(self)@ == old(self)@
            } else {
                let i = run_place(old(self)@.runs, run_id);
                let before = old(self)@.runs[i];
                let after = final(self)@.runs[i];
                &&& old(self)@.changes_run(final(self)@, i)
                &&& final(self)@.observability == old(self)@.observability
                &&& if before.terminal {
                    &&& result == Err::<bool, TaskCommandError>(TaskCommandError::Terminal)
                    &&& after == before
                } else if old(self)@.group_paused(before.group_generation) {
                    &&& result == Err::<bool, TaskCommandError>(TaskCommandError::ScopePaused)
                    &&& after == before
                } else {
                    &&& result == Ok::<bool, TaskCommandError>(before.manual.task_paused)
                    &&& after == (RunShared {
                        manual: ManualControl { task_paused: false, ..before.manual },
                        ..before
                    })
                }
            },
    {
        match find_run(&self.runs, run_id) {
            None => Err(TaskCommandError::Terminal),
            Some(at) => {
                let ghost scheduler = self@;
                proof {
                    lemma_run_place(scheduler.runs, at as int);
                }
                let group_paused: bool = self.is_group_paused(self.runs[at].group_generation);
                let result = self.runs[at].resume(group_paused);
                proof {
                    lemma_run_changed(scheduler, self@, at as int);
                }
                result
            },
        }
    }

    /// Asks for a run now. A run that is paused, by itself or with its group, keeps the
    /// request as its policy says.
    pub fn run_now(
        &mut self,
        run_id: TaskRunId,
    ) -> (result: Result<TriggerOutcome, TaskCommandError>)
        requires
            old(self).wf(),
        ensures
            final(self).wf(),
            old(self)@.kept_by(final(self)@),
            if !has_run(old(self)@.runs, run_id) {
                &&& result == Err::<TriggerOutcome, TaskCommandError>(TaskCommandError::Terminal)
                &&& final(self)@ == old(self)@
            } else {
                let i = run_place(old(self)@.runs, run_id);
                let before = old(self)@.runs[i];
                let after = final(self)@.runs[i];
                &&& old(self)@.changes_run(final(self)@, i)
                &&& final(self)@.observability == old(self)@.observability
                &&& result == before.triggers(old(self)@.group_paused(before.group_generation))
                &&& after == if before.terminal || before.manual.trigger_policy is None {
                    before
                } else {
                    RunShared {
                        manual: ManualControl {
                            pending: before.manual.triggered(
                                before.manual.trigger_policy->0,
                                before.snapshot.state,
                            ).1 as usize,
                            ..before.manual
                        },
                        ..before
                    }
                }
            },
    {
        match find_run(&self.runs, run_id) {
            None => Err(TaskCommandError::Terminal),
            Some(at) => {
                let ghost scheduler = self@;
                proof {
                    lemma_run_place(scheduler.runs, at as int);
                }
                let group_paused: bool = self.is_group_paused(self.runs[at].group_generation);
                let result = self.runs[at].run_now(group_paused);
                proof {
                    lemma_run_changed(scheduler, self@, at as int);
                }
                result
            },
        }
    }

    /// Publishes a state of a run that is not terminal.
    pub fn transition(
        &mut self,
        run_id: TaskRunId,
        state: TaskState,
        now: Instant,
    ) -> (result: Option<TaskEvent>)
        requires
            old(self).wf(),
            !state.terminal(),
        ensures
            final(self).wf(),
            old(self)@.kept_by(final(self)@),
            if !has_run(old(self)@.runs, run_id) {
                &&& result is None
                &&& final(self)@ == old(self)@
            } else {
                let i = run_place(old(self)@.runs, run_id);
                let before = old(self)@.runs[i];
                let after = final(self)@.runs[i];
                &&& old(self)@.changes_run(final(self)@, i)
                &&& published_state(
                    before,
                    after,
                    state,
                    None,
                    old(self)@.observability,
                    final(self)@.observability,
                    now,
                    result,
                )
            },
    {
        match find_run(&self.runs, run_id) {
            None => None,
            Some(at) => {
                let ghost scheduler = self@;
                proof {
                    lemma_run_place(scheduler.runs, at as int);
                }
                let result = self.runs[at].transition(state, &mut self.observability, now);
                proof {
                    lemma_run_changed(scheduler, self@, at as int);
                }
                result
            },
        }
    }

    /// Waits for the end of the pause of a run.
    pub fn pause_step(
        &mut self,
        run_id: TaskRunId,
        deadline: Option<Instant>,
        now: Instant,
    ) -> (result: Option<PauseStep>)
        requires
            old(self).wf(),
        ensures
            final(self).wf(),
            old(self)@.kept_by(final(self)@),
            if !has_run(old(self)@.runs, run_id) {
                &&& result is None
                &&& final(self)@ == old(self)@
            } else {
                let i = run_place(old(self)@.runs, run_id);
                let before = old(self)@.runs[i];
                let after = final(self)@.runs[i];
                &&& old(self)@.changes_run(final(self)@, i)
                &&& result matches Some(step)
                &&& if !before.manual.paused() {
                    &&& step == PauseStep::Done(Ok(()))
                    &&& after == before
                    &&& final(self)@.observability == old(self)@.observability
                } else if passed(deadline, now) {
                    &&& step == PauseStep::Done(Err(WaitError::TimedOut))
                    &&& after == before
                    &&& final(self)@.observability == old(self)@.observability
                } else {
                    &&& step matches PauseStep::Wait { until, event }
                    &&& until == deadline
                    &&& published_state(
                        before,
                        after,
                        TaskState::Paused,
                        None,
                        old(self)@.observability,
                        final(self)@.observability,
                        now,
                        event,
                    )
                }
            },
    {
        match find_run(&self.runs, run_id) {
            None => None,
            Some(at) => {
                let ghost scheduler = self@;
                proof {
                    lemma_run_place(scheduler.runs, at as int);
                }
                let result = Some(
                    pause_wait(&mut self.runs[at], deadline, &mut self.observability, now),
                );
                proof {
                    lemma_run_changed(scheduler, self@, at as int);
                }
                result
            },
        }
    }

    /// Looks at a run that is delayed, and says what the delay does next.
    pub fn delay_step(
        &mut self,
        run_id: TaskRunId,
        wait: &ControlledDelay,
        now: Instant,
    ) -> (result: Option<DelayStep>)
        requires
            old(self).wf(),
            !wait.state.terminal(),
            wait.delay_deadline is None && wait.total_deadline is None ==> now@ + DAY
                <= MAX_NANOS,
        ensures
            final(self).wf(),
            old(self)@.kept_by(final(self)@),
            if !has_run(old(self)@.runs, run_id) {
                &&& result is None
                &&& final(self)@ == old(self)@
            } else {
                let i = run_place(old(self)@.runs, run_id);
                let before = old(self)@.runs[i];
                let after = final(self)@.runs[i];
                &&& old(self)@.changes_run(final(self)@, i)
                &&& result matches Some(step)
                &&& wait.steps(
                    before,
                    after,
                    old(self)@.observability,
                    final(self)@.observability,
                    now,
                    step,
                )
            },
    {
        match find_run(&self.runs, run_id) {
            None => None,
            Some(at) => {
                let ghost scheduler = self@;
                proof {
                    lemma_run_place(scheduler.runs, at as int);
                }
                let result = Some(wait.step(&mut self.runs[at], &mut self.observability, now));
                proof {
                    lemma_run_changed(scheduler, self@, at as int);
                }
                result
            },
        }
    }

    /// How a delay of a run goes on after a step; nothing means that it looks again.
    pub fn delay_woken(
        &mut self,
        run_id: TaskRunId,
        wait: &ControlledDelay,
        wake: DelayWake,
    ) -> (result: Option<Option<Result<(), WaitError>>>)
        requires
            old(self).wf(),
        ensures
            final(self).wf(),
            old(self)@.kept_by(final(self)@),
            if !has_run(old(self)@.runs, run_id) {
                &&& result is None
                &&& final(self)@ == old(self)@
            } else {
                let i = run_place(old(self)@.runs, run_id);
                let before = old(self)@.runs[i];
                let after = final(self)@.runs[i];
                &&& old(self)@.changes_run(final(self)@, i)
                &&& final(self)@.observability == old(self)@.observability
                &&& result == Some(wake.ends())
                &&& after == wait.after_wake(wake, before)
            },
    {
        match find_run(&self.runs, run_id) {
            None => None,
            Some(at) => {
                let ghost scheduler = self@;
                proof {
                    lemma_run_place(scheduler.runs, at as int);
                }
                let result = Some(wait.woken(wake, &mut self.runs[at]));
                proof {
                    lemma_run_changed(scheduler, self@, at as int);
                }
                result
            },
        }
    }

    /// Claims an outcome of a run, unless a request to stop came first.
    pub fn claim_outcome(&mut self, run_id: TaskRunId) -> (result: Option<Option<CancelReason>>)
        requires
            old(self).wf(),
        ensures
            final(self).wf(),
            old(self)@.kept_by(final(self)@),
            if !has_run(old(self)@.runs, run_id) {
                &&& result is None
                &&& final(self)@ == old(self)@
            } else {
                let i = run_place(old(self)@.runs, run_id);
                let before = old(self)@.runs[i];
                let after = final(self)@.runs[i];
                &&& old(self)@.changes_run(final(self)@, i)
                &&& final(self)@.observability == old(self)@.observability
                &&& result == Some(before.cancellation.reason)
                &&& after == (RunShared {
                    cancellation: before.cancellation.claimed(),
                    ..before
                })
            },
    {
        match find_run(&self.runs, run_id) {
            None => None,
            Some(at) => {
                let ghost scheduler = self@;
                proof {
                    lemma_run_place(scheduler.runs, at as int);
                }
                let result = Some(self.runs[at].cancellation.claim_outcome());
                proof {
                    lemma_run_changed(scheduler, self@, at as int);
                }
                result
            },
        }
    }

    /// Records that a run can be aborted; says whether it is registered.
    pub fn set_abortable(&mut self, run_id: TaskRunId) -> (result: bool)
        requires
            old(self).wf(),
        ensures
            final(self).wf(),
            old(self)@.kept_by(final(self)@),
            if !has_run(old(self)@.runs, run_id) {
                &&& !result
                &&& final(self)@ == old(self)@
            } else {
                let i = run_place(old(self)@.runs, run_id);
                let before = old(self)@.runs[i];
                let after = final(self)@.runs[i];
                &&& old(self)@.changes_run(final(self)@, i)
                &&& final(self)@.observability == old(self)@.observability
                &&& result
                &&& after == (RunShared { abortable: true, ..before })
            },
    {
        match find_run(&self.runs, run_id) {
            None => false,
            Some(at) => {
                let ghost scheduler = self@;
                proof {
                    lemma_run_place(scheduler.runs, at as int);
                }
                self.runs[at].set_abortable();
                let result: bool = true;
                proof {
                    lemma_run_changed(scheduler, self@, at as int);
                }
                result
            },
        }
    }

    /// Whether a run is to be aborted now: once, before its end, and only if it can be.
    pub fn request_abort(&mut self, run_id: TaskRunId) -> (result: bool)
        requires
            old(self).wf(),
        ensures
            final(self).wf(),
            old(self)@.kept_by(final(self)@),
            if !has_run(old(self)@.runs, run_id) {
                &&& !result
                &&& final(self)@ == old(self)@
            } else {
                let i = run_place(old(self)@.runs, run_id);
                let before = old(self)@.runs[i];
                let after = final(self)@.runs[i];
                &&& old(self)@.changes_run(final(self)@, i)
                &&& final(self)@.observability == old(self)@.observability
                &&& result == (!before.terminal && !before.abort_requested && before.abortable)
                &&& after == (RunShared {
                    abort_requested: before.abort_requested || result,
                    ..before
                })
            },
    {
        match find_run(&self.runs, run_id) {
            None => false,
            Some(at) => {
                let ghost scheduler = self@;
                proof {
                    lemma_run_place(scheduler.runs, at as int);
                }
                let result = self.runs[at].request_abort();
                proof {
                    lemma_run_changed(scheduler, self@, at as int);
                }
                result
            },
        }
    }

    /// Ends a run as its task came back.
    pub fn settle<T, E>(
        &mut self,
        run_id: TaskRunId,
        joined: Result<TaskTerminal<T, E>, JoinFailure>,
        now: Instant,
    ) -> (result: Option<(TaskTerminal<T, E>, Option<TaskEvent>)>)
        requires
            old(self).wf(),
        ensures
            final(self).wf(),
            old(self)@.kept_by(final(self)@),
            if !has_run(old(self)@.runs, run_id) {
                &&& result is None
                &&& final(self)@ == old(self)@
            } else {
                let i = run_place(old(self)@.runs, run_id);
                let before = old(self)@.runs[i];
                let after = final(self)@.runs[i];
                &&& old(self)@.changes_run(final(self)@, i)
                &&& after.terminal
                &&& result matches Some((ended, event))
                &&& exists|claimed: RunShared, terminal: TaskTerminal<T, E>| #[trigger]
                    before.comes_back(joined, claimed, terminal) && if !before.terminal {
                        &&& ended == terminal
                        &&& claimed.becomes(
                            after,
                            terminal.state_spec(),
                            None,
                            old(self)@.observability,
                            now,
                        )
                        &&& after.publishes(
                            TaskEventKind::Terminal,
                            old(self)@.observability,
                            event,
                        )
                        &&& final(self)@.observability == old(self)@.observability.published()
                    } else {
                        &&& event is None
                        &&& after == claimed
                        &&& final(self)@.observability == old(self)@.observability
                        &&& ended == if before.snapshot.state == TaskState::ExecutorStopped {
                            TaskTerminal::<T, E>::ExecutorStopped
                        } else {
                            terminal
                        }
                    }
            },
    {
        match find_run(&self.runs, run_id) {
            None => None,
            Some(at) => {
                let ghost scheduler = self@;
                proof {
                    lemma_run_place(scheduler.runs, at as int);
                }
                let ghost run = self.runs@[at as int];
                let terminal = self.runs[at].joined(joined);
                let ghost claimed = self.runs@[at as int];
                let settled = self.runs[at].settle(terminal, &mut self.observability, now);
                proof {
                    crate::scheduler::run::lemma_evolution_is_transitive(
                        run,
                        claimed,
                        self.runs@[at as int],
                    );
                    assert(run.comes_back(joined, claimed, terminal));
                    assert(self@.runs =~= scheduler.runs.update(
                        at as int,
                        self@.runs[at as int],
                    ));
                }
                let result = Some(settled);
                proof {
                    lemma_run_changed(scheduler, self@, at as int);
                }
                result
            },
        }
    }

    /// The result that the owner of a run receives. Where the sender is gone, the run ends,
    /// and the owner is told why.
    pub fn receive_terminal<T, E>(
        &mut self,
        run_id: TaskRunId,
        received: Option<TaskTerminal<T, E>>,
        now: Instant,
    ) -> (result: Option<(TaskTerminal<T, E>, Option<TaskEvent>)>)
        requires
            old(self).wf(),
        ensures
            final(self).wf(),
            old(self)@.kept_by(final(self)@),
            if !has_run(old(self)@.runs, run_id) {
                &&& result is None
                &&& final(self)@ == old(self)@
            } else {
                let i = run_place(old(self)@.runs, run_id);
                let before = old(self)@.runs[i];
                let after = final(self)@.runs[i];
                &&& old(self)@.changes_run(final(self)@, i)
                &&& result matches Some((terminal, event))
                &&& terminal == match received {
                    Some(terminal) => terminal,
                    None => if before.snapshot.state == TaskState::ExecutorError {
                        TaskTerminal::ExecutorError {
                            code: ExecutorErrorCode::CompletionAlreadyPublished,
                        }
                    } else {
                        TaskTerminal::ExecutorStopped
                    },
                }
                &&& if received is Some || before.terminal {
                    &&& event is None
                    &&& after == before
                    &&& final(self)@.observability == old(self)@.observability
                } else {
                    &&& before.becomes(
                        after,
                        TaskState::ExecutorStopped,
                        None,
                        old(self)@.observability,
                        now,
                    )
                    &&& after.terminal
                    &&& after.publishes(TaskEventKind::Terminal, old(self)@.observability, event)
                    &&& final(self)@.observability == old(self)@.observability.published()
                }
            },
    {
        match find_run(&self.runs, run_id) {
            None => None,
            Some(at) => {
                let ghost scheduler = self@;
                proof {
                    lemma_run_place(scheduler.runs, at as int);
                }
                let result = self.runs[at].receive_terminal(
                    received,
                    &mut self.observability,
                    now,
                );
                proof {
                    lemma_run_changed(scheduler, self@, at as int);
                }
                Some(result)
            },
        }
    }

    /// Goes on after the wait of a run for a permit of the scheduler. Whether the run is
    /// paused or asked to stop is seen, and that it is running is published, in one step.
    pub fn start_attempt<T, E>(
        &mut self,
        run_id: TaskRunId,
        execution: &mut JobExecution<E>,
        result: Result<(), WaitError>,
        now: Instant,
    ) -> (started: Option<(JobStep<T, E>, Option<TaskEvent>)>)
        requires
            old(self).wf(),
            old(execution).wf(),
        ensures
            final(self).wf(),
            old(self)@.kept_by(final(self)@),
            final(execution).wf(),
            if !has_run(old(self)@.runs, run_id) {
                &&& started is None
                &&& final(self)@ == old(self)@
                &&& *final(execution) == *old(execution)
            } else {
                let i = run_place(old(self)@.runs, run_id);
                let before = old(self)@.runs[i];
                let claimed = RunShared {
                    cancellation: claimed_by(result, before.cancellation),
                    ..before
                };
                let after = final(self)@.runs[i];
                &&& old(self)@.changes_run(final(self)@, i)
                &&& started matches Some((step, event))
                &&& final(execution).holds_for(step)
                &&& old(execution).starts(
                    *final(execution),
                    result,
                    before.manual.paused(),
                    before.cancellation,
                    step,
                )
                &&& if step is Start {
                    published_state(
                        claimed,
                        after,
                        TaskState::Running,
                        None,
                        old(self)@.observability,
                        final(self)@.observability,
                        now,
                        event,
                    )
                } else {
                    &&& event is None
                    &&& after == claimed
                    &&& final(self)@.observability == old(self)@.observability
                }
            },
    {
        match find_run(&self.runs, run_id) {
            None => None,
            Some(at) => {
                let ghost scheduler = self@;
                proof {
                    lemma_run_place(scheduler.runs, at as int);
                }
                let paused: bool = self.runs[at].manual.is_paused();
                let step: JobStep<T, E> = execution.global_acquired(
                    result,
                    paused,
                    &mut self.runs[at].cancellation,
                );
                let ghost claimed = self.runs@[at as int];
                let mut event: Option<TaskEvent> = None;
                if let JobStep::Start { .. } = &step {
                    event =
                    self.runs[at].transition(TaskState::Running, &mut self.observability, now);
                }
                proof {
                    crate::scheduler::run::lemma_evolution_is_transitive(
                        scheduler.runs[at as int],
                        claimed,
                        self.runs@[at as int],
                    );
                    assert(self@.runs =~= scheduler.runs.update(
                        at as int,
                        self@.runs[at as int],
                    ));
                    lemma_run_changed(scheduler, self@, at as int);
                }
                Some((step, event))
            },
        }
    }
}

/// What is done to one run changes no other run, and neither lanes, groups, keys nor the life
/// of the scheduler.
pub proof fn lemma_commands_reach_one_run(
    before: SchedulerView,
    after: SchedulerView,
    i: int,
    other: int,
)
    requires
        before.changes_run(after, i),
        0 <= i < before.runs.len(),
        0 <= other < before.runs.len(),
        other != i,
    ensures
        after.runs.len() == before.runs.len(),
        after.runs[other] == before.runs[other],
        after.lanes == before.lanes,
        after.groups == before.groups,
        after.group_names == before.group_names,
        after.keys == before.keys,
        after.lifecycle == before.lifecycle,
        after.next_lane_generation == before.next_lane_generation,
        after.next_group_generation == before.next_group_generation,
        after.shutdown_policy == before.shutdown_policy,
        after.shutdown_started == before.shutdown_started,
{
}

} // verus!
