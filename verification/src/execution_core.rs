//! The life of one execution: it is queued, runs, may be asked to stop, and ends with
//! exactly one outcome.

use crate::execution::{
    copy_cause, copy_summary, panic_exit, panic_outcome, AbortPolicy, CancelReason,
    CancelRequestOutcome, Cancelled, ExecutionKind, ExecutionWaitError, ExecutorStopReason,
    ForcedCancellationError, ForcedCancellationOutcome, JoinResultError, PanicSource,
    SpawnChildError, StopCauseSummary, TaskExit, TaskExitSummary, TaskFailure, TaskSnapshot,
    TaskSpec, TaskState,
};
use crate::ids::{ExecutionId, LaneId, ScopeId, TaskSpecId};
use crate::shutdown::{CleanupOutcome, CleanupPhase, CleanupProgress};
use crate::time::{Duration, Instant, MAX_NANOS};
use vstd::prelude::*;

verus! {

/// How many children an execution may track when nothing limits it otherwise.
pub const DEFAULT_CHILD_LIMIT: usize = 1024;

/// A child and the attempt that started it.
#[derive(Clone, Copy, Debug)]
pub struct TrackedChild {
    pub attempt: u32,
    pub execution_id: ExecutionId,
}

/// The children of an execution.
#[derive(Debug)]
pub struct ChildSet {
    pub admission_open: bool,
    pub current_attempt: u32,
    pub attempt_admission_open: bool,
    pub children: Vec<TrackedChild>,
}

/// An execution without its runtime.
pub struct ExecutionCore {
    pub execution_id: ExecutionId,
    pub task_spec_id: TaskSpecId,
    pub public_state: TaskState,
    pub stop_cause: Option<StopCauseSummary>,
    pub terminal: Option<TaskExitSummary>,
    pub tag: Option<String>,
    pub lane_id: Option<LaneId>,
    pub scope_id: Option<ScopeId>,
    pub scope_generation: Option<u64>,
    pub kind: ExecutionKind,
    pub resume_epoch: u64,
    pub abort_policy: AbortPolicy,
    /// Whether there is a tracked body that can be dropped.
    pub abort_handle: bool,
    pub forced_cancellation_requested: bool,
    /// Whether the executor lists the execution.
    pub registered: bool,
    /// The executions that this one runs within, outermost first, and itself.
    pub execution_path: Vec<ExecutionId>,
    pub cleanup: CleanupProgress,
    /// Whether a request to stop must take the execution out of a queue.
    pub queued_cancel_hook: bool,
    pub children: ChildSet,
}

/// The outcome of an execution, until it is taken.
pub struct ResultCell<T, E> {
    pub value: Option<TaskExit<T, E>>,
}

impl<T, E> ResultCell<T, E> {
    /// No outcome yet.
    pub fn new() -> (cell: Self)
        ensures
            cell.value is None,
    {
        ResultCell { value: None }
    }

    /// Keeps the first outcome and returns its summary.
    pub fn store(&mut self, exit: TaskExit<T, E>) -> (summary: TaskExitSummary)
        ensures
            match old(self).value {
                Some(existing) => {
                    &&& *final(self) == *old(self)
                    &&& summary == existing.summarized()
                },
                None => {
                    &&& final(self).value == Some(exit)
                    &&& summary == exit.summarized()
                },
            },
    {
        match &self.value {
            Some(existing) => existing.summary(),
            None => {
                let summary = exit.summary();
                self.value = Some(exit);
                summary
            },
        }
    }

    /// Takes the outcome, if it is there.
    pub fn take(&mut self) -> (exit: Option<TaskExit<T, E>>)
        ensures
            exit == old(self).value,
            final(self).value is None,
    {
        self.value.take()
    }
}

/// What a request to stop asks of the caller.
pub struct StopRequest {
    pub outcome: CancelRequestOutcome,
    /// Whether the execution must be taken out of its queue.
    pub leave_queue: bool,
    /// The children to cancel.
    pub children: Vec<ExecutionId>,
}

/// The outcome that ends an execution: work that was dropped is aborted; else a
/// request to cancel wins over any other outcome, and a passed deadline over any
/// outcome that is not about it.
pub open spec fn selected_exit<T, E>(
    stop_cause: Option<StopCauseSummary>,
    exit: TaskExit<T, E>,
) -> TaskExit<T, E> {
    if exit is Aborted {
        exit
    } else {
        match stop_cause {
            Some(StopCauseSummary::Cancel(reason)) => TaskExit::Cancelled { reason },
            Some(StopCauseSummary::Deadline) => match exit {
                TaskExit::Failed(TaskFailure::DeadlineExceeded { .. }) => exit,
                _ => TaskExit::Failed(TaskFailure::DeadlineExceeded { last_error: None }),
            },
            None => exit,
        }
    }
}

/// The children that an attempt started.
pub open spec fn attempt_children(children: Seq<TrackedChild>, attempt: u32) -> Seq<TrackedChild> {
    children.filter(|child: TrackedChild| child.attempt == attempt)
}

/// The children that other attempts started.
pub open spec fn other_children(children: Seq<TrackedChild>, attempt: u32) -> Seq<TrackedChild> {
    children.filter(|child: TrackedChild| child.attempt != attempt)
}

/// The identities of children.
pub open spec fn child_ids(children: Seq<TrackedChild>) -> Seq<ExecutionId> {
    children.map_values(|child: TrackedChild| child.execution_id)
}

impl ExecutionCore {
    /// The shown state agrees with the outcome and with the accepted stop cause.
    pub open spec fn wf(&self) -> bool {
        &&& self.terminal matches Some(summary) ==> self.public_state == summary.state_spec()
        &&& self.terminal is None ==> match self.stop_cause {
            Some(cause) => self.public_state == (TaskState::Stopping { cause }),
            None => {
                self.public_state is Queued || self.public_state is Running
                    || self.public_state is Sleeping
            },
        }
        &&& self.execution_path.len() > 0
        &&& self.execution_path@.last() == self.execution_id
    }

    /// Whether `later` keeps what is settled here: the outcome, with the state that
    /// shows it, and the first accepted stop cause.
    pub open spec fn settles_into(&self, later: &ExecutionCore) -> bool {
        &&& self.terminal is Some ==> later.terminal == self.terminal && later.public_state
            == self.public_state
        &&& self.stop_cause is Some ==> later.stop_cause == self.stop_cause
    }

    /// What a request to stop for `cause` does: only the first one counts, and only before
    /// the end.
    pub open spec fn stops(
        &self,
        cause: StopCauseSummary,
        later: ExecutionCore,
        request: StopRequest,
    ) -> bool {
        if self.terminal is Some || self.stop_cause is Some {
            &&& request.outcome == if self.terminal is Some {
                CancelRequestOutcome::AlreadyTerminal
            } else {
                CancelRequestOutcome::AlreadyStopping
            }
            &&& !request.leave_queue
            &&& request.children@.len() == 0
            &&& later == *self
        } else {
            &&& request.outcome == CancelRequestOutcome::Requested
            &&& request.leave_queue == self.queued_cancel_hook
            &&& request.children@ == child_ids(self.children.children@)
            &&& later == (ExecutionCore {
                stop_cause: Some(cause),
                public_state: TaskState::Stopping { cause },
                queued_cancel_hook: false,
                ..*self
            })
        }
    }

    /// The execution with an outcome.
    pub open spec fn ended<T, E>(self, exit: TaskExit<T, E>) -> ExecutionCore {
        ExecutionCore {
            public_state: exit.summarized().state_spec(),
            terminal: Some(exit.summarized()),
            ..self
        }
    }

    /// A queued execution within `ancestors`.
    pub fn new(
        execution_id: ExecutionId,
        task_spec_id: TaskSpecId,
        tag: Option<String>,
        ancestors: Vec<ExecutionId>,
    ) -> (core: Self)
        ensures
            core.wf(),
            core.execution_id == execution_id,
            core.task_spec_id == task_spec_id,
            core.tag == tag,
            core.public_state is Queued,
            core.stop_cause is None,
            core.terminal is None,
            core.lane_id is None,
            core.scope_id is None,
            core.scope_generation is None,
            core.kind == ExecutionKind::Finite,
            core.resume_epoch == 0,
            core.abort_policy == AbortPolicy::CooperativeOnly,
            !core.abort_handle,
            !core.forced_cancellation_requested,
            !core.registered,
            !core.queued_cancel_hook,
            core.cleanup is NotRequired,
            core.execution_path@ == ancestors@.push(execution_id),
            core.children.admission_open,
            core.children.attempt_admission_open,
            core.children.current_attempt == 1,
            core.children.children@.len() == 0,
    {
        let mut execution_path = ancestors;
        execution_path.push(execution_id);
        ExecutionCore {
            execution_id,
            task_spec_id,
            public_state: TaskState::Queued,
            stop_cause: None,
            terminal: None,
            tag,
            lane_id: None,
            scope_id: None,
            scope_generation: None,
            kind: ExecutionKind::Finite,
            resume_epoch: 0,
            abort_policy: AbortPolicy::CooperativeOnly,
            abort_handle: false,
            forced_cancellation_requested: false,
            registered: false,
            execution_path,
            cleanup: CleanupProgress::NotRequired,
            queued_cancel_hook: false,
            children: ChildSet {
                admission_open: true,
                current_attempt: 1,
                attempt_admission_open: true,
                children: Vec::new(),
            },
        }
    }

    /// A queued execution of a definition.
    pub fn of_spec<F>(execution_id: ExecutionId, spec: &TaskSpec<F>) -> (core: Self)
        ensures
            core.wf(),
            core.execution_id == execution_id,
            core.task_spec_id == spec.id,
            core.tag == spec.tag,
            core.public_state is Queued,
            core.stop_cause is None,
            core.terminal is None,
            core.lane_id is None,
            core.scope_id is None,
            core.scope_generation is None,
            core.kind == ExecutionKind::Finite,
            core.resume_epoch == 0,
            core.abort_policy == spec.abort_policy,
            !core.abort_handle,
            !core.forced_cancellation_requested,
            !core.registered,
            !core.queued_cancel_hook,
            core.cleanup is NotRequired,
            core.execution_path@ == seq![execution_id],
            core.children.admission_open,
            core.children.attempt_admission_open,
            core.children.current_attempt == 1,
            core.children.children@.len() == 0,
    {
        let tag: Option<String> = match &spec.tag {
            Some(tag) => Some(tag.clone()),
            None => None,
        };
        let mut core = ExecutionCore::new(execution_id, spec.id, tag, Vec::new());
        core.abort_policy = spec.abort_policy;
        assert(core.execution_path@ =~= seq![execution_id]);
        core
    }

    /// What is known of the execution now.
    pub fn snapshot(&self) -> (snapshot: TaskSnapshot)
        ensures
            snapshot == (TaskSnapshot {
                execution_id: self.execution_id,
                task_spec_id: self.task_spec_id,
                state: self.public_state,
                stop_cause: self.stop_cause,
                final_exit: self.terminal,
                kind: self.kind,
                lane_id: self.lane_id,
                scope_id: self.scope_id,
                scope_generation: self.scope_generation,
            }),
    {
        TaskSnapshot {
            execution_id: self.execution_id,
            task_spec_id: self.task_spec_id,
            state: self.public_state.clone(),
            stop_cause: copy_cause(&self.stop_cause),
            final_exit: copy_summary(&self.terminal),
            kind: self.kind,
            lane_id: self.lane_id,
            scope_id: self.scope_id,
            scope_generation: self.scope_generation,
        }
    }

    /// Puts the execution on a lane.
    pub fn set_lane_id(&mut self, lane_id: LaneId)
        ensures
            *final(self) == (ExecutionCore { lane_id: Some(lane_id), ..*old(self) }),
    {
        self.lane_id = Some(lane_id);
    }

    /// Puts the execution into a generation of a scope.
    pub fn set_scope(&mut self, scope_id: ScopeId, generation: u64)
        ensures
            *final(self) == (ExecutionCore {
                scope_id: Some(scope_id),
                scope_generation: Some(generation),
                ..*old(self)
            }),
    {
        self.scope_id = Some(scope_id);
        self.scope_generation = Some(generation);
    }

    /// Starts to wait for cleanup, unless cleanup failed.
    pub fn set_cleanup_pending(&mut self, phase: CleanupPhase)
        ensures
            *final(self) == (ExecutionCore { cleanup: old(self).cleanup.begun(phase), ..*old(self) }),
    {
        let cleanup = self.cleanup.clone();
        self.cleanup = cleanup.begin(phase);
    }

    /// Ends cleanup; a failure is not hidden by a success.
    pub fn finish_cleanup(&mut self, outcome: CleanupOutcome)
        ensures
            *final(self) == (ExecutionCore {
                cleanup: old(self).cleanup.finished(outcome),
                ..*old(self)
            }),
    {
        let cleanup = self.cleanup.clone();
        self.cleanup = cleanup.finish(outcome);
    }

    /// Asks to drop the work. The caller drops it if the request is new.
    pub fn request_forced_cancellation(&mut self) -> (result: Result<
        ForcedCancellationOutcome,
        ForcedCancellationError,
    >)
        ensures
            *final(self) == (ExecutionCore {
                forced_cancellation_requested: old(self).forced_cancellation_requested || result
                    == Ok::<_, ForcedCancellationError>(ForcedCancellationOutcome::Requested),
                ..*old(self)
            }),
            match result {
                Ok(ForcedCancellationOutcome::AlreadyTerminal) => old(
                    self,
                ).public_state.terminal(),
                Err(ForcedCancellationError::NotAllowed) => {
                    &&& !old(self).public_state.terminal()
                    &&& old(self).abort_policy != AbortPolicy::Allowed
                },
                Err(ForcedCancellationError::NoTrackedFuture) => {
                    &&& !old(self).public_state.terminal()
                    &&& old(self).abort_policy == AbortPolicy::Allowed
                    &&& !old(self).abort_handle
                },
                Ok(ForcedCancellationOutcome::AlreadyRequested) => {
                    &&& !old(self).public_state.terminal()
                    &&& old(self).abort_policy == AbortPolicy::Allowed
                    &&& old(self).abort_handle
                    &&& old(self).forced_cancellation_requested
                },
                Ok(ForcedCancellationOutcome::Requested) => {
                    &&& !old(self).public_state.terminal()
                    &&& old(self).abort_policy == AbortPolicy::Allowed
                    &&& old(self).abort_handle
                    &&& !old(self).forced_cancellation_requested
                },
            },
    {
        if self.public_state.is_terminal() {
            return Ok(ForcedCancellationOutcome::AlreadyTerminal);
        }
        if self.abort_policy != AbortPolicy::Allowed {
            return Err(ForcedCancellationError::NotAllowed);
        }
        if !self.abort_handle {
            return Err(ForcedCancellationError::NoTrackedFuture);
        }
        if self.forced_cancellation_requested {
            return Ok(ForcedCancellationOutcome::AlreadyRequested);
        }
        self.forced_cancellation_requested = true;
        Ok(ForcedCancellationOutcome::Requested)
    }

    /// The outcome of work that was dropped.
    pub fn forced_exit<T, E>(&self) -> (exit: TaskExit<T, E>)
        ensures
            exit == (TaskExit::<T, E>::Aborted { preceding_stop: self.stop_cause }),
    {
        TaskExit::Aborted { preceding_stop: copy_cause(&self.stop_cause) }
    }

    /// Tells the execution that the process resumed. The count wraps.
    pub fn notify_resumed(&mut self)
        ensures
            *final(self) == (ExecutionCore {
                resume_epoch: if old(self).resume_epoch < u64::MAX {
                    (old(self).resume_epoch + 1) as u64
                } else {
                    0
                },
                ..*old(self)
            }),
    {
        self.resume_epoch = if self.resume_epoch < u64::MAX {
            self.resume_epoch + 1
        } else {
            0
        };
    }

    /// Shows an active state, unless the execution stops or ended.
    pub fn set_active_state(&mut self, next: TaskState) -> (changed: bool)
        requires
            old(self).wf(),
            next is Running || next is Sleeping,
        ensures
            final(self).wf(),
            old(self).settles_into(final(self)),
            changed <==> old(self).terminal is None && old(self).stop_cause is None,
            *final(self) == if changed {
                ExecutionCore { public_state: next, ..*old(self) }
            } else {
                *old(self)
            },
    {
        if self.terminal.is_none() && self.stop_cause.is_none() {
            self.public_state = next;
            true
        } else {
            false
        }
    }

    /// Whether the execution was asked to stop.
    pub fn is_cancelled(&self) -> (cancelled: bool)
        ensures
            cancelled <==> self.stop_cause is Some,
    {
        self.stop_cause.is_some()
    }

    /// Lets an attempt sleep until a point in time, unless the execution was asked to stop
    /// or that point is out of range.
    pub fn sleep(&mut self, attempt: u32, duration: Duration, now: Instant) -> (result: Result<
        Instant,
        Cancelled,
    >)
        requires
            old(self).wf(),
        ensures
            final(self).wf(),
            old(self).settles_into(final(self)),
            if old(self).stop_cause is Some || now@ + duration@ > MAX_NANOS {
                result == Err::<Instant, Cancelled>(Cancelled) && *final(self) == *old(self)
            } else {
                &&& result matches Ok(wake_at)
                &&& wake_at@ == now@ + duration@
                &&& *final(self) == if old(self).terminal is None {
                    ExecutionCore {
                        public_state: TaskState::Sleeping { attempt, wake_at },
                        ..*old(self)
                    }
                } else {
                    *old(self)
                }
            },
    {
        if self.is_cancelled() {
            return Err(Cancelled);
        }
        match now.checked_add(duration) {
            Some(wake_at) => {
                self.set_active_state(TaskState::Sleeping { attempt, wake_at });
                Ok(wake_at)
            },
            None => Err(Cancelled),
        }
    }

    /// Ends the sleep of an attempt; it fails if the execution was asked to stop meanwhile.
    pub fn woken(&mut self, attempt: u32) -> (result: Result<(), Cancelled>)
        requires
            old(self).wf(),
        ensures
            final(self).wf(),
            old(self).settles_into(final(self)),
            if old(self).stop_cause is Some {
                result == Err::<(), Cancelled>(Cancelled) && *final(self) == *old(self)
            } else {
                &&& result == Ok::<(), Cancelled>(())
                &&& *final(self) == if old(self).terminal is None {
                    ExecutionCore { public_state: TaskState::Running { attempt }, ..*old(self) }
                } else {
                    *old(self)
                }
            },
    {
        if self.is_cancelled() {
            return Err(Cancelled);
        }
        self.set_active_state(TaskState::Running { attempt });
        Ok(())
    }

    /// Looks whether the process resumed since `observed`: gives out the new count, fails
    /// if the execution was asked to stop, and else has to wait.
    pub fn resumed_after(&self, observed: u64) -> (result: Result<Option<u64>, Cancelled>)
        ensures
            result == if self.resume_epoch != observed {
                Ok::<Option<u64>, Cancelled>(Some(self.resume_epoch))
            } else if self.stop_cause is Some {
                Err(Cancelled)
            } else {
                Ok(None)
            },
    {
        if self.resume_epoch != observed {
            return Ok(Some(self.resume_epoch));
        }
        if self.is_cancelled() {
            return Err(Cancelled);
        }
        Ok(None)
    }

    /// Starts the first attempt, unless the execution stops or ended before.
    pub fn claim_start(&mut self) -> (claimed: bool)
        requires
            old(self).wf(),
        ensures
            final(self).wf(),
            old(self).settles_into(final(self)),
            claimed <==> old(self).terminal is None && old(self).stop_cause is None,
            *final(self) == if claimed {
                ExecutionCore { public_state: TaskState::Running { attempt: 1 }, ..*old(self) }
            } else {
                *old(self)
            },
    {
        self.set_active_state(TaskState::Running { attempt: 1 })
    }

    /// Asks the execution to stop. The first cause is kept.
    pub fn request_stop(&mut self, cause: StopCauseSummary) -> (request: StopRequest)
        requires
            old(self).wf(),
        ensures
            final(self).wf(),
            old(self).settles_into(final(self)),
            old(self).stops(cause, *final(self), request),
    {
        if self.terminal.is_some() {
            return StopRequest {
                outcome: CancelRequestOutcome::AlreadyTerminal,
                leave_queue: false,
                children: Vec::new(),
            };
        }
        if self.stop_cause.is_some() {
            return StopRequest {
                outcome: CancelRequestOutcome::AlreadyStopping,
                leave_queue: false,
                children: Vec::new(),
            };
        }
        self.stop_cause = Some(cause.clone());
        self.public_state = TaskState::Stopping { cause };
        let leave_queue: bool = self.queued_cancel_hook;
        self.queued_cancel_hook = false;
        let children: Vec<ExecutionId> = ids_of(&self.children.children);
        StopRequest { outcome: CancelRequestOutcome::Requested, leave_queue, children }
    }

    /// Asks the execution to stop for a reason.
    pub fn cancel(&mut self, reason: CancelReason) -> (request: StopRequest)
        requires
            old(self).wf(),
        ensures
            final(self).wf(),
            old(self).settles_into(final(self)),
            old(self).stops(StopCauseSummary::Cancel(reason), *final(self), request),
    {
        self.request_stop(StopCauseSummary::Cancel(reason))
    }

    /// Tells the execution that its deadline passed.
    pub fn deadline(&mut self) -> (request: StopRequest)
        requires
            old(self).wf(),
        ensures
            final(self).wf(),
            old(self).settles_into(final(self)),
            old(self).stops(StopCauseSummary::Deadline, *final(self), request),
    {
        self.request_stop(StopCauseSummary::Deadline)
    }

    /// Ends the execution, once. The outcome is the one that the accepted stop cause
    /// selects; it goes to the result cell. The caller tells the executor if the
    /// execution ended now and is listed.
    pub fn commit<T, E>(&mut self, result: &mut ResultCell<T, E>, exit: TaskExit<T, E>) -> (ended:
        bool)
        requires
            old(self).wf(),
        ensures
            final(self).wf(),
            old(self).settles_into(final(self)),
            final(self).terminal is Some,
            ended <==> old(self).terminal is None,
            !ended ==> *final(self) == *old(self) && *final(result) == *old(result),
            ended && old(result).value is None ==> {
                let selected = selected_exit(old(self).stop_cause, exit);
                &&& final(result).value == Some(selected)
                &&& *final(self) == old(self).ended(selected)
            },
            ended && old(result).value is Some ==> {
                &&& *final(result) == *old(result)
                &&& *final(self) == old(self).ended(old(result).value->0)
            },
    {
        if self.terminal.is_some() {
            return false;
        }
        let selected: TaskExit<T, E> = select_exit(&self.stop_cause, exit);
        let summary = result.store(selected);
        self.public_state = summary.state();
        self.terminal = Some(summary);
        true
    }

    /// Opens the admission of children for an attempt, unless it is closed for good.
    pub fn begin_attempt(&mut self, attempt: u32)
        ensures
            final(self).children.current_attempt == attempt,
            final(self).children.attempt_admission_open == old(self).children.admission_open,
            final(self).children.admission_open == old(self).children.admission_open,
            final(self).children.children == old(self).children.children,
            *final(self) == (ExecutionCore { children: final(self).children, ..*old(self) }),
    {
        self.children.current_attempt = attempt;
        self.children.attempt_admission_open = self.children.admission_open;
    }

    /// Closes the admission of children for good. Returns all children, which the
    /// caller cancels and waits for.
    pub fn close_children(&mut self) -> (children: Vec<ExecutionId>)
        ensures
            children@ == child_ids(old(self).children.children@),
            !final(self).children.admission_open,
            !final(self).children.attempt_admission_open,
            final(self).children.current_attempt == old(self).children.current_attempt,
            final(self).children.children@.len() == 0,
            final(self).cleanup == if children@.len() > 0 {
                old(self).cleanup.begun(CleanupPhase::TrackedChildren)
            } else {
                old(self).cleanup
            },
            *final(self) == (ExecutionCore {
                children: final(self).children,
                cleanup: final(self).cleanup,
                ..*old(self)
            }),
    {
        let children: Vec<ExecutionId> = ids_of(&self.children.children);
        self.children.admission_open = false;
        self.children.attempt_admission_open = false;
        self.children.children = Vec::new();
        if children.len() > 0 {
            self.set_cleanup_pending(CleanupPhase::TrackedChildren);
        }
        children
    }

    /// Closes the admission of children of an attempt. Returns its children, which the
    /// caller cancels and waits for; the others stay.
    pub fn close_attempt_children(&mut self, attempt: u32) -> (children: Vec<ExecutionId>)
        ensures
            children@ == child_ids(attempt_children(old(self).children.children@, attempt)),
            final(self).children.children@ == other_children(
                old(self).children.children@,
                attempt,
            ),
            final(self).children.current_attempt == old(self).children.current_attempt,
            final(self).children.admission_open == old(self).children.admission_open,
            final(self).children.attempt_admission_open == (old(
                self,
            ).children.attempt_admission_open && old(self).children.current_attempt != attempt),
            final(self).cleanup == if children@.len() > 0 {
                old(self).cleanup.begun(CleanupPhase::TrackedChildren)
            } else {
                old(self).cleanup
            },
            *final(self) == (ExecutionCore {
                children: final(self).children,
                cleanup: final(self).cleanup,
                ..*old(self)
            }),
    {
        if self.children.current_attempt == attempt {
            self.children.attempt_admission_open = false;
        }
        let ghost all = self.children.children@;
        let mut taken: Vec<ExecutionId> = Vec::new();
        let mut retained: Vec<TrackedChild> = Vec::new();
        let mut at: usize = 0;
        assert(all.take(0) =~= Seq::empty());
        assert(attempt_children(all.take(0), attempt) =~= Seq::empty()) by {
            reveal(Seq::filter);
        }
        assert(other_children(all.take(0), attempt) =~= Seq::empty()) by {
            reveal(Seq::filter);
        }
        while at < self.children.children.len()
            invariant
                all == self.children.children@,
                at <= all.len(),
                taken@ =~= child_ids(attempt_children(all.take(at as int), attempt)),
                retained@ =~= other_children(all.take(at as int), attempt),
            decreases all.len() - at,
        {
            let child = self.children.children[at];
            proof {
                let before = all.take(at as int);
                let after = all.take(at + 1);
                assert(after =~= before.push(child));
                assert(after.drop_last() =~= before);
                reveal(Seq::filter);
            }
            if child.attempt == attempt {
                taken.push(child.execution_id);
            } else {
                retained.push(child);
            }
            at = at + 1;
        }
        assert(all.take(at as int) =~= all);
        self.children.children = retained;
        if taken.len() > 0 {
            self.set_cleanup_pending(CleanupPhase::TrackedChildren);
        }
        taken
    }

    /// Whether attempt `attempt` may start a child now; at most `limit` are tracked.
    pub fn check_child_admission(&self, attempt: u32, limit: Option<usize>) -> (result: Result<
        (),
        SpawnChildError,
    >)
        ensures
            ({
                let open = self.children.admission_open && self.children.attempt_admission_open
                    && self.children.current_attempt == attempt;
                let maximum = match limit {
                    Some(limit) => limit,
                    None => DEFAULT_CHILD_LIMIT,
                };
                match result {
                    Ok(_) => open && self.children.children@.len() < maximum,
                    Err(SpawnChildError::ParentClosing) => !open,
                    Err(SpawnChildError::LimitReached { maximum: reached }) => {
                        &&& open
                        &&& reached == maximum
                        &&& self.children.children@.len() >= maximum
                    },
                    Err(_) => false,
                }
            }),
    {
        if !self.children.admission_open || !self.children.attempt_admission_open
            || self.children.current_attempt != attempt {
            return Err(SpawnChildError::ParentClosing);
        }
        let maximum: usize = match limit {
            Some(limit) => limit,
            None => DEFAULT_CHILD_LIMIT,
        };
        if self.children.children.len() >= maximum {
            return Err(SpawnChildError::LimitReached { maximum });
        }
        Ok(())
    }

    /// Tracks a child that attempt `attempt` started.
    pub fn track_child(&mut self, attempt: u32, execution_id: ExecutionId)
        ensures
            final(self).children.children@ == old(self).children.children@.push(
                TrackedChild { attempt, execution_id },
            ),
            final(self).children.admission_open == old(self).children.admission_open,
            final(self).children.attempt_admission_open == old(
                self,
            ).children.attempt_admission_open,
            final(self).children.current_attempt == old(self).children.current_attempt,
            *final(self) == (ExecutionCore { children: final(self).children, ..*old(self) }),
    {
        self.children.children.push(TrackedChild { attempt, execution_id });
    }

    /// Takes the outcome, if the execution ended and nobody took it.
    pub fn try_join<T, E>(&self, result: &mut ResultCell<T, E>) -> (joined: Result<
        Option<TaskExit<T, E>>,
        JoinResultError,
    >)
        ensures
            !self.public_state.terminal() ==> {
                &&& joined == Ok::<_, JoinResultError>(None::<TaskExit<T, E>>)
                &&& *final(result) == *old(result)
            },
            self.public_state.terminal() ==> {
                &&& final(result).value is None
                &&& joined == match old(result).value {
                    Some(exit) => Ok::<Option<TaskExit<T, E>>, JoinResultError>(Some(exit)),
                    None => Err(JoinResultError::AlreadyTaken),
                }
            },
    {
        if !self.public_state.is_terminal() {
            return Ok(None);
        }
        match result.take() {
            Some(exit) => Ok(Some(exit)),
            None => Err(JoinResultError::AlreadyTaken),
        }
    }
}

fn ids_of(children: &Vec<TrackedChild>) -> (ids: Vec<ExecutionId>)
    ensures
        ids@ == child_ids(children@),
{
    let mut ids: Vec<ExecutionId> = Vec::new();
    let mut at: usize = 0;
    while at < children.len()
        invariant
            at <= children.len(),
            ids.len() == at,
            forall|i: int| 0 <= i < at ==> #[trigger] ids@[i] == children@[i].execution_id,
        decreases children.len() - at,
    {
        ids.push(children[at].execution_id);
        at = at + 1;
    }
    assert(ids@ =~= child_ids(children@));
    ids
}

/// The outcome that the accepted stop cause selects.
pub fn select_exit<T, E>(stop_cause: &Option<StopCauseSummary>, exit: TaskExit<T, E>) -> (selected:
    TaskExit<T, E>)
    ensures
        selected == selected_exit(*stop_cause, exit),
{
    if let TaskExit::Aborted { preceding_stop } = exit {
        return TaskExit::Aborted { preceding_stop };
    }
    match stop_cause {
        Some(StopCauseSummary::Cancel(reason)) => TaskExit::Cancelled { reason: reason.clone() },
        Some(StopCauseSummary::Deadline) => {
            match exit {
                TaskExit::Failed(TaskFailure::DeadlineExceeded { last_error }) => {
                    TaskExit::Failed(TaskFailure::DeadlineExceeded { last_error })
                },
                _ => TaskExit::Failed(TaskFailure::DeadlineExceeded { last_error: None }),
            }
        },
        None => exit,
    }
}

/// Whether waiting for `target` would wait for an execution that runs around the
/// caller.
pub fn would_join(path: &Vec<ExecutionId>, target: ExecutionId) -> (would: bool)
    ensures
        would <==> path@.contains(target),
{
    let mut at: usize = 0;
    while at < path.len()
        invariant
            at <= path.len(),
            forall|i: int| 0 <= i < at ==> path@[i] != target,
        decreases path.len() - at,
    {
        if path[at] == target {
            assert(path@[at as int] == target);
            return true;
        }
        at = at + 1;
    }
    false
}

/// Refuses to wait for an execution that runs around the caller.
pub fn wait_checked(path: &Vec<ExecutionId>, target: ExecutionId) -> (result: Result<
    (),
    ExecutionWaitError,
>)
    ensures
        match result {
            Ok(_) => !path@.contains(target),
            Err(error) => {
                &&& path@.contains(target)
                &&& error == (ExecutionWaitError::WouldJoin { current: path@.last(), target })
            },
        },
{
    if would_join(path, target) {
        let current: ExecutionId = path[path.len() - 1];
        return Err(ExecutionWaitError::WouldJoin { current, target });
    }
    Ok(())
}

/// Why the body of an execution cannot be joined.
pub enum JoinFailure {
    /// It panicked, with a text if the payload could be read.
    Panicked { message: Option<String> },
    /// It was dropped.
    Cancelled,
    /// The runtime lost it.
    Lost,
}

/// The outcome of a body that cannot be joined.
pub open spec fn join_failure_outcome<T, E>(
    core: ExecutionCore,
    failure: JoinFailure,
    source: PanicSource,
) -> TaskExit<T, E> {
    match failure {
        JoinFailure::Panicked { message: Some(message) } => panic_outcome(source, message),
        JoinFailure::Panicked { message: None } => TaskExit::ExecutorStopped {
            reason: ExecutorStopReason::InternalInvariantViolation,
        },
        JoinFailure::Cancelled => if core.forced_cancellation_requested {
            TaskExit::Aborted { preceding_stop: core.stop_cause }
        } else {
            TaskExit::ExecutorStopped { reason: ExecutorStopReason::RuntimeUnavailable }
        },
        JoinFailure::Lost => TaskExit::ExecutorStopped {
            reason: ExecutorStopReason::RuntimeUnavailable,
        },
    }
}

/// The outcome of a body that cannot be joined: a drop that was asked for is an
/// abort, any other a lost runtime.
pub fn join_failure_exit<T, E>(
    core: &ExecutionCore,
    failure: JoinFailure,
    source: PanicSource,
) -> (exit: TaskExit<T, E>)
    ensures
        exit == join_failure_outcome::<T, E>(*core, failure, source),
{
    match failure {
        JoinFailure::Panicked { message: Some(message) } => panic_exit(source, message),
        JoinFailure::Panicked { message: None } => {
            TaskExit::ExecutorStopped { reason: ExecutorStopReason::InternalInvariantViolation }
        },
        JoinFailure::Cancelled => {
            if core.forced_cancellation_requested {
                core.forced_exit()
            } else {
                TaskExit::ExecutorStopped { reason: ExecutorStopReason::RuntimeUnavailable }
            }
        },
        JoinFailure::Lost => {
            TaskExit::ExecutorStopped { reason: ExecutorStopReason::RuntimeUnavailable }
        },
    }
}

/// How the work of an execution came back to its runner.
pub enum BodyOutcome<R> {
    /// The execution was asked to stop before it started.
    NotStarted,
    /// The factory of the work panicked with this text.
    FactoryPanicked { message: String },
    /// The work was dropped because the execution was asked to stop.
    Dropped,
    /// The work returned.
    Returned(R),
    /// The work cannot be joined.
    Failed(JoinFailure),
}

/// The outcome of work that returns a value or an error.
pub open spec fn operation_outcome<T, E>(
    core: ExecutionCore,
    body: BodyOutcome<Result<T, E>>,
    source: PanicSource,
) -> TaskExit<T, E> {
    match body {
        BodyOutcome::NotStarted => TaskExit::ExecutorStopped {
            reason: ExecutorStopReason::RunnerCancelled,
        },
        BodyOutcome::Dropped => TaskExit::ExecutorStopped {
            reason: ExecutorStopReason::RunnerCancelled,
        },
        BodyOutcome::FactoryPanicked { message } => TaskExit::Panicked {
            source: PanicSource::Factory,
            message,
        },
        BodyOutcome::Returned(Ok(value)) => TaskExit::Completed(value),
        BodyOutcome::Returned(Err(error)) => TaskExit::Failed(TaskFailure::Operation { error }),
        BodyOutcome::Failed(failure) => join_failure_outcome(core, failure, source),
    }
}

/// The outcome of work that returns a value or an error.
pub fn operation_exit<T, E>(
    core: &ExecutionCore,
    body: BodyOutcome<Result<T, E>>,
    source: PanicSource,
) -> (exit: TaskExit<T, E>)
    ensures
        exit == operation_outcome(*core, body, source),
{
    match body {
        BodyOutcome::NotStarted => {
            TaskExit::ExecutorStopped { reason: ExecutorStopReason::RunnerCancelled }
        },
        BodyOutcome::Dropped => {
            TaskExit::ExecutorStopped { reason: ExecutorStopReason::RunnerCancelled }
        },
        BodyOutcome::FactoryPanicked { message } => {
            TaskExit::Panicked { source: PanicSource::Factory, message }
        },
        BodyOutcome::Returned(Ok(value)) => TaskExit::Completed(value),
        BodyOutcome::Returned(Err(error)) => TaskExit::Failed(TaskFailure::Operation { error }),
        BodyOutcome::Failed(failure) => join_failure_exit(core, failure, source),
    }
}

/// The outcome of work that names its own outcome.
pub open spec fn named_outcome<T, E>(
    core: ExecutionCore,
    body: BodyOutcome<TaskExit<T, E>>,
    source: PanicSource,
) -> TaskExit<T, E> {
    match body {
        BodyOutcome::NotStarted => TaskExit::ExecutorStopped {
            reason: ExecutorStopReason::RunnerCancelled,
        },
        BodyOutcome::Dropped => TaskExit::ExecutorStopped {
            reason: ExecutorStopReason::RunnerCancelled,
        },
        BodyOutcome::FactoryPanicked { message } => TaskExit::Panicked {
            source: PanicSource::Factory,
            message,
        },
        BodyOutcome::Returned(exit) => exit,
        BodyOutcome::Failed(failure) => join_failure_outcome(core, failure, source),
    }
}

/// The outcome of work that names its own outcome.
pub fn named_exit<T, E>(
    core: &ExecutionCore,
    body: BodyOutcome<TaskExit<T, E>>,
    source: PanicSource,
) -> (exit: TaskExit<T, E>)
    ensures
        exit == named_outcome(*core, body, source),
{
    match body {
        BodyOutcome::NotStarted => {
            TaskExit::ExecutorStopped { reason: ExecutorStopReason::RunnerCancelled }
        },
        BodyOutcome::Dropped => {
            TaskExit::ExecutorStopped { reason: ExecutorStopReason::RunnerCancelled }
        },
        BodyOutcome::FactoryPanicked { message } => {
            TaskExit::Panicked { source: PanicSource::Factory, message }
        },
        BodyOutcome::Returned(exit) => exit,
        BodyOutcome::Failed(failure) => join_failure_exit(core, failure, source),
    }
}

/// Ends an execution whose work returns a value or an error.
pub fn finish_operation<T, E>(
    core: &mut ExecutionCore,
    result: &mut ResultCell<T, E>,
    body: BodyOutcome<Result<T, E>>,
    source: PanicSource,
) -> (ended: bool)
    requires
        old(core).wf(),
        old(core).terminal is None ==> old(result).value is None,
    ensures
        final(core).wf(),
        old(core).settles_into(final(core)),
        final(core).terminal is Some,
        ended <==> old(core).terminal is None,
        !ended ==> *final(core) == *old(core) && *final(result) == *old(result),
        ended ==> {
            let exit = selected_exit(
                old(core).stop_cause,
                operation_outcome(*old(core), body, source),
            );
            &&& final(result).value == Some(exit)
            &&& *final(core) == old(core).ended(exit)
        },
{
    let exit = operation_exit(core, body, source);
    core.commit(result, exit)
}

/// Ends an execution whose work names its own outcome.
pub fn finish_named<T, E>(
    core: &mut ExecutionCore,
    result: &mut ResultCell<T, E>,
    body: BodyOutcome<TaskExit<T, E>>,
) -> (ended: bool)
    requires
        old(core).wf(),
        old(core).terminal is None ==> old(result).value is None,
    ensures
        final(core).wf(),
        old(core).settles_into(final(core)),
        final(core).terminal is Some,
        ended <==> old(core).terminal is None,
        !ended ==> *final(core) == *old(core) && *final(result) == *old(result),
        ended ==> {
            let exit = selected_exit(
                old(core).stop_cause,
                named_outcome(*old(core), body, PanicSource::WorkFuture),
            );
            &&& final(result).value == Some(exit)
            &&& *final(core) == old(core).ended(exit)
        },
{
    let exit = named_exit(core, body, PanicSource::WorkFuture);
    core.commit(result, exit)
}

/// What is settled stays settled over any number of steps.
pub proof fn lemma_settled_for_good(a: ExecutionCore, b: ExecutionCore, c: ExecutionCore)
    requires
        a.settles_into(&b),
        b.settles_into(&c),
    ensures
        a.settles_into(&c),
{
}

/// An execution that was cancelled before its work ended is reported as cancelled,
/// with the reason that came first, unless its work was dropped.
pub proof fn lemma_cancellation_wins<T, E>(reason: CancelReason, exit: TaskExit<T, E>)
    requires
        !(exit is Aborted),
    ensures
        selected_exit(Some(StopCauseSummary::Cancel(reason)), exit) == (TaskExit::<
            T,
            E,
        >::Cancelled { reason }),
{
}

/// An execution that nobody asked to stop is reported as its work ended.
pub proof fn lemma_undisturbed_work_decides<T, E>(exit: TaskExit<T, E>)
    ensures
        selected_exit(None, exit) == exit,
{
}

/// A deadline that passed before the work ended is reported as such; what the work said of
/// its last error is kept. Work that was dropped is reported as aborted whatever was asked.
pub proof fn lemma_deadline_wins<T, E>(
    stop_cause: Option<StopCauseSummary>,
    exit: TaskExit<T, E>,
    error: E,
)
    ensures
        exit is Aborted ==> selected_exit(stop_cause, exit) == exit,
        stop_cause == Some(StopCauseSummary::Deadline) && !(exit is Aborted) ==> {
            &&& selected_exit(stop_cause, exit) matches TaskExit::Failed(
                TaskFailure::DeadlineExceeded { last_error },
            )
            &&& last_error is Some ==> exit == TaskExit::<T, E>::Failed(
                TaskFailure::DeadlineExceeded { last_error },
            )
        },
        selected_exit(
            Some(StopCauseSummary::Deadline),
            TaskExit::<T, E>::Failed(TaskFailure::DeadlineExceeded { last_error: Some(error) }),
        ) == TaskExit::<T, E>::Failed(TaskFailure::DeadlineExceeded { last_error: Some(error) }),
{
}

/// Closing an attempt parts the children: those that it started, each of them once, and the
/// others, and none is lost.
pub proof fn lemma_children_are_parted(children: Seq<TrackedChild>, attempt: u32)
    ensures
        forall|i: int|
            0 <= i < attempt_children(children, attempt).len() ==> (#[trigger] attempt_children(
                children,
                attempt,
            )[i]).attempt == attempt,
        forall|i: int|
            0 <= i < other_children(children, attempt).len() ==> (#[trigger] other_children(
                children,
                attempt,
            )[i]).attempt != attempt,
        attempt_children(children, attempt).to_multiset().add(
            other_children(children, attempt).to_multiset(),
        ) =~= children.to_multiset(),
    decreases children.len(),
{
    broadcast use vstd::seq_lib::group_to_multiset_ensures;

    reveal(Seq::filter);
    let own = attempt_children(children, attempt);
    let others = other_children(children, attempt);
    if children.len() > 0 {
        let rest = children.drop_last();
        let child = children.last();
        lemma_children_are_parted(rest, attempt);
        assert(children =~= rest.push(child));
        if child.attempt == attempt {
            assert(own =~= attempt_children(rest, attempt).push(child));
            assert(others =~= other_children(rest, attempt));
        } else {
            assert(own =~= attempt_children(rest, attempt));
            assert(others =~= other_children(rest, attempt).push(child));
        }
    } else {
        assert(own =~= Seq::empty());
        assert(others =~= Seq::empty());
        assert(children =~= Seq::empty());
        assert(own.to_multiset().add(others.to_multiset()) =~= children.to_multiset());
    }
}

/// The identities of children are given one for one, in order.
pub proof fn lemma_children_are_named_in_order(children: Seq<TrackedChild>)
    ensures
        child_ids(children).len() == children.len(),
        forall|i: int|
            0 <= i < children.len() ==> #[trigger] child_ids(children)[i]
                == children[i].execution_id,
{
}

/// Only the first request to stop counts, and only before the end: it sets the cause, shows
/// it, and reaches all children. Any later one changes nothing and reaches nobody.
pub proof fn lemma_first_stop_request_counts(
    core: ExecutionCore,
    cause: StopCauseSummary,
    later: ExecutionCore,
    request: StopRequest,
)
    requires
        core.stops(cause, later, request),
    ensures
        core.terminal is None && core.stop_cause is None ==> {
            &&& request.outcome == CancelRequestOutcome::Requested
            &&& later.stop_cause == Some(cause)
            &&& later.public_state == (TaskState::Stopping { cause })
            &&& later.terminal is None
            &&& request.children@.len() == core.children.children@.len()
            &&& forall|i: int|
                0 <= i < request.children@.len() ==> #[trigger] request.children@[i]
                    == core.children.children@[i].execution_id
            &&& request.leave_queue == core.queued_cancel_hook
            &&& !later.queued_cancel_hook
            &&& later.children == core.children
        },
        core.terminal is Some ==> {
            &&& request.outcome == CancelRequestOutcome::AlreadyTerminal
            &&& later == core
        },
        core.terminal is None && core.stop_cause is Some ==> {
            &&& request.outcome == CancelRequestOutcome::AlreadyStopping
            &&& later == core
        },
        request.outcome != CancelRequestOutcome::Requested ==> request.children@.len() == 0
            && !request.leave_queue,
{
}

/// Of two requests to stop, one after the other, the second is refused and the first cause
/// stays.
pub proof fn lemma_second_stop_request_is_refused(
    core: ExecutionCore,
    first: StopCauseSummary,
    second: StopCauseSummary,
    after_first: ExecutionCore,
    after_second: ExecutionCore,
    one: StopRequest,
    two: StopRequest,
)
    requires
        core.stops(first, after_first, one),
        after_first.stops(second, after_second, two),
    ensures
        two.outcome != CancelRequestOutcome::Requested,
        after_second == after_first,
        core.terminal is None && core.stop_cause is None ==> after_second.stop_cause == Some(first),
{
}

/// An execution that ended shows its outcome in its state, and nothing else of it changes.
pub proof fn lemma_end_is_shown<T, E>(core: ExecutionCore, exit: TaskExit<T, E>)
    ensures
        core.ended(exit).public_state is Completed <==> exit is Completed,
        core.ended(exit).public_state is Failed <==> exit is Failed,
        core.ended(exit).public_state is Cancelled <==> exit is Cancelled,
        core.ended(exit).public_state is Aborted <==> exit is Aborted,
        core.ended(exit).public_state is Panicked <==> exit is Panicked,
        core.ended(exit).public_state is ExecutorStopped <==> exit is ExecutorStopped,
        core.ended(exit).terminal is Some,
        exit matches TaskExit::Cancelled { reason } ==> core.ended(exit).terminal == Some(
            TaskExitSummary::Cancelled { reason },
        ),
        core.ended(exit).stop_cause == core.stop_cause,
        core.ended(exit).children == core.children,
        core.ended(exit).execution_id == core.execution_id,
        core.ended(exit).cleanup == core.cleanup,
{
}

/// Work that returned is reported as it returned: its value, or its very error. Only work
/// that was asked to be dropped counts as aborted when it was; any other that cannot be
/// joined panicked or stopped with its executor.
pub proof fn lemma_returned_work_is_reported_as_such<T, E>(
    core: ExecutionCore,
    body: BodyOutcome<Result<T, E>>,
    source: PanicSource,
)
    ensures
        body matches BodyOutcome::Returned(Ok(value)) ==> operation_outcome(core, body, source)
            == TaskExit::<T, E>::Completed(value),
        body matches BodyOutcome::Returned(Err(error)) ==> operation_outcome(core, body, source)
            == TaskExit::<T, E>::Failed(TaskFailure::Operation { error }),
        operation_outcome(core, body, source) is Completed ==> body matches BodyOutcome::Returned(
            Ok(_),
        ),
        body matches BodyOutcome::FactoryPanicked { message } ==> operation_outcome(
            core,
            body,
            source,
        ) == (TaskExit::<T, E>::Panicked { source: PanicSource::Factory, message }),
        body is NotStarted || body is Dropped ==> operation_outcome(core, body, source) == (
        TaskExit::<T, E>::ExecutorStopped { reason: ExecutorStopReason::RunnerCancelled }),
        body matches BodyOutcome::Failed(failure) ==> operation_outcome(core, body, source)
            == join_failure_outcome::<T, E>(core, failure, source),
        operation_outcome(core, body, source) is Aborted ==> {
            &&& core.forced_cancellation_requested
            &&& body matches BodyOutcome::Failed(JoinFailure::Cancelled)
        },
        !(operation_outcome(core, body, source) is Cancelled),
{
}

/// Work that names its own outcome ends with it.
pub proof fn lemma_named_outcome_is_kept<T, E>(
    core: ExecutionCore,
    body: BodyOutcome<TaskExit<T, E>>,
    source: PanicSource,
)
    ensures
        body matches BodyOutcome::Returned(exit) ==> named_outcome(core, body, source) == exit,
        body matches BodyOutcome::FactoryPanicked { message } ==> named_outcome(core, body, source)
            == (TaskExit::<T, E>::Panicked { source: PanicSource::Factory, message }),
        body is NotStarted || body is Dropped ==> named_outcome(core, body, source) == (TaskExit::<
            T,
            E,
        >::ExecutorStopped { reason: ExecutorStopReason::RunnerCancelled }),
        body matches BodyOutcome::Failed(failure) ==> named_outcome(core, body, source)
            == join_failure_outcome::<T, E>(core, failure, source),
{
}

/// A body that cannot be joined: a drop that was asked for is an abort after the accepted
/// stop cause, one that was not asked for and a loss are a runtime that is gone, a panic
/// without a text breaks an invariant, and one with a text is reported with its source.
pub proof fn lemma_unjoinable_work<T, E>(
    core: ExecutionCore,
    failure: JoinFailure,
    source: PanicSource,
)
    ensures
        failure is Cancelled && core.forced_cancellation_requested ==> join_failure_outcome::<T, E>(
            core,
            failure,
            source,
        ) == (TaskExit::<T, E>::Aborted { preceding_stop: core.stop_cause }),
        failure is Lost || (failure is Cancelled && !core.forced_cancellation_requested)
            ==> join_failure_outcome::<T, E>(core, failure, source) == (TaskExit::<
            T,
            E,
        >::ExecutorStopped { reason: ExecutorStopReason::RuntimeUnavailable }),
        failure == (JoinFailure::Panicked { message: None }) ==> join_failure_outcome::<T, E>(
            core,
            failure,
            source,
        ) == (TaskExit::<T, E>::ExecutorStopped {
            reason: ExecutorStopReason::InternalInvariantViolation,
        }),
        failure matches JoinFailure::Panicked { message: Some(message) } ==> {
            let exit = join_failure_outcome::<T, E>(core, failure, source);
            exit == (TaskExit::<T, E>::Panicked { source, message }) || exit == TaskExit::<
                T,
                E,
            >::Failed(TaskFailure::TimerUnavailable)
        },
{
}

} // verus!
