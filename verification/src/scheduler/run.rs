//! One submitted run: its cancellation, its manual control, its children, and the states
//! that it publishes.

use crate::execution_core::JoinFailure;
use crate::observe::{EventData, Observability, Stamp, TaskEvent, TaskEventKind};
use crate::scheduler::types::{
    CancelReason, Cancelled, ContextClosedError, ExecutorErrorCode, JobId, PanicInfo,
    TaskCommandError, TaskRunId, TaskState, TaskTerminal, TriggerOutcome, TriggerPolicy,
};
use crate::time::{Duration, Instant, MAX_NANOS};
use vstd::prelude::*;

verus! {

/// The race between a request to stop and an outcome.
#[derive(Clone, Copy, Debug, Eq, PartialEq, Structural)]
pub struct Cancellation {
    pub reason: Option<CancelReason>,
    pub outcome_claimed: bool,
}

impl Cancellation {
    /// A run is not both asked to stop and over.
    pub open spec fn wf(&self) -> bool {
        !(self.reason is Some && self.outcome_claimed)
    }

    /// Whether a request to stop is accepted.
    pub open spec fn accepts(&self) -> bool {
        self.reason is None && !self.outcome_claimed
    }

    /// After a request to stop.
    pub open spec fn cancelled(&self, reason: CancelReason) -> Cancellation {
        if self.accepts() {
            Cancellation { reason: Some(reason), ..*self }
        } else {
            *self
        }
    }

    /// After an outcome.
    pub open spec fn claimed(&self) -> Cancellation {
        if self.reason is None {
            Cancellation { outcome_claimed: true, ..*self }
        } else {
            *self
        }
    }

    /// Neither asked to stop nor over.
    pub fn new() -> (cancellation: Self)
        ensures
            cancellation.wf(),
            cancellation == (Cancellation { reason: None, outcome_claimed: false }),
    {
        Cancellation { reason: None, outcome_claimed: false }
    }

    /// The first accepted reason, if any.
    pub fn reason(&self) -> (reason: Option<CancelReason>)
        ensures
            reason == self.reason,
    {
        self.reason
    }

    /// Goes on, unless the run was asked to stop.
    pub fn check(&self) -> (result: Result<(), Cancelled>)
        ensures
            match self.reason {
                Some(reason) => result matches Err(cancelled) && cancelled.cause() == reason,
                None => result is Ok,
            },
    {
        match self.reason {
            Some(reason) => Err(Cancelled::new(reason)),
            None => Ok(()),
        }
    }

    /// Asks to stop. Only the first request counts, and only before an outcome.
    pub fn cancel(&mut self, reason: CancelReason) -> (first: bool)
        ensures
            first == old(self).accepts(),
            *final(self) == old(self).cancelled(reason),
            old(self).wf() ==> final(self).wf(),
    {
        if self.reason.is_some() || self.outcome_claimed {
            return false;
        }
        self.reason = Some(reason);
        true
    }

    /// Claims an outcome, unless a request to stop came first.
    pub fn claim_outcome(&mut self) -> (reason: Option<CancelReason>)
        ensures
            reason == old(self).reason,
            *final(self) == old(self).claimed(),
            old(self).wf() ==> final(self).wf(),
    {
        if self.reason.is_some() {
            return self.reason;
        }
        self.outcome_claimed = true;
        None
    }
}

/// Whoever is first decides for good: after an outcome no request to stop is accepted,
/// and after a request to stop no outcome is.
pub proof fn lemma_first_claim_wins(c: Cancellation, first: CancelReason, later: CancelReason)
    requires
        c.wf(),
        c.accepts(),
    ensures
        !c.claimed().accepts(),
        c.claimed().cancelled(later) == c.claimed(),
        c.cancelled(first).reason == Some(first),
        c.cancelled(first).claimed() == c.cancelled(first),
        c.cancelled(first).cancelled(later) == c.cancelled(first),
{
}

/// The result of a run: a request to stop that was accepted overrules what the work says.
pub fn finalize_terminal<T, E>(cancellation: &mut Cancellation, terminal: TaskTerminal<T, E>) -> (
result: TaskTerminal<T, E>)
    ensures
        *final(cancellation) == old(cancellation).claimed(),
        result == match old(cancellation).reason {
            Some(reason) => TaskTerminal::<T, E>::Cancelled { reason },
            None => terminal,
        },
{
    match cancellation.claim_outcome() {
        Some(reason) => TaskTerminal::Cancelled { reason },
        None => terminal,
    }
}

/// The child futures of a run that are aborted with it.
pub struct TrackedChildren {
    pub closed: bool,
    pub handles: Vec<u128>,
}

impl TrackedChildren {
    /// Each child is recorded once, and none once the run is over.
    pub open spec fn wf(&self) -> bool {
        &&& self.handles@.no_duplicates()
        &&& self.closed ==> self.handles.len() == 0
    }

    /// No children.
    pub fn new() -> (children: Self)
        ensures
            children.wf(),
            !children.closed,
            children.handles@ == Seq::<u128>::empty(),
    {
        TrackedChildren { closed: false, handles: Vec::new() }
    }

    fn position(&self, id: u128) -> (at: Option<usize>)
        ensures
            match at {
                Some(at) => at < self.handles.len() && self.handles@[at as int] == id,
                None => !self.handles@.contains(id),
            },
    {
        let mut at: usize = 0;
        while at < self.handles.len()
            invariant
                at <= self.handles.len(),
                forall|k: int| 0 <= k < at ==> self.handles@[k] != id,
            decreases self.handles.len() - at,
        {
            if self.handles[at] == id {
                return Some(at);
            }
            at = at + 1;
        }
        None
    }

    /// Whether a child may be recorded under `id`; an identity in use needs another try.
    pub fn admits(&self, id: u128) -> (result: Result<bool, ContextClosedError>)
        ensures
            match result {
                Ok(free) => !self.closed && free == !self.handles@.contains(id),
                Err(_) => self.closed,
            },
    {
        if self.closed {
            return Err(ContextClosedError);
        }
        Ok(self.position(id).is_none())
    }

    /// Records a child.
    pub fn register(&mut self, id: u128)
        requires
            old(self).wf(),
            !old(self).closed,
            !old(self).handles@.contains(id),
        ensures
            final(self).wf(),
            final(self).closed == old(self).closed,
            final(self).handles@ == old(self).handles@.push(id),
    {
        self.handles.push(id);
    }

    /// Forgets a child that is over.
    pub fn completed(&mut self, id: u128)
        requires
            old(self).wf(),
        ensures
            final(self).wf(),
            final(self).closed == old(self).closed,
            final(self).handles@.to_set() == old(self).handles@.to_set().remove(id),
    {
        match self.position(id) {
            Some(at) => {
                let ghost before = self.handles@;
                self.handles.remove(at);
                proof {
                    let after = self.handles@;
                    assert(after =~= before.remove(at as int));
                    assert(after.no_duplicates());
                    assert forall|x: u128| after.to_set().contains(x)
                        <==> before.to_set().remove(id).contains(x) by {
                        if after.contains(x) {
                            let k = choose|k: int| 0 <= k < after.len() && after[k] == x;
                            if k < at {
                                assert(before[k] == x);
                            } else {
                                assert(before[k + 1] == x);
                            }
                        }
                        if before.contains(x) && x != id {
                            let k = choose|k: int| 0 <= k < before.len() && before[k] == x;
                            if k < at {
                                assert(after[k] == x);
                            } else {
                                assert(after[k - 1] == x);
                            }
                        }
                    }
                    assert(after.to_set() =~= before.to_set().remove(id));
                }
            },
            None => {
                assert(self.handles@.to_set() =~= self.handles@.to_set().remove(id));
            },
        }
    }

    /// Takes no more children, and gives out those to abort.
    pub fn close_and_abort(&mut self) -> (handles: Vec<u128>)
        requires
            old(self).wf(),
        ensures
            final(self).wf(),
            final(self).closed,
            handles@ == old(self).handles@,
    {
        self.closed = true;
        let mut handles: Vec<u128> = Vec::new();
        std::mem::swap(&mut handles, &mut self.handles);
        handles
    }
}

/// Pauses and manual triggers of a run.
#[derive(Clone, Copy, Debug, Eq, PartialEq, Structural)]
pub struct ManualControl {
    pub task_paused: bool,
    pub scope_paused: bool,
    pub trigger_policy: Option<TriggerPolicy>,
    /// Manual triggers that wait for the run.
    pub pending: usize,
}

impl ManualControl {
    /// Never more triggers wait than the policy keeps.
    pub open spec fn wf(&self) -> bool {
        match self.trigger_policy {
            None => self.pending == 0,
            Some(TriggerPolicy::QueueAll { capacity }) => self.pending <= capacity,
            Some(_) => self.pending <= 1,
        }
    }

    /// Neither paused nor triggered.
    pub fn new(trigger_policy: Option<TriggerPolicy>) -> (control: Self)
        ensures
            control.wf(),
            control == (ManualControl {
                task_paused: false,
                scope_paused: false,
                trigger_policy,
                pending: 0,
            }),
    {
        ManualControl { task_paused: false, scope_paused: false, trigger_policy, pending: 0 }
    }

    /// Pauses the run itself; says whether that changed anything.
    pub fn pause_task(&mut self) -> (changed: bool)
        ensures
            changed == !old(self).task_paused,
            *final(self) == (ManualControl { task_paused: true, ..*old(self) }),
    {
        let changed: bool = !self.task_paused;
        self.task_paused = true;
        changed
    }

    /// Ends the pause of the run itself; says whether that changed anything.
    pub fn resume_task(&mut self) -> (changed: bool)
        ensures
            changed == old(self).task_paused,
            *final(self) == (ManualControl { task_paused: false, ..*old(self) }),
    {
        let changed: bool = self.task_paused;
        self.task_paused = false;
        changed
    }

    /// Pauses the run with its group; says whether that changed anything.
    pub fn pause_scope(&mut self) -> (changed: bool)
        ensures
            changed == !old(self).scope_paused,
            *final(self) == (ManualControl { scope_paused: true, ..*old(self) }),
    {
        let changed: bool = !self.scope_paused;
        self.scope_paused = true;
        changed
    }

    /// Ends the pause of the group; says whether that changed anything.
    pub fn resume_scope(&mut self) -> (changed: bool)
        ensures
            changed == old(self).scope_paused,
            *final(self) == (ManualControl { scope_paused: false, ..*old(self) }),
    {
        let changed: bool = self.scope_paused;
        self.scope_paused = false;
        changed
    }

    /// Whether the run is paused, by itself or with its group.
    pub open spec fn paused(&self) -> bool {
        self.task_paused || self.scope_paused
    }

    /// Whether the run is paused, by itself or with its group.
    pub fn is_paused(&self) -> (paused: bool)
        ensures
            paused == self.paused(),
    {
        self.task_paused || self.scope_paused
    }

    /// What a manual trigger is answered where the run is not paused, and how many
    /// triggers wait after it, paused or not.
    pub open spec fn triggered(&self, policy: TriggerPolicy, state: TaskState) -> (
        TriggerOutcome,
        int,
    ) {
        match policy {
            TriggerPolicy::Drop => if state == TaskState::WaitingForSchedule && self.pending
                == 0 {
                (TriggerOutcome::Scheduled, 1)
            } else {
                (TriggerOutcome::Dropped, self.pending as int)
            },
            TriggerPolicy::CoalesceOne => if self.pending == 0 {
                (TriggerOutcome::Scheduled, 1)
            } else {
                (TriggerOutcome::Coalesced, self.pending as int)
            },
            TriggerPolicy::QueueAll { capacity } => if self.pending < capacity {
                (TriggerOutcome::Queued { pending: (self.pending + 1) as usize }, self.pending + 1)
            } else {
                (TriggerOutcome::Dropped, self.pending as int)
            },
            TriggerPolicy::Replace => (
                if self.pending != 0 {
                    TriggerOutcome::Replaced
                } else {
                    TriggerOutcome::Scheduled
                },
                1,
            ),
        }
    }

    fn trigger(&mut self, policy: TriggerPolicy, state: TaskState) -> (outcome: TriggerOutcome)
        ensures
            outcome == old(self).triggered(policy, state).0,
            final(self).pending == old(self).triggered(policy, state).1,
            *final(self) == (ManualControl { pending: final(self).pending, ..*old(self) }),
            old(self).trigger_policy == Some(policy) && old(self).wf() ==> final(self).wf(),
    {
        match policy {
            TriggerPolicy::Drop => {
                if state == TaskState::WaitingForSchedule && self.pending == 0 {
                    self.pending = 1;
                    TriggerOutcome::Scheduled
                } else {
                    TriggerOutcome::Dropped
                }
            },
            TriggerPolicy::CoalesceOne => {
                if self.pending == 0 {
                    self.pending = 1;
                    TriggerOutcome::Scheduled
                } else {
                    TriggerOutcome::Coalesced
                }
            },
            TriggerPolicy::QueueAll { capacity } => {
                if self.pending < capacity {
                    self.pending = self.pending + 1;
                    TriggerOutcome::Queued { pending: self.pending }
                } else {
                    TriggerOutcome::Dropped
                }
            },
            TriggerPolicy::Replace => {
                let replaced: bool = self.pending != 0;
                self.pending = 1;
                if replaced {
                    TriggerOutcome::Replaced
                } else {
                    TriggerOutcome::Scheduled
                }
            },
        }
    }

    /// Asks for a run now. A run without a schedule has none; a paused run keeps the
    /// request as its policy says, and takes it once it is resumed.
    pub fn run_now(&mut self, state: TaskState) -> (result: Result<
        TriggerOutcome,
        TaskCommandError,
    >)
        ensures
            match old(self).trigger_policy {
                None => {
                    &&& result == Err::<TriggerOutcome, TaskCommandError>(
                        TaskCommandError::NotScheduled,
                    )
                    &&& *final(self) == *old(self)
                },
                Some(policy) => {
                    let (outcome, pending) = old(self).triggered(policy, state);
                    &&& result == Ok::<TriggerOutcome, TaskCommandError>(
                        if old(self).paused() {
                            TriggerOutcome::Paused
                        } else {
                            outcome
                        },
                    )
                    &&& *final(self) == (ManualControl { pending: pending as usize, ..*old(self) })
                    &&& final(self).pending == pending
                },
            },
            old(self).wf() ==> final(self).wf(),
    {
        let policy: TriggerPolicy = match self.trigger_policy {
            Some(policy) => policy,
            None => {
                return Err(TaskCommandError::NotScheduled);
            },
        };
        let paused: bool = self.is_paused();
        let outcome = self.trigger(policy, state);
        if paused {
            Ok(TriggerOutcome::Paused)
        } else {
            Ok(outcome)
        }
    }

    /// Takes one of the triggers that wait, if there is one.
    pub fn take_trigger(&mut self) -> (taken: bool)
        ensures
            taken == (old(self).pending > 0),
            *final(self) == (ManualControl {
                pending: if old(self).pending > 0 {
                    (old(self).pending - 1) as usize
                } else {
                    0
                },
                ..*old(self)
            }),
            old(self).wf() ==> final(self).wf(),
    {
        if self.pending == 0 {
            false
        } else {
            self.pending = self.pending - 1;
            true
        }
    }
}

/// Payload-free observation of a run.
#[derive(Debug)]
pub struct TaskSnapshot {
    pub snapshot_version: u64,
    pub observed_at: Duration,
    pub run_id: TaskRunId,
    pub job_id: JobId,
    pub key_generation: Option<u64>,
    pub lane: String,
    pub lane_generation: u64,
    pub group_generation: Option<u64>,
    pub state: TaskState,
    pub cancel_reason: Option<CancelReason>,
    pub next_wake_at: Option<Duration>,
}

impl TaskSnapshot {
    /// The observation sequence of this state.
    pub fn snapshot_version(&self) -> (result: u64)
        ensures
            result == self.snapshot_version,
    {
        self.snapshot_version
    }

    /// The offset from the creation of the scheduler.
    pub fn observed_at(&self) -> (result: Duration)
        ensures
            result == self.observed_at,
    {
        self.observed_at
    }

    /// The identity of the run.
    pub fn run_id(&self) -> (result: TaskRunId)
        ensures
            result == self.run_id,
    {
        self.run_id
    }

    /// The identity of the reusable job.
    pub fn job_id(&self) -> (result: JobId)
        ensures
            result == self.job_id,
    {
        self.job_id
    }

    /// The generation of the key, for a keyed run.
    pub fn key_generation(&self) -> (result: Option<u64>)
        ensures
            result == self.key_generation,
    {
        self.key_generation
    }

    /// The lane generation at submission.
    pub fn lane_generation(&self) -> (result: u64)
        ensures
            result == self.lane_generation,
    {
        self.lane_generation
    }

    /// The group generation, for a run of a group.
    pub fn group_generation(&self) -> (result: Option<u64>)
        ensures
            result == self.group_generation,
    {
        self.group_generation
    }

    /// The observed state.
    pub fn state(&self) -> (result: TaskState)
        ensures
            result == self.state,
    {
        self.state
    }

    /// The first accepted reason to cancel, if any.
    pub fn cancel_reason(&self) -> (result: Option<CancelReason>)
        ensures
            result == self.cancel_reason,
    {
        self.cancel_reason
    }

    /// The planned wake-up of a run that waits, as an offset from the creation of the scheduler.
    pub fn next_wake_at(&self) -> (result: Option<Duration>)
        ensures
            result == self.next_wake_at,
    {
        self.next_wake_at
    }

    /// The lane name at submission.
    pub fn lane(&self) -> (result: &str)
        ensures
            result@ == self.lane@,
    {
        self.lane.as_str()
    }
}

impl Clone for TaskSnapshot {
    fn clone(&self) -> (copy: Self)
        ensures
            copy == *self,
    {
        TaskSnapshot {
            snapshot_version: self.snapshot_version,
            observed_at: self.observed_at,
            run_id: self.run_id,
            job_id: self.job_id,
            key_generation: self.key_generation,
            lane: self.lane.clone(),
            lane_generation: self.lane_generation,
            group_generation: self.group_generation,
            state: self.state,
            cancel_reason: self.cancel_reason,
            next_wake_at: self.next_wake_at,
        }
    }
}

/// What identifies a run.
pub struct RunMetadata {
    pub run_id: TaskRunId,
    pub job_id: JobId,
    pub key_generation: Option<u64>,
    pub lane: String,
    pub lane_generation: u64,
    pub group_generation: Option<u64>,
}

/// The hold of a run on a key.
#[derive(Debug)]
pub struct KeyRegistration {
    pub key: String,
    pub generation: u64,
}

/// A submitted run.
#[derive(Debug)]
pub struct RunShared {
    pub run_id: TaskRunId,
    pub job_id: JobId,
    pub lane: String,
    pub lane_generation: u64,
    pub group_generation: Option<u64>,
    pub manual: ManualControl,
    pub key_registration: Option<KeyRegistration>,
    pub cancellation: Cancellation,
    pub snapshot: TaskSnapshot,
    pub terminal: bool,
    pub abort_requested: bool,
    /// Whether the run can be aborted.
    pub abortable: bool,
}

/// The wake-up `delay` after `at`, if it is in range.
pub open spec fn wakes(at: Duration, delay: Option<Duration>, wake: Option<Duration>) -> bool {
    match delay {
        Some(delay) => if at@ + delay@ <= MAX_NANOS {
            wake is Some && wake->0@ == at@ + delay@
        } else {
            wake is None
        },
        None => wake is None,
    }
}

impl RunShared {
    /// The run is over exactly when its published state is, and it publishes the reason
    /// that was accepted.
    pub open spec fn wf(&self) -> bool {
        &&& self.cancellation.wf()
        &&& self.terminal == self.snapshot.state.terminal()
        &&& self.snapshot.run_id == self.run_id
        &&& self.snapshot.cancel_reason is Some ==> self.snapshot.cancel_reason
            == self.cancellation.reason
    }

    /// What the run is does not change; an accepted reason and a terminal state stay.
    pub open spec fn evolves_into(&self, later: &RunShared) -> bool {
        &&& later.run_id == self.run_id
        &&& later.job_id == self.job_id
        &&& later.lane == self.lane
        &&& later.lane_generation == self.lane_generation
        &&& later.group_generation == self.group_generation
        &&& self.cancellation.reason is Some ==> later.cancellation.reason
            == self.cancellation.reason
        &&& self.cancellation.outcome_claimed ==> later.cancellation == self.cancellation
        &&& self.terminal ==> later.terminal && later.snapshot == self.snapshot
    }

    /// The event that publishes what the run's snapshot says.
    pub open spec fn event(&self, kind: TaskEventKind) -> TaskEvent {
        TaskEvent {
            sequence: self.snapshot.snapshot_version,
            observed_at: self.snapshot.observed_at,
            kind,
            run_id: self.run_id,
            job_id: self.job_id,
            lane: self.lane,
            lane_generation: self.lane_generation,
            group_generation: self.group_generation,
            state: self.snapshot.state,
            cancel_reason: self.snapshot.cancel_reason,
            next_wake_at: self.snapshot.next_wake_at,
        }
    }

    /// `event` publishes this run, unless the sequence was exhausted.
    pub open spec fn publishes(
        &self,
        kind: TaskEventKind,
        before: Observability,
        event: Option<TaskEvent>,
    ) -> bool {
        event == if before.sequence < u64::MAX {
            Some(self.event(kind))
        } else {
            None
        }
    }

    /// `later` is this run in another state, as published at `now`.
    pub open spec fn becomes(
        &self,
        later: RunShared,
        state: TaskState,
        delay: Option<Duration>,
        before: Observability,
        now: Instant,
    ) -> bool {
        &&& later == (RunShared { terminal: later.terminal, snapshot: later.snapshot, ..*self })
        &&& later.snapshot == (TaskSnapshot {
            snapshot_version: before.stamped().sequence,
            observed_at: later.snapshot.observed_at,
            state,
            cancel_reason: self.cancellation.reason,
            next_wake_at: later.snapshot.next_wake_at,
            ..self.snapshot
        })
        &&& later.snapshot.observed_at@ == before.offset(now)
        &&& wakes(later.snapshot.observed_at, delay, later.snapshot.next_wake_at)
    }

    /// A run that was accepted.
    pub fn new(metadata: RunMetadata, trigger_policy: Option<TriggerPolicy>) -> (run: Self)
        ensures
            run.wf(),
            run.run_id == metadata.run_id,
            run.job_id == metadata.job_id,
            run.lane == metadata.lane,
            run.lane_generation == metadata.lane_generation,
            run.group_generation == metadata.group_generation,
            run.manual == (ManualControl {
                task_paused: false,
                scope_paused: false,
                trigger_policy,
                pending: 0,
            }),
            run.key_registration is None,
            run.cancellation == (Cancellation { reason: None, outcome_claimed: false }),
            run.snapshot == (TaskSnapshot {
                snapshot_version: 0,
                observed_at: run.snapshot.observed_at,
                run_id: metadata.run_id,
                job_id: metadata.job_id,
                key_generation: metadata.key_generation,
                lane: metadata.lane,
                lane_generation: metadata.lane_generation,
                group_generation: metadata.group_generation,
                state: TaskState::Queued,
                cancel_reason: None,
                next_wake_at: None,
            }),
            run.snapshot.observed_at@ == 0,
            !run.terminal,
            !run.abort_requested,
            !run.abortable,
    {
        RunShared {
            run_id: metadata.run_id,
            job_id: metadata.job_id,
            manual: ManualControl::new(trigger_policy),
            key_registration: None,
            cancellation: Cancellation::new(),
            snapshot: TaskSnapshot {
                snapshot_version: 0,
                observed_at: Duration::zero(),
                run_id: metadata.run_id,
                job_id: metadata.job_id,
                key_generation: metadata.key_generation,
                lane: metadata.lane.clone(),
                lane_generation: metadata.lane_generation,
                group_generation: metadata.group_generation,
                state: TaskState::Queued,
                cancel_reason: None,
                next_wake_at: None,
            },
            lane: metadata.lane,
            lane_generation: metadata.lane_generation,
            group_generation: metadata.group_generation,
            terminal: false,
            abort_requested: false,
            abortable: false,
        }
    }

    fn event_data(&self) -> (data: EventData)
        ensures
            data == (EventData {
                run_id: self.run_id,
                job_id: self.job_id,
                lane: self.lane,
                lane_generation: self.lane_generation,
                group_generation: self.group_generation,
                state: self.snapshot.state,
                cancel_reason: self.snapshot.cancel_reason,
                next_wake_at: self.snapshot.next_wake_at,
            }),
    {
        EventData {
            run_id: self.run_id,
            job_id: self.job_id,
            lane: self.lane.clone(),
            lane_generation: self.lane_generation,
            group_generation: self.group_generation,
            state: self.snapshot.state,
            cancel_reason: self.snapshot.cancel_reason,
            next_wake_at: self.snapshot.next_wake_at,
        }
    }

    fn publish(
        &mut self,
        kind: TaskEventKind,
        state: TaskState,
        delay: Option<Duration>,
        observability: &mut Observability,
        now: Instant,
    ) -> (event: Option<TaskEvent>)
        ensures
            old(self).becomes(*final(self), state, delay, *old(observability), now),
            final(self).terminal == old(self).terminal,
            final(self).publishes(kind, *old(observability), event),
            *final(observability) == old(observability).published(),
    {
        let stamp: Stamp = observability.next_stamp(now);
        self.snapshot.snapshot_version = stamp.sequence;
        self.snapshot.observed_at = stamp.observed_at;
        self.snapshot.state = state;
        self.snapshot.cancel_reason = self.cancellation.reason;
        self.snapshot.next_wake_at =
        match delay {
            Some(delay) => stamp.observed_at.checked_add(delay),
            None => None,
        };
        let data = self.event_data();
        observability.event(kind, stamp, data)
    }

    /// Whether a transition to `state` is published: not after the end, and after a
    /// request to stop only that request.
    pub open spec fn takes(&self, state: TaskState) -> bool {
        &&& !self.terminal
        &&& state == TaskState::CancelRequested || self.snapshot.state
            != TaskState::CancelRequested
    }

    /// Publishes a state that is not terminal.
    pub fn transition(
        &mut self,
        state: TaskState,
        observability: &mut Observability,
        now: Instant,
    ) -> (event: Option<TaskEvent>)
        requires
            old(self).wf(),
            !state.terminal(),
        ensures
            final(self).wf(),
            old(self).evolves_into(final(self)),
            if old(self).takes(state) {
                &&& old(self).becomes(*final(self), state, None, *old(observability), now)
                &&& final(self).publishes(
                    TaskEventKind::StateChanged,
                    *old(observability),
                    event,
                )
                &&& *final(observability) == old(observability).published()
            } else {
                &&& event is None
                &&& *final(self) == *old(self)
                &&& *final(observability) == *old(observability)
            },
    {
        self.transition_with_delay(state, None, observability, now)
    }

    /// Publishes a state that is not terminal, and when the run wakes up.
    pub fn transition_with_delay(
        &mut self,
        state: TaskState,
        delay: Option<Duration>,
        observability: &mut Observability,
        now: Instant,
    ) -> (event: Option<TaskEvent>)
        requires
            old(self).wf(),
            !state.terminal(),
        ensures
            final(self).wf(),
            old(self).evolves_into(final(self)),
            if old(self).takes(state) {
                &&& old(self).becomes(*final(self), state, delay, *old(observability), now)
                &&& final(self).publishes(
                    TaskEventKind::StateChanged,
                    *old(observability),
                    event,
                )
                &&& *final(observability) == old(observability).published()
            } else {
                &&& event is None
                &&& *final(self) == *old(self)
                &&& *final(observability) == *old(observability)
            },
    {
        if self.terminal {
            return None;
        }
        if state == TaskState::CancelRequested || self.snapshot.state
            != TaskState::CancelRequested {
            self.publish(TaskEventKind::StateChanged, state, delay, observability, now)
        } else {
            None
        }
    }

    /// Publishes that the run was accepted.
    pub fn publish_submitted(&mut self, observability: &mut Observability, now: Instant) -> (event:
        Option<TaskEvent>)
        requires
            old(self).wf(),
        ensures
            final(self).wf(),
            *final(self) == (RunShared {
                snapshot: TaskSnapshot {
                    snapshot_version: old(observability).stamped().sequence,
                    observed_at: final(self).snapshot.observed_at,
                    ..old(self).snapshot
                },
                ..*old(self)
            }),
            final(self).snapshot.observed_at@ == old(observability).offset(now),
            final(self).publishes(TaskEventKind::Submitted, *old(observability), event),
            *final(observability) == old(observability).published(),
    {
        let stamp: Stamp = observability.next_stamp(now);
        self.snapshot.snapshot_version = stamp.sequence;
        self.snapshot.observed_at = stamp.observed_at;
        let data = self.event_data();
        observability.event(TaskEventKind::Submitted, stamp, data)
    }

    /// Publishes the end of the run; only the first end counts.
    pub fn publish_terminal(
        &mut self,
        state: TaskState,
        observability: &mut Observability,
        now: Instant,
    ) -> (published: (bool, Option<TaskEvent>))
        requires
            old(self).wf(),
            state.terminal(),
        ensures
            final(self).wf(),
            old(self).evolves_into(final(self)),
            published.0 == !old(self).terminal,
            if !old(self).terminal {
                &&& old(self).becomes(*final(self), state, None, *old(observability), now)
                &&& final(self).terminal
                &&& final(self).publishes(
                    TaskEventKind::Terminal,
                    *old(observability),
                    published.1,
                )
                &&& *final(observability) == old(observability).published()
            } else {
                &&& published.1 is None
                &&& *final(self) == *old(self)
                &&& *final(observability) == *old(observability)
            },
    {
        if self.terminal {
            return (false, None);
        }
        self.terminal = true;
        let event = self.publish(TaskEventKind::Terminal, state, None, observability, now);
        (true, event)
    }

    /// Pauses the run; says whether that changed anything.
    pub fn pause(&mut self) -> (result: Result<bool, TaskCommandError>)
        requires
            old(self).wf(),
        ensures
            final(self).wf(),
            if old(self).terminal {
                &&& result == Err::<bool, TaskCommandError>(TaskCommandError::Terminal)
                &&& *final(self) == *old(self)
            } else {
                &&& result == Ok::<bool, TaskCommandError>(!old(self).manual.task_paused)
                &&& *final(self) == (RunShared {
                    manual: ManualControl { task_paused: true, ..old(self).manual },
                    ..*old(self)
                })
            },
    {
        if self.terminal {
            return Err(TaskCommandError::Terminal);
        }
        Ok(self.manual.pause_task())
    }

    /// Ends the pause of the run, unless its group is paused; says whether that changed
    /// anything.
    pub fn resume(&mut self, group_paused: bool) -> (result: Result<bool, TaskCommandError>)
        requires
            old(self).wf(),
        ensures
            final(self).wf(),
            if old(self).terminal {
                &&& result == Err::<bool, TaskCommandError>(TaskCommandError::Terminal)
                &&& *final(self) == *old(self)
            } else if group_paused {
                &&& result == Err::<bool, TaskCommandError>(TaskCommandError::ScopePaused)
                &&& *final(self) == *old(self)
            } else {
                &&& result == Ok::<bool, TaskCommandError>(old(self).manual.task_paused)
                &&& *final(self) == (RunShared {
                    manual: ManualControl { task_paused: false, ..old(self).manual },
                    ..*old(self)
                })
            },
    {
        if self.terminal {
            return Err(TaskCommandError::Terminal);
        }
        if group_paused {
            return Err(TaskCommandError::ScopePaused);
        }
        Ok(self.manual.resume_task())
    }

    /// Asks for a run now. A paused run, by itself or with its group, keeps the request as
    /// its policy says.
    pub fn run_now(&mut self, group_paused: bool) -> (result: Result<
        TriggerOutcome,
        TaskCommandError,
    >)
        requires
            old(self).wf(),
        ensures
            final(self).wf(),
            *final(self) == (RunShared { manual: final(self).manual, ..*old(self) }),
            result == old(self).triggers(group_paused),
            final(self).manual == if old(self).terminal || old(
                self,
            ).manual.trigger_policy is None {
                old(self).manual
            } else {
                ManualControl {
                    pending: old(self).manual.triggered(
                        old(self).manual.trigger_policy->0,
                        old(self).snapshot.state,
                    ).1 as usize,
                    ..old(self).manual
                }
            },
    {
        if self.terminal {
            return Err(TaskCommandError::Terminal);
        }
        let state: TaskState = self.snapshot.state;
        let result = self.manual.run_now(state);
        if group_paused {
            return Ok(TriggerOutcome::Paused);
        }
        result
    }

    /// What a request to run now is answered.
    pub open spec fn triggers(&self, group_paused: bool) -> Result<
        TriggerOutcome,
        TaskCommandError,
    > {
        if self.terminal {
            Err(TaskCommandError::Terminal)
        } else if group_paused {
            Ok(TriggerOutcome::Paused)
        } else {
            match self.manual.trigger_policy {
                None => Err(TaskCommandError::NotScheduled),
                Some(policy) => Ok(
                    if self.manual.paused() {
                        TriggerOutcome::Paused
                    } else {
                        self.manual.triggered(policy, self.snapshot.state).0
                    },
                ),
            }
        }
    }

    /// Pauses the run with its group; says whether that changed anything.
    pub fn pause_scope(&mut self) -> (result: Result<bool, TaskCommandError>)
        requires
            old(self).wf(),
        ensures
            final(self).wf(),
            if old(self).terminal {
                &&& result == Err::<bool, TaskCommandError>(TaskCommandError::Terminal)
                &&& *final(self) == *old(self)
            } else {
                &&& result == Ok::<bool, TaskCommandError>(!old(self).manual.scope_paused)
                &&& *final(self) == (RunShared {
                    manual: ManualControl { scope_paused: true, ..old(self).manual },
                    ..*old(self)
                })
            },
    {
        if self.terminal {
            return Err(TaskCommandError::Terminal);
        }
        Ok(self.manual.pause_scope())
    }

    /// Ends the pause of the group for this run; says whether that changed anything.
    pub fn resume_scope(&mut self) -> (result: Result<bool, TaskCommandError>)
        requires
            old(self).wf(),
        ensures
            final(self).wf(),
            if old(self).terminal {
                &&& result == Err::<bool, TaskCommandError>(TaskCommandError::Terminal)
                &&& *final(self) == *old(self)
            } else {
                &&& result == Ok::<bool, TaskCommandError>(old(self).manual.scope_paused)
                &&& *final(self) == (RunShared {
                    manual: ManualControl { scope_paused: false, ..old(self).manual },
                    ..*old(self)
                })
            },
    {
        if self.terminal {
            return Err(TaskCommandError::Terminal);
        }
        Ok(self.manual.resume_scope())
    }

    /// Whether a request to stop is accepted.
    pub open spec fn accepts_cancel(&self) -> bool {
        !self.terminal && self.cancellation.accepts()
    }

    /// Asks the run to stop. Only the first request counts, and only before the end.
    pub fn cancel(
        &mut self,
        reason: CancelReason,
        observability: &mut Observability,
        now: Instant,
    ) -> (cancelled: (bool, Option<TaskEvent>))
        requires
            old(self).wf(),
        ensures
            final(self).wf(),
            old(self).evolves_into(final(self)),
            cancelled.0 == old(self).accepts_cancel(),
            if old(self).accepts_cancel() {
                &&& (RunShared {
                    cancellation: old(self).cancellation.cancelled(reason),
                    ..*old(self)
                }).becomes(
                    *final(self),
                    TaskState::CancelRequested,
                    None,
                    *old(observability),
                    now,
                )
                &&& final(self).publishes(
                    TaskEventKind::StateChanged,
                    *old(observability),
                    cancelled.1,
                )
                &&& *final(observability) == old(observability).published()
            } else {
                &&& cancelled.1 is None
                &&& *final(self) == *old(self)
                &&& *final(observability) == *old(observability)
            },
    {
        if self.terminal {
            return (false, None);
        }
        if self.cancellation.cancel(reason) {
            let event = self.transition(TaskState::CancelRequested, observability, now);
            (true, event)
        } else {
            (false, None)
        }
    }

    /// The current observation.
    pub fn snapshot(&self) -> (snapshot: TaskSnapshot)
        ensures
            snapshot == self.snapshot,
    {
        self.snapshot.clone()
    }

    /// Records that the run can be aborted.
    pub fn set_abortable(&mut self)
        ensures
            *final(self) == (RunShared { abortable: true, ..*old(self) }),
    {
        self.abortable = true;
    }

    /// Whether the run is to be aborted now: once, before its end, and only if it can be.
    pub fn request_abort(&mut self) -> (abort: bool)
        ensures
            abort == (!old(self).terminal && !old(self).abort_requested && old(self).abortable),
            *final(self) == (RunShared {
                abort_requested: old(self).abort_requested || abort,
                ..*old(self)
            }),
    {
        if self.terminal || self.abort_requested {
            return false;
        }
        if self.abortable {
            self.abort_requested = true;
            true
        } else {
            false
        }
    }

    /// The result of the run's work as its task came back, and the run after it was asked
    /// for.
    pub open spec fn comes_back<T, E>(
        &self,
        joined: Result<TaskTerminal<T, E>, JoinFailure>,
        after: RunShared,
        terminal: TaskTerminal<T, E>,
    ) -> bool {
        match joined {
            Ok(result) => terminal == result && after == *self,
            Err(JoinFailure::Panicked { message }) => {
                &&& after == (RunShared {
                    cancellation: self.cancellation.claimed(),
                    ..*self
                })
                &&& match self.cancellation.reason {
                    Some(reason) => terminal == (TaskTerminal::<T, E>::Cancelled { reason }),
                    None => {
                        &&& terminal matches TaskTerminal::Panicked(info)
                        &&& match message {
                            Some(message) => info.text() == Some(message@),
                            None => info.text() is None,
                        }
                    },
                }
            },
            Err(_) => {
                &&& after == *self
                &&& terminal == if self.abort_requested {
                    TaskTerminal::<T, E>::Aborted
                } else {
                    TaskTerminal::ExecutorStopped
                }
            },
        }
    }

    /// The result of the run's work, as its task came back.
    pub fn joined<T, E>(&mut self, joined: Result<TaskTerminal<T, E>, JoinFailure>) -> (terminal:
        TaskTerminal<T, E>)
        requires
            old(self).wf(),
        ensures
            final(self).wf(),
            old(self).evolves_into(final(self)),
            old(self).comes_back(joined, *final(self), terminal),
    {
        match joined {
            Ok(terminal) => terminal,
            Err(JoinFailure::Panicked { message }) => {
                match self.cancellation.claim_outcome() {
                    Some(reason) => TaskTerminal::Cancelled { reason },
                    None => TaskTerminal::Panicked(PanicInfo::new(message)),
                }
            },
            Err(_) => {
                if self.abort_requested {
                    TaskTerminal::Aborted
                } else {
                    TaskTerminal::ExecutorStopped
                }
            },
        }
    }

    /// Ends the run with a result. Where a shutdown ended it first, that is the result
    /// which its owner sees too.
    pub fn settle<T, E>(
        &mut self,
        terminal: TaskTerminal<T, E>,
        observability: &mut Observability,
        now: Instant,
    ) -> (settled: (TaskTerminal<T, E>, Option<TaskEvent>))
        requires
            old(self).wf(),
        ensures
            final(self).wf(),
            final(self).terminal,
            old(self).evolves_into(final(self)),
            if !old(self).terminal {
                &&& settled.0 == terminal
                &&& old(self).becomes(
                    *final(self),
                    terminal.state_spec(),
                    None,
                    *old(observability),
                    now,
                )
                &&& final(self).publishes(TaskEventKind::Terminal, *old(observability), settled.1)
                &&& *final(observability) == old(observability).published()
            } else {
                &&& settled.1 is None
                &&& *final(self) == *old(self)
                &&& *final(observability) == *old(observability)
                &&& settled.0 == if old(self).snapshot.state == TaskState::ExecutorStopped {
                    TaskTerminal::<T, E>::ExecutorStopped
                } else {
                    terminal
                }
            },
    {
        let (first, event) = self.publish_terminal(terminal.state(), observability, now);
        if first {
            (terminal, event)
        } else if self.snapshot.state == TaskState::ExecutorStopped {
            (TaskTerminal::ExecutorStopped, event)
        } else {
            (terminal, event)
        }
    }

    /// Ends a run whose owner can no longer be told the result.
    pub fn settle_without_owner(&mut self, observability: &mut Observability, now: Instant) -> (
    event: Option<TaskEvent>)
        requires
            old(self).wf(),
        ensures
            final(self).wf(),
            final(self).terminal,
            old(self).evolves_into(final(self)),
            if !old(self).terminal {
                &&& old(self).becomes(
                    *final(self),
                    TaskState::ExecutorError,
                    None,
                    *old(observability),
                    now,
                )
                &&& final(self).publishes(TaskEventKind::Terminal, *old(observability), event)
                &&& *final(observability) == old(observability).published()
            } else {
                &&& event is None
                &&& *final(self) == *old(self)
                &&& *final(observability) == *old(observability)
            },
    {
        let (_, event) = self.publish_terminal(TaskState::ExecutorError, observability, now);
        event
    }

    /// The result that the owner of a run receives. Where the sender is gone, the run
    /// ends, and the owner is told why.
    pub fn receive_terminal<T, E>(
        &mut self,
        received: Option<TaskTerminal<T, E>>,
        observability: &mut Observability,
        now: Instant,
    ) -> (result: (TaskTerminal<T, E>, Option<TaskEvent>))
        requires
            old(self).wf(),
        ensures
            final(self).wf(),
            old(self).evolves_into(final(self)),
            match received {
                Some(terminal) => {
                    &&& result == (terminal, None::<TaskEvent>)
                    &&& *final(self) == *old(self)
                    &&& *final(observability) == *old(observability)
                },
                None => if old(self).snapshot.state == TaskState::ExecutorError {
                    &&& result == (
                        TaskTerminal::<T, E>::ExecutorError {
                            code: ExecutorErrorCode::CompletionAlreadyPublished,
                        },
                        None::<TaskEvent>,
                    )
                    &&& *final(self) == *old(self)
                    &&& *final(observability) == *old(observability)
                } else {
                    &&& result.0 == TaskTerminal::<T, E>::ExecutorStopped
                    &&& final(self).terminal
                    &&& if !old(self).terminal {
                        &&& old(self).becomes(
                            *final(self),
                            TaskState::ExecutorStopped,
                            None,
                            *old(observability),
                            now,
                        )
                        &&& final(self).publishes(
                            TaskEventKind::Terminal,
                            *old(observability),
                            result.1,
                        )
                        &&& *final(observability) == old(observability).published()
                    } else {
                        &&& result.1 is None
                        &&& *final(self) == *old(self)
                        &&& *final(observability) == *old(observability)
                    }
                },
            },
    {
        match received {
            Some(terminal) => (terminal, None),
            None => {
                if self.snapshot.state == TaskState::ExecutorError {
                    return (
                        TaskTerminal::ExecutorError {
                            code: ExecutorErrorCode::CompletionAlreadyPublished,
                        },
                        None,
                    );
                }
                let (_, event) = self.publish_terminal(
                    TaskState::ExecutorStopped,
                    observability,
                    now,
                );
                (TaskTerminal::ExecutorStopped, event)
            },
        }
    }
}

/// What a run once was stays over any number of steps: an accepted reason and a terminal
/// state are for good.
pub proof fn lemma_evolution_is_transitive(a: RunShared, b: RunShared, c: RunShared)
    requires
        a.evolves_into(&b),
        b.evolves_into(&c),
    ensures
        a.evolves_into(&c),
{
}

/// A request to run a paused run now is kept: once the run is resumed, a trigger is there to
/// be taken.
pub proof fn lemma_paused_request_is_kept(
    before: ManualControl,
    after: ManualControl,
    policy: TriggerPolicy,
    state: TaskState,
)
    requires
        before.wf(),
        before.trigger_policy == Some(policy),
        before.paused(),
        policy == TriggerPolicy::Drop ==> state == TaskState::WaitingForSchedule,
        policy matches TriggerPolicy::QueueAll { capacity } ==> capacity > 0,
        after == (ManualControl {
            pending: before.triggered(policy, state).1 as usize,
            ..before
        }),
    ensures
        after.pending > 0,
        after.pending >= before.pending || policy == TriggerPolicy::Replace,
        policy == TriggerPolicy::CoalesceOne && before.pending == 0 ==> after.pending == 1,
{
}

/// A request to stop is accepted once, before the outcome is claimed, and keeps its reason; an
/// outcome is claimed only where no request was accepted before. Each changes nothing else.
pub proof fn lemma_request_and_outcome_exclude_each_other(
    cancellation: Cancellation,
    reason: CancelReason,
)
    ensures
        cancellation.accepts() <==> cancellation.reason is None && !cancellation.outcome_claimed,
        cancellation.reason is None && !cancellation.outcome_claimed ==> cancellation.cancelled(
            reason,
        ).reason == Some(reason) && !cancellation.cancelled(reason).outcome_claimed,
        cancellation.reason is Some || cancellation.outcome_claimed ==> cancellation.cancelled(
            reason,
        ) == cancellation,
        cancellation.reason is None ==> cancellation.claimed().outcome_claimed
            && cancellation.claimed().reason is None,
        cancellation.reason is Some ==> cancellation.claimed() == cancellation,
        cancellation.wf() ==> cancellation.cancelled(reason).wf() && cancellation.claimed().wf(),
{
}

/// What a manual trigger does: where one may wait it is scheduled, a second one is dropped,
/// joined to it or put in its place as the policy says, and a queue takes as many as it has
/// room for. At least one waits after any trigger that was not dropped.
pub proof fn lemma_triggers_follow_the_policy(
    manual: ManualControl,
    state: TaskState,
    capacity: usize,
)
    ensures
        ({
            let (outcome, pending) = manual.triggered(TriggerPolicy::Drop, state);
            &&& outcome == TriggerOutcome::Scheduled <==> state == TaskState::WaitingForSchedule
                && manual.pending == 0
            &&& outcome == TriggerOutcome::Scheduled ==> pending == 1
            &&& outcome != TriggerOutcome::Scheduled ==> outcome == TriggerOutcome::Dropped
                && pending == manual.pending
        }),
        ({
            let (outcome, pending) = manual.triggered(TriggerPolicy::CoalesceOne, state);
            &&& manual.pending == 0 ==> outcome == TriggerOutcome::Scheduled && pending == 1
            &&& manual.pending > 0 ==> outcome == TriggerOutcome::Coalesced && pending
                == manual.pending
        }),
        ({
            let (outcome, pending) = manual.triggered(TriggerPolicy::QueueAll { capacity }, state);
            &&& manual.pending < capacity ==> pending == manual.pending + 1 && outcome == (
            TriggerOutcome::Queued { pending: (manual.pending + 1) as usize })
            &&& manual.pending >= capacity ==> pending == manual.pending && outcome
                == TriggerOutcome::Dropped
        }),
        ({
            let (outcome, pending) = manual.triggered(TriggerPolicy::Replace, state);
            &&& pending == 1
            &&& manual.pending == 0 ==> outcome == TriggerOutcome::Scheduled
            &&& manual.pending > 0 ==> outcome == TriggerOutcome::Replaced
        }),
        manual.paused() <==> manual.task_paused || manual.scope_paused,
{
}

/// A run that is over cannot be triggered, one of a paused group or one that is paused keeps
/// the request, one without a schedule has none, and any other answers as its policy says.
pub proof fn lemma_how_triggers_are_answered(run: RunShared, group_paused: bool)
    ensures
        run.terminal ==> run.triggers(group_paused) == Err::<TriggerOutcome, TaskCommandError>(
            TaskCommandError::Terminal,
        ),
        !run.terminal && group_paused ==> run.triggers(group_paused) == Ok::<
            TriggerOutcome,
            TaskCommandError,
        >(TriggerOutcome::Paused),
        !run.terminal && !group_paused && run.manual.trigger_policy is None ==> run.triggers(
            group_paused,
        ) == Err::<TriggerOutcome, TaskCommandError>(TaskCommandError::NotScheduled),
        !run.terminal && !group_paused && run.manual.trigger_policy is Some && (
        run.manual.task_paused || run.manual.scope_paused) ==> run.triggers(group_paused) == Ok::<
            TriggerOutcome,
            TaskCommandError,
        >(TriggerOutcome::Paused),
        !run.terminal && !group_paused && run.manual.trigger_policy is Some
            && !run.manual.task_paused && !run.manual.scope_paused ==> run.triggers(group_paused)
            == Ok::<TriggerOutcome, TaskCommandError>(
            run.manual.triggered(run.manual.trigger_policy->0, run.snapshot.state).0,
        ),
{
}

/// A wake-up is published as the point a delay after the observation, where it is in range.
pub proof fn lemma_wake_up_is_a_delay_away(
    at: Duration,
    delay: Option<Duration>,
    wake: Option<Duration>,
)
    requires
        wakes(at, delay, wake),
    ensures
        delay is None ==> wake is None,
        delay matches Some(span) ==> {
            &&& at@ + span@ <= MAX_NANOS ==> wake is Some && wake->0@ == at@ + span@
            &&& at@ + span@ > MAX_NANOS ==> wake is None
        },
{
}

/// A published state is the one that was meant, with the next version and the accepted
/// reason; what the run is does not change, and its event tells what its snapshot does.
pub proof fn lemma_published_state_is_the_one_meant(
    run: RunShared,
    later: RunShared,
    state: TaskState,
    delay: Option<Duration>,
    before: Observability,
    now: Instant,
    kind: TaskEventKind,
)
    requires
        run.becomes(later, state, delay, before, now),
    ensures
        later.snapshot.state == state,
        later.snapshot.cancel_reason == run.cancellation.reason,
        before.sequence < u64::MAX ==> later.snapshot.snapshot_version == before.sequence + 1,
        before.started_at@ <= now@ ==> before.started_at@ + later.snapshot.observed_at@ == now@,
        delay is None ==> later.snapshot.next_wake_at is None,
        later.run_id == run.run_id,
        later.cancellation == run.cancellation,
        later.manual == run.manual,
        later.key_registration == run.key_registration,
        later.group_generation == run.group_generation,
        later.event(kind).kind == kind,
        later.event(kind).state == state,
        later.event(kind).run_id == run.run_id,
        later.event(kind).sequence == later.snapshot.snapshot_version,
        later.event(kind).cancel_reason == run.cancellation.reason,
        later.event(kind).next_wake_at == later.snapshot.next_wake_at,
        later.event(kind).group_generation == run.group_generation,
        later.event(kind).lane == run.lane,
{
}

/// After its end a run publishes nothing, and after a request to stop only that request.
pub proof fn lemma_which_states_are_published(
    run: RunShared,
    state: TaskState,
    kind: TaskEventKind,
    before: Observability,
    event: Option<TaskEvent>,
)
    ensures
        run.takes(state) <==> !run.terminal && (run.snapshot.state == TaskState::CancelRequested
            ==> state == TaskState::CancelRequested),
        run.publishes(kind, before, event) ==> {
            &&& before.sequence < u64::MAX ==> event == Some(run.event(kind))
            &&& before.sequence == u64::MAX ==> event is None
        },
        run.accepts_cancel() <==> !run.terminal && run.cancellation.reason is None
            && !run.cancellation.outcome_claimed,
{
}

/// A run whose work returned has its result. A panic is reported as one with its text, unless
/// a request to stop came first; work that was lost was aborted if that was asked for, and
/// else stopped with its executor.
pub proof fn lemma_how_work_comes_back<T, E>(
    run: RunShared,
    joined: Result<TaskTerminal<T, E>, JoinFailure>,
    after: RunShared,
    terminal: TaskTerminal<T, E>,
)
    requires
        run.comes_back(joined, after, terminal),
    ensures
        joined matches Ok(result) ==> terminal == result && after == run,
        joined matches Err(JoinFailure::Panicked { message: Some(message) }) ==> {
            &&& run.cancellation.reason is None ==> {
                &&& terminal matches TaskTerminal::Panicked(info)
                &&& info.text() == Some(message@)
                &&& after.cancellation.outcome_claimed
            }
            &&& run.cancellation.reason matches Some(reason) ==> terminal == (TaskTerminal::<
                T,
                E,
            >::Cancelled { reason })
        },
        joined is Err && !(joined->Err_0 is Panicked) && run.abort_requested ==> terminal
            is Aborted,
        joined is Err && !(joined->Err_0 is Panicked) && !run.abort_requested ==> terminal
            is ExecutorStopped,
        after.snapshot == run.snapshot,
        after.terminal == run.terminal,
{
}

} // verus!
