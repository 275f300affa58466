//! Payload-free observation of a scheduler: events with a monotonic sequence, and counts
//! of what could not be delivered.
//!
//! The channels themselves are the caller's; this module decides what is sent, what is
//! counted, and how a run's events are numbered.

use crate::scheduler::types::{CancelReason, JobId, TaskRunId, TaskState};
use crate::time::{Duration, Instant};
use vstd::prelude::*;

verus! {

/// The phase of the life cycle that an event publishes.
#[derive(Clone, Copy, Debug, Eq, PartialEq, Structural)]
pub enum TaskEventKind {
    /// A run was accepted into a lane.
    Submitted,
    /// A state that is not terminal.
    StateChanged,
    /// The one terminal state of the run.
    Terminal,
}

/// An event in the life of a run, without keys, values, errors and panic texts.
#[derive(Debug)]
pub struct TaskEvent {
    pub sequence: u64,
    pub observed_at: Duration,
    pub kind: TaskEventKind,
    pub run_id: TaskRunId,
    pub job_id: JobId,
    pub lane: String,
    pub lane_generation: u64,
    pub group_generation: Option<u64>,
    pub state: TaskState,
    pub cancel_reason: Option<CancelReason>,
    pub next_wake_at: Option<Duration>,
}

impl TaskEvent {
    /// The scheduler-wide monotonic publication sequence.
    pub fn sequence(&self) -> (result: u64)
        ensures
            result == self.sequence,
    {
        self.sequence
    }

    /// The monotonic offset from the creation of the scheduler.
    pub fn observed_at(&self) -> (result: Duration)
        ensures
            result == self.observed_at,
    {
        self.observed_at
    }

    /// The phase of the life cycle.
    pub fn kind(&self) -> (result: TaskEventKind)
        ensures
            result == self.kind,
    {
        self.kind
    }

    /// The identity of the run.
    pub fn run_id(&self) -> (result: TaskRunId)
        ensures
            result == self.run_id,
    {
        self.run_id
    }

    /// The identity that runs of the same reusable job share.
    pub fn job_id(&self) -> (result: JobId)
        ensures
            result == self.job_id,
    {
        self.job_id
    }

    /// The lane generation at submission.
    pub fn lane_generation(&self) -> (result: u64)
        ensures
            result == self.lane_generation,
    {
        self.lane_generation
    }

    /// The group generation, for a run that was submitted through a group.
    pub fn group_generation(&self) -> (result: Option<u64>)
        ensures
            result == self.group_generation,
    {
        self.group_generation
    }

    /// The state that the event publishes.
    pub fn state(&self) -> (result: TaskState)
        ensures
            result == self.state,
    {
        self.state
    }

    /// The first accepted reason to cancel, if any.
    pub fn cancel_reason(&self) -> (result: Option<CancelReason>)
        ensures
            result == self.cancel_reason,
    {
        self.cancel_reason
    }

    /// The planned wake-up, as an offset from the creation of the scheduler.
    pub fn next_wake_at(&self) -> (result: Option<Duration>)
        ensures
            result == self.next_wake_at,
    {
        self.next_wake_at
    }

    /// The lane name at submission.
    pub fn lane(&self) -> (result: &str)
        ensures
            result@ == self.lane@,
    {
        self.lane.as_str()
    }
}

impl Clone for TaskEvent {
    fn clone(&self) -> (copy: Self)
        ensures
            copy == *self,
    {
        TaskEvent {
            sequence: self.sequence,
            observed_at: self.observed_at,
            kind: self.kind,
            run_id: self.run_id,
            job_id: self.job_id,
            lane: self.lane.clone(),
            lane_generation: self.lane_generation,
            group_generation: self.group_generation,
            state: self.state,
            cancel_reason: self.cancel_reason,
            next_wake_at: self.next_wake_at,
        }
    }
}

/// A consumer of events that is called away from the execution of tasks.
pub trait MetricsHook: Send + Sync {
    /// Receives an event.
    fn on_event(&self, event: &TaskEvent);
}

/// Every sender of an event stream is gone.
#[derive(Clone, Copy, Debug, Eq, PartialEq, Structural)]
pub struct EventRecvError;

impl EventRecvError {
    /// Human-readable description.
    pub fn message(&self) -> (message: &'static str)
        ensures
            message@ == "task event stream is closed"@,
    {
        "task event stream is closed"
    }
}

/// What a scheduler's snapshot is made of.
pub struct SchedulerSnapshotData {
    pub snapshot_version: u64,
    pub active_tasks: usize,
    pub queued_tasks: usize,
    pub running_tasks: usize,
    pub waiting_tasks: usize,
    pub cancel_requested_tasks: usize,
    pub shutting_down: bool,
    pub lanes: usize,
    pub groups: usize,
    pub dropped_event_deliveries: u64,
    pub observation_failures: u64,
}

/// A payload-free view of a scheduler's resources.
#[derive(Debug)]
pub struct SchedulerSnapshot {
    pub snapshot_version: u64,
    pub active_tasks: usize,
    pub queued_tasks: usize,
    pub running_tasks: usize,
    pub waiting_tasks: usize,
    pub cancel_requested_tasks: usize,
    pub shutting_down: bool,
    pub lanes: usize,
    pub groups: usize,
    pub dropped_event_deliveries: u64,
    pub observation_failures: u64,
}

impl SchedulerSnapshot {
    /// The snapshot of these counts.
    pub fn new(data: SchedulerSnapshotData) -> (snapshot: Self)
        ensures
            snapshot == (SchedulerSnapshot {
                snapshot_version: data.snapshot_version,
                active_tasks: data.active_tasks,
                queued_tasks: data.queued_tasks,
                running_tasks: data.running_tasks,
                waiting_tasks: data.waiting_tasks,
                cancel_requested_tasks: data.cancel_requested_tasks,
                shutting_down: data.shutting_down,
                lanes: data.lanes,
                groups: data.groups,
                dropped_event_deliveries: data.dropped_event_deliveries,
                observation_failures: data.observation_failures,
            }),
    {
        SchedulerSnapshot {
            snapshot_version: data.snapshot_version,
            active_tasks: data.active_tasks,
            queued_tasks: data.queued_tasks,
            running_tasks: data.running_tasks,
            waiting_tasks: data.waiting_tasks,
            cancel_requested_tasks: data.cancel_requested_tasks,
            shutting_down: data.shutting_down,
            lanes: data.lanes,
            groups: data.groups,
            dropped_event_deliveries: data.dropped_event_deliveries,
            observation_failures: data.observation_failures,
        }
    }

    /// The observation sequence of this capture.
    pub fn snapshot_version(&self) -> (result: u64)
        ensures
            result == self.snapshot_version,
    {
        self.snapshot_version
    }

    /// Registered runs without a terminal state.
    pub fn active_tasks(&self) -> (result: usize)
        ensures
            result == self.active_tasks,
    {
        self.active_tasks
    }

    /// Registered runs that wait to begin or for a permit.
    pub fn queued_tasks(&self) -> (result: usize)
        ensures
            result == self.queued_tasks,
    {
        self.queued_tasks
    }

    /// Registered runs whose work runs.
    pub fn running_tasks(&self) -> (result: usize)
        ensures
            result == self.running_tasks,
    {
        self.running_tasks
    }

    /// Registered runs that wait for a resumption, a retry or their schedule.
    pub fn waiting_tasks(&self) -> (result: usize)
        ensures
            result == self.waiting_tasks,
    {
        self.waiting_tasks
    }

    /// Registered runs that were asked to stop.
    pub fn cancel_requested_tasks(&self) -> (result: usize)
        ensures
            result == self.cancel_requested_tasks,
    {
        self.cancel_requested_tasks
    }

    /// Whether a shutdown has begun.
    pub fn is_shutting_down(&self) -> (result: bool)
        ensures
            result == self.shutting_down,
    {
        self.shutting_down
    }

    /// Registered lane names.
    pub fn lanes(&self) -> (result: usize)
        ensures
            result == self.lanes,
    {
        self.lanes
    }

    /// Registered group names.
    pub fn groups(&self) -> (result: usize)
        ensures
            result == self.groups,
    {
        self.groups
    }

    /// Deliveries of events and hook calls that bounded channels dropped so far.
    pub fn dropped_event_deliveries(&self) -> (result: u64)
        ensures
            result == self.dropped_event_deliveries,
    {
        self.dropped_event_deliveries
    }

    /// Hook failures and uses of an exhausted sequence so far.
    pub fn observation_failures(&self) -> (result: u64)
        ensures
            result == self.observation_failures,
    {
        self.observation_failures
    }
}

/// What an event says about a run.
pub struct EventData {
    pub run_id: TaskRunId,
    pub job_id: JobId,
    pub lane: String,
    pub lane_generation: u64,
    pub group_generation: Option<u64>,
    pub state: TaskState,
    pub cancel_reason: Option<CancelReason>,
    pub next_wake_at: Option<Duration>,
}

/// The number and time of an observation.
#[derive(Clone, Copy, Debug)]
pub struct Stamp {
    pub sequence: u64,
    pub observed_at: Duration,
    /// Whether the sequence is not exhausted.
    pub publishable: bool,
}

/// How an event was handed to the hook's queue.
#[derive(Clone, Copy, Debug, Eq, PartialEq, Structural)]
pub enum HookDelivery {
    Sent,
    Full,
    Closed,
}

/// What came out of a subscription.
pub enum Received {
    Event(TaskEvent),
    Empty,
    /// So many events were overwritten before they were read.
    Lagged(u64),
    Closed,
}

/// The numbering of observations and the counts of what was lost.
#[derive(Debug)]
pub struct Observability {
    pub started_at: Instant,
    pub sequence: u64,
    pub outstanding_hooks: usize,
    pub dropped_deliveries: u64,
    pub observation_failures: u64,
}

impl Observability {
    /// Nothing observed yet.
    pub fn new(now: Instant) -> (observability: Self)
        ensures
            observability == (Observability {
                started_at: now,
                sequence: 0,
                outstanding_hooks: 0,
                dropped_deliveries: 0,
                observation_failures: 0,
            }),
    {
        Observability {
            started_at: now,
            sequence: 0,
            outstanding_hooks: 0,
            dropped_deliveries: 0,
            observation_failures: 0,
        }
    }

    /// How long after the start `now` is.
    pub open spec fn offset(&self, now: Instant) -> nat {
        if self.started_at@ <= now@ {
            (now@ - self.started_at@) as nat
        } else {
            0
        }
    }

    /// The stamp that comes next.
    pub open spec fn stamps(&self, now: Instant, stamp: Stamp) -> bool {
        &&& stamp.publishable == (self.sequence < u64::MAX)
        &&& stamp.sequence == if self.sequence < u64::MAX {
            self.sequence + 1
        } else {
            u64::MAX as int
        }
        &&& stamp.observed_at@ == self.offset(now)
    }

    /// The counts after a stamp: an exhausted sequence stays and counts as a failure.
    pub open spec fn stamped(&self) -> Observability {
        if self.sequence < u64::MAX {
            Observability { sequence: (self.sequence + 1) as u64, ..*self }
        } else {
            Observability {
                observation_failures: self.observation_failures.wrapping_add(1),
                ..*self
            }
        }
    }

    /// The counts after an event: one that cannot be numbered is dropped.
    pub open spec fn published(&self) -> Observability {
        if self.sequence < u64::MAX {
            self.stamped()
        } else {
            Observability {
                dropped_deliveries: self.dropped_deliveries.wrapping_add(1),
                ..self.stamped()
            }
        }
    }

    /// Numbers an observation.
    pub fn next_stamp(&mut self, now: Instant) -> (stamp: Stamp)
        ensures
            *final(self) == old(self).stamped(),
            old(self).stamps(now, stamp),
    {
        let publishable: bool = self.sequence < u64::MAX;
        if publishable {
            self.sequence = self.sequence + 1;
        } else {
            self.observation_failures = self.observation_failures.wrapping_add(1);
        }
        Stamp {
            sequence: self.sequence,
            observed_at: now.saturating_duration_since(self.started_at),
            publishable,
        }
    }

    /// Numbers an observation that no event stands for.
    pub fn observe(&mut self, now: Instant) -> (observed: (u64, Duration))
        ensures
            *final(self) == old(self).stamped(),
            observed.0 == final(self).sequence,
            observed.1@ == old(self).offset(now),
    {
        let stamp = self.next_stamp(now);
        (stamp.sequence, stamp.observed_at)
    }

    /// The event that a stamp stands for, unless it cannot be numbered.
    pub fn event(&mut self, kind: TaskEventKind, stamp: Stamp, data: EventData) -> (event: Option<
        TaskEvent,
    >)
        ensures
            stamp.publishable ==> {
                &&& *final(self) == *old(self)
                &&& event == Some(
                    TaskEvent {
                        sequence: stamp.sequence,
                        observed_at: stamp.observed_at,
                        kind,
                        run_id: data.run_id,
                        job_id: data.job_id,
                        lane: data.lane,
                        lane_generation: data.lane_generation,
                        group_generation: data.group_generation,
                        state: data.state,
                        cancel_reason: data.cancel_reason,
                        next_wake_at: data.next_wake_at,
                    },
                )
            },
            !stamp.publishable ==> {
                &&& event is None
                &&& *final(self) == (Observability {
                    dropped_deliveries: old(self).dropped_deliveries.wrapping_add(1),
                    ..*old(self)
                })
            },
    {
        if !stamp.publishable {
            self.dropped_deliveries = self.dropped_deliveries.wrapping_add(1);
            return None;
        }
        Some(
            TaskEvent {
                sequence: stamp.sequence,
                observed_at: stamp.observed_at,
                kind,
                run_id: data.run_id,
                job_id: data.job_id,
                lane: data.lane,
                lane_generation: data.lane_generation,
                group_generation: data.group_generation,
                state: data.state,
                cancel_reason: data.cancel_reason,
                next_wake_at: data.next_wake_at,
            },
        )
    }

    /// Records how an event was handed to the hook's queue.
    pub fn hook_delivered(&mut self, delivery: HookDelivery)
        ensures
            *final(self) == match delivery {
                HookDelivery::Sent => Observability {
                    outstanding_hooks: old(self).outstanding_hooks.wrapping_add(1),
                    ..*old(self)
                },
                HookDelivery::Full => Observability {
                    dropped_deliveries: old(self).dropped_deliveries.wrapping_add(1),
                    ..*old(self)
                },
                HookDelivery::Closed => Observability {
                    dropped_deliveries: old(self).dropped_deliveries.wrapping_add(1),
                    observation_failures: old(self).observation_failures.wrapping_add(1),
                    ..*old(self)
                },
            },
    {
        match delivery {
            HookDelivery::Sent => {
                self.outstanding_hooks = self.outstanding_hooks.wrapping_add(1);
            },
            HookDelivery::Full => {
                self.dropped_deliveries = self.dropped_deliveries.wrapping_add(1);
            },
            HookDelivery::Closed => {
                self.dropped_deliveries = self.dropped_deliveries.wrapping_add(1);
                self.observation_failures = self.observation_failures.wrapping_add(1);
            },
        }
    }

    /// Records that a hook call is over.
    pub fn hook_returned(&mut self, panicked: bool)
        ensures
            *final(self) == (Observability {
                outstanding_hooks: old(self).outstanding_hooks.wrapping_sub(1),
                observation_failures: if panicked {
                    old(self).observation_failures.wrapping_add(1)
                } else {
                    old(self).observation_failures
                },
                ..*old(self)
            }),
    {
        if panicked {
            self.observation_failures = self.observation_failures.wrapping_add(1);
        }
        self.outstanding_hooks = self.outstanding_hooks.wrapping_sub(1);
    }

    /// Whether every hook call is over.
    pub fn is_drained(&self) -> (drained: bool)
        ensures
            drained == (self.outstanding_hooks == 0),
    {
        self.outstanding_hooks == 0
    }

    /// What a subscriber is told. Overwritten events are counted, and the subscriber
    /// reads on.
    pub fn receive(&mut self, received: Received) -> (result: Option<
        Result<Option<TaskEvent>, EventRecvError>,
    >)
        ensures
            match received {
                Received::Event(event) => {
                    &&& result == Some(Ok::<Option<TaskEvent>, EventRecvError>(Some(event)))
                    &&& *final(self) == *old(self)
                },
                Received::Empty => {
                    &&& result == Some(Ok::<Option<TaskEvent>, EventRecvError>(None))
                    &&& *final(self) == *old(self)
                },
                Received::Closed => {
                    &&& result == Some(Err::<Option<TaskEvent>, EventRecvError>(EventRecvError))
                    &&& *final(self) == *old(self)
                },
                Received::Lagged(count) => {
                    &&& result is None
                    &&& *final(self) == (Observability {
                        dropped_deliveries: old(self).dropped_deliveries.wrapping_add(count),
                        ..*old(self)
                    })
                },
            },
    {
        match received {
            Received::Event(event) => Some(Ok(Some(event))),
            Received::Empty => Some(Ok(None)),
            Received::Closed => Some(Err(EventRecvError)),
            Received::Lagged(count) => {
                self.dropped_deliveries = self.dropped_deliveries.wrapping_add(count);
                None
            },
        }
    }

    /// Deliveries dropped so far.
    pub fn dropped_deliveries(&self) -> (count: u64)
        ensures
            count == self.dropped_deliveries,
    {
        self.dropped_deliveries
    }

    /// Failures so far.
    pub fn observation_failures(&self) -> (count: u64)
        ensures
            count == self.observation_failures,
    {
        self.observation_failures
    }
}

/// The sequence never wraps: it grows by one with each observation until it is exhausted,
/// and then stays.
pub proof fn lemma_sequence_never_wraps(observability: Observability)
    ensures
        observability.stamped().sequence >= observability.sequence,
        observability.sequence < u64::MAX ==> observability.stamped().sequence
            == observability.sequence + 1,
        observability.sequence == u64::MAX ==> {
            &&& observability.stamped().sequence == u64::MAX
            &&& observability.stamped().observation_failures
                == observability.observation_failures.wrapping_add(1)
        },
{
}

/// Every stamp has a number of its own, one above the last, as long as there are any, and
/// tells how long after the start it was made. Then nothing is numbered any more: that is
/// counted as a failure, and an event that cannot be numbered as dropped.
pub proof fn lemma_stamps_count_up(observability: Observability, now: Instant, stamp: Stamp)
    requires
        observability.stamps(now, stamp),
    ensures
        observability.sequence < u64::MAX ==> {
            &&& stamp.publishable
            &&& stamp.sequence == observability.sequence + 1
            &&& observability.stamped().sequence == observability.sequence + 1
            &&& observability.stamped().observation_failures == observability.observation_failures
            &&& observability.published() == observability.stamped()
        },
        observability.sequence == u64::MAX ==> {
            &&& !stamp.publishable
            &&& stamp.sequence == u64::MAX
            &&& observability.published().sequence == u64::MAX
            &&& observability.observation_failures < u64::MAX
                ==> observability.published().observation_failures
                == observability.observation_failures + 1
            &&& observability.dropped_deliveries < u64::MAX
                ==> observability.published().dropped_deliveries
                == observability.dropped_deliveries + 1
        },
        observability.started_at@ <= now@ ==> observability.started_at@ + stamp.observed_at@
            == now@,
        now@ < observability.started_at@ ==> stamp.observed_at@ == 0,
{
}

} // verus!
