//! The state of a scheduler: lanes, groups, keys and registered runs, and what every
//! public operation does to them.

use crate::names::NameTable;
use crate::observe::{
    MetricsHook, Observability, SchedulerSnapshot, SchedulerSnapshotData, TaskEvent,
    TaskEventKind,
};
use crate::permits::{max_permits, permit_limit};
use crate::scheduler::group_table::{GroupInner, GroupTable};
use crate::scheduler::jobs::Job;
use crate::scheduler::keys::KeyRegistryState;
use crate::scheduler::run::{RunMetadata, RunShared, TaskSnapshot};
use crate::scheduler::runs::{
    cancel_runs, count_runs, find_run, has_run, runs_wf, Selection,
};
use crate::scheduler::types::{
    Backpressure, CancelReason, GroupError, GroupState, LaneConfig, LaneError,
    SchedulerBuildError, ShutdownPolicy, SubmissionFailure, TaskRunId, TaskState, TrySubmitError,
    MAX_EVENT_CAPACITY,
};
use crate::time::Instant;
use std::sync::Arc;
use vstd::prelude::*;
use vstd::string::StringExecFns;

verus! {

/// The life of a scheduler.
#[derive(Clone, Copy, Debug, Eq, PartialEq, Structural)]
pub enum Lifecycle {
    Open,
    Closing,
    Terminated,
}

/// One generation of a lane.
#[derive(Clone, Copy, Debug, Eq, PartialEq, Structural)]
pub struct LaneInner {
    pub config: LaneConfig,
    pub generation: u64,
    pub closed: bool,
}

/// Whether a group has registered runs.
pub open spec fn has_member(runs: Seq<RunShared>, generation: u64) -> bool {
    exists|i: int| 0 <= i < runs.len() && (#[trigger] runs[i]).group_generation == Some(generation)
}

/// Whether a generation of a lane has registered runs.
pub open spec fn has_lane_run(runs: Seq<RunShared>, name: Seq<char>, generation: u64) -> bool {
    exists|i: int|
        0 <= i < runs.len() && (#[trigger] runs[i]).lane@ == name && runs[i].lane_generation
            == generation
}

fn any_selected<'a>(runs: &Vec<RunShared>, select: &Selection<'a>) -> (found: bool)
    ensures
        found == exists|i: int| 0 <= i < runs.len() && select.selects(#[trigger] runs@[i]),
{
    let mut at: usize = 0;
    while at < runs.len()
        invariant
            at <= runs.len(),
            forall|k: int| 0 <= k < at ==> !select.selects(#[trigger] runs@[k]),
        decreases runs.len() - at,
    {
        if select.is_selected(&runs[at]) {
            assert(select.selects(runs@[at as int]));
            return true;
        }
        at = at + 1;
    }
    false
}

pub fn group_has_member(runs: &Vec<RunShared>, generation: u64) -> (found: bool)
    ensures
        found == has_member(runs@, generation),
{
    let select = Selection::Group { generation };
    let found = any_selected(runs, &select);
    proof {
        if found {
            let i = choose|i: int| 0 <= i < runs.len() && select.selects(#[trigger] runs@[i]);
            assert(runs@[i].group_generation == Some(generation));
        } else if has_member(runs@, generation) {
            let i = choose|i: int|
                0 <= i < runs.len() && (#[trigger] runs@[i]).group_generation == Some(generation);
            assert(select.selects(runs@[i]));
        }
    }
    found
}

/// A handle to one generation of a group.
#[derive(Debug)]
pub struct TaskGroup {
    pub name: String,
    pub generation: u64,
}

impl Clone for TaskGroup {
    fn clone(&self) -> (copy: Self)
        ensures
            copy == *self,
    {
        TaskGroup { name: self.name.clone(), generation: self.generation }
    }
}

/// Configures a scheduler.
pub struct SchedulerBuilder {
    pub global_concurrency: usize,
    pub default_lane: LaneConfig,
    pub event_capacity: usize,
    pub metrics_hook: Option<Arc<dyn MetricsHook>>,
    pub shutdown_policy: ShutdownPolicy,
}

impl SchedulerBuilder {
    /// One lane, at most 1024 attempts at once, 256 events, five seconds to stop.
    pub fn new() -> (builder: Self)
        ensures
            builder.global_concurrency == if permit_limit() < 1024 {
                permit_limit()
            } else {
                1024
            },
            builder.default_lane.queue_limit() == 1024,
            builder.default_lane.running_limit() == 1,
            builder.default_lane.policy() == Backpressure::Wait,
            builder.event_capacity == 256,
            builder.metrics_hook is None,
            builder.shutdown_policy.grace()@ == 5_000_000_000,
            builder.shutdown_policy.abort() is None,
            builder.shutdown_policy.drain()@ == 1_000_000_000,
    {
        let maximum: usize = max_permits();
        SchedulerBuilder {
            global_concurrency: if maximum < 1024 {
                maximum
            } else {
                1024
            },
            default_lane: LaneConfig::default(),
            event_capacity: 256,
            metrics_hook: None,
            shutdown_policy: ShutdownPolicy::default(),
        }
    }

    /// Sets how many attempts may run at once.
    pub fn global_concurrency(self, concurrency: usize) -> (builder: Self)
        ensures
            builder == (SchedulerBuilder { global_concurrency: concurrency, ..self }),
    {
        SchedulerBuilder { global_concurrency: concurrency, ..self }
    }

    /// Sets the configuration of the default lane.
    pub fn default_lane(self, config: LaneConfig) -> (builder: Self)
        ensures
            builder == (SchedulerBuilder { default_lane: config, ..self }),
    {
        SchedulerBuilder { default_lane: config, ..self }
    }

    /// Sets how many events a subscriber and the hook may fall behind.
    pub fn event_capacity(self, capacity: usize) -> (builder: Self)
        ensures
            builder == (SchedulerBuilder { event_capacity: capacity, ..self }),
    {
        SchedulerBuilder { event_capacity: capacity, ..self }
    }

    /// Sets a consumer of events.
    pub fn metrics_hook(self, hook: Arc<dyn MetricsHook>) -> (builder: Self)
        ensures
            builder.metrics_hook is Some,
            builder.metrics_hook->0 == hook,
            builder == (SchedulerBuilder { metrics_hook: builder.metrics_hook, ..self }),
    {
        let metrics_hook = Some(hook);
        SchedulerBuilder { metrics_hook, ..self }
    }

    /// Sets how a shutdown proceeds.
    pub fn shutdown_policy(self, policy: ShutdownPolicy) -> (builder: Self)
        ensures
            builder == (SchedulerBuilder { shutdown_policy: policy, ..self }),
    {
        SchedulerBuilder { shutdown_policy: policy, ..self }
    }

    /// What the configuration is rejected for, if it is.
    pub open spec fn build_error(&self, runtime_available: bool) -> Option<SchedulerBuildError> {
        if self.global_concurrency == 0 || self.global_concurrency > permit_limit() {
            Some(
                SchedulerBuildError::InvalidGlobalConcurrency {
                    concurrency: self.global_concurrency,
                    maximum: permit_limit(),
                },
            )
        } else if self.event_capacity == 0 || self.event_capacity > MAX_EVENT_CAPACITY {
            Some(
                SchedulerBuildError::InvalidEventCapacity {
                    capacity: self.event_capacity,
                    maximum: MAX_EVENT_CAPACITY,
                },
            )
        } else if !runtime_available {
            Some(SchedulerBuildError::RuntimeUnavailable)
        } else {
            None
        }
    }

    /// A scheduler with this configuration.
    pub fn build(self, runtime_available: bool, now: Instant) -> (result: Result<
        Scheduler,
        SchedulerBuildError,
    >)
        ensures
            match self.build_error(runtime_available) {
                Some(error) => result == Err::<Scheduler, SchedulerBuildError>(error),
                None => {
                    &&& result matches Ok(scheduler)
                    &&& scheduler.wf()
                    &&& scheduler@.lanes == map![
                        "default"@ => LaneInner {
                            config: self.default_lane,
                            generation: 1,
                            closed: false,
                        }
                    ]
                    &&& scheduler@.next_lane_generation == 1
                    &&& scheduler@.group_names == Map::<Seq<char>, u64>::empty()
                    &&& scheduler@.groups == Map::<u64, GroupInner>::empty()
                    &&& scheduler@.next_group_generation == 0
                    &&& scheduler@.runs == Seq::<RunShared>::empty()
                    &&& scheduler@.keys@ == (crate::scheduler::keys::KeysView {
                        current: Map::empty(),
                        generations: Map::empty(),
                    })
                    &&& scheduler@.lifecycle == Lifecycle::Open
                    &&& scheduler@.observability == (Observability {
                        started_at: now,
                        sequence: 0,
                        outstanding_hooks: 0,
                        dropped_deliveries: 0,
                        observation_failures: 0,
                    })
                    &&& scheduler@.shutdown_policy == self.shutdown_policy
                    &&& !scheduler@.shutdown_started
                },
            },
    {
        let maximum: usize = max_permits();
        if self.global_concurrency == 0 || self.global_concurrency > maximum {
            return Err(
                SchedulerBuildError::InvalidGlobalConcurrency {
                    concurrency: self.global_concurrency,
                    maximum,
                },
            );
        }
        if self.event_capacity == 0 || self.event_capacity > MAX_EVENT_CAPACITY {
            return Err(
                SchedulerBuildError::InvalidEventCapacity {
                    capacity: self.event_capacity,
                    maximum: MAX_EVENT_CAPACITY,
                },
            );
        }
        if !runtime_available {
            return Err(SchedulerBuildError::RuntimeUnavailable);
        }
        let mut lanes = NameTable::new();
        let lane = LaneInner { config: self.default_lane, generation: 1, closed: false };
        lanes.insert(String::from_str("default"), lane);
        let scheduler = Scheduler {
            lanes,
            next_lane_generation: 1,
            group_names: NameTable::new(),
            groups: GroupTable::new(),
            next_group_generation: 0,
            runs: Vec::new(),
            keys: KeyRegistryState::new(),
            lifecycle: Lifecycle::Open,
            observability: Observability::new(now),
            shutdown_policy: self.shutdown_policy,
            shutdown_started: false,
        };
        assert(scheduler@.lanes =~= map!["default"@ => lane]);
        Ok(scheduler)
    }
}

impl Default for SchedulerBuilder {
    fn default() -> (builder: Self)
        ensures
            builder.global_concurrency == if permit_limit() < 1024 {
                permit_limit()
            } else {
                1024
            },
            builder.default_lane.queue_limit() == 1024,
            builder.default_lane.running_limit() == 1,
            builder.default_lane.policy() == Backpressure::Wait,
            builder.event_capacity == 256,
            builder.metrics_hook is None,
            builder.shutdown_policy.grace()@ == 5_000_000_000,
            builder.shutdown_policy.abort() is None,
            builder.shutdown_policy.drain()@ == 1_000_000_000,
    {
        SchedulerBuilder::new()
    }
}

/// A scheduler.
pub struct Scheduler {
    pub lanes: NameTable<LaneInner>,
    /// The last lane generation that was given out.
    pub next_lane_generation: u64,
    /// The latest generation of each group name.
    pub group_names: NameTable<u64>,
    pub groups: GroupTable,
    /// The last group generation that was given out.
    pub next_group_generation: u64,
    pub runs: Vec<RunShared>,
    pub keys: KeyRegistryState,
    pub lifecycle: Lifecycle,
    pub observability: Observability,
    pub shutdown_policy: ShutdownPolicy,
    pub shutdown_started: bool,
}

/// The model of a scheduler.
#[verifier::ext_equal]
pub struct SchedulerView {
    pub lanes: Map<Seq<char>, LaneInner>,
    pub next_lane_generation: u64,
    pub group_names: Map<Seq<char>, u64>,
    pub groups: Map<u64, GroupInner>,
    pub next_group_generation: u64,
    pub runs: Seq<RunShared>,
    pub keys: KeyRegistryState,
    pub lifecycle: Lifecycle,
    pub observability: Observability,
    pub shutdown_policy: ShutdownPolicy,
    pub shutdown_started: bool,
}

impl View for Scheduler {
    type V = SchedulerView;

    open spec fn view(&self) -> SchedulerView {
        SchedulerView {
            lanes: self.lanes@,
            next_lane_generation: self.next_lane_generation,
            group_names: self.group_names@,
            groups: self.groups@,
            next_group_generation: self.next_group_generation,
            runs: self.runs@,
            keys: self.keys,
            lifecycle: self.lifecycle,
            observability: self.observability,
            shutdown_policy: self.shutdown_policy,
            shutdown_started: self.shutdown_started,
        }
    }
}

impl SchedulerView {
    /// Every generation in use was given out, a name stands for a generation of its own,
    /// and a run of a group is a run of one that is known.
    pub open spec fn sound(self) -> bool {
        &&& forall|name: Seq<char>| #[trigger]
            self.lanes.contains_key(name) ==> 1 <= self.lanes[name].generation
                <= self.next_lane_generation
        &&& forall|generation: u64| #[trigger]
            self.groups.contains_key(generation) ==> {
                &&& generation <= self.next_group_generation
                &&& self.groups[generation].generation == generation
                &&& self.groups[generation].keys.wf()
            }
        &&& forall|name: Seq<char>| #[trigger]
            self.group_names.contains_key(name) ==> {
                &&& self.groups.contains_key(self.group_names[name])
                &&& self.groups[self.group_names[name]].name@ == name
            }
        &&& members_known(self.groups, self.runs)
        &&& runs_wf(self.runs)
        &&& self.keys.wf()
    }

    /// Why a submission is refused by the life of the scheduler, if it is.
    pub open spec fn refusal(self) -> Option<SubmissionFailure> {
        match self.lifecycle {
            Lifecycle::Open => None,
            Lifecycle::Closing => Some(SubmissionFailure::ShuttingDown),
            Lifecycle::Terminated => Some(SubmissionFailure::Closed),
        }
    }

    /// Why a submission to a lane is refused, if it is.
    pub open spec fn lane_refusal(self, name: Seq<char>) -> Option<SubmissionFailure> {
        if self.refusal() is Some {
            self.refusal()
        } else if !self.lanes.contains_key(name) {
            Some(SubmissionFailure::LaneNotFound)
        } else if self.lanes[name].closed {
            Some(SubmissionFailure::Closed)
        } else {
            None
        }
    }

    /// Whether a generation of a lane takes runs.
    pub open spec fn lane_open(self, name: Seq<char>, generation: u64) -> bool {
        &&& self.lanes.contains_key(name)
        &&& self.lanes[name].generation == generation
        &&& !self.lanes[name].closed
    }

    /// The state of a generation of a group; one that is not known takes nothing.
    pub open spec fn group_state(self, generation: u64) -> GroupState {
        if self.groups.contains_key(generation) {
            self.groups[generation].state
        } else {
            GroupState::Terminated
        }
    }

    /// Whether the group is paused, if there is one.
    pub open spec fn group_paused(self, group: Option<u64>) -> bool {
        group matches Some(generation) && self.groups.contains_key(generation)
            && self.groups[generation].paused
    }
}

/// Whether every run of a group is a run of one that is known.
pub open spec fn members_known(groups: Map<u64, GroupInner>, runs: Seq<RunShared>) -> bool {
    forall|i: int|
        0 <= i < runs.len() ==> ((#[trigger] runs[i]).group_generation matches Some(generation)
            ==> groups.contains_key(generation))
}

/// The registered form of an accepted run.
pub open spec fn accepted_run<O, F, R>(
    run: RunShared,
    job: Job<O, F, R>,
    run_id: TaskRunId,
    lane_generation: u64,
    group_generation: Option<u64>,
    paused: bool,
    before: Observability,
    now: Instant,
) -> bool {
    &&& run.wf()
    &&& run.run_id == run_id
    &&& run.job_id == job.id
    &&& run.lane == job.lane
    &&& run.lane_generation == lane_generation
    &&& run.group_generation == group_generation
    &&& run.manual == (crate::scheduler::run::ManualControl {
        task_paused: false,
        scope_paused: paused,
        trigger_policy: job.kind.triggers(),
        pending: 0,
    })
    &&& run.key_registration is None
    &&& run.cancellation.accepts()
    &&& run.snapshot == (TaskSnapshot {
        snapshot_version: before.stamped().sequence,
        observed_at: run.snapshot.observed_at,
        run_id,
        job_id: job.id,
        key_generation: job.key_generation,
        lane: job.lane,
        lane_generation,
        group_generation,
        state: TaskState::Queued,
        cancel_reason: None,
        next_wake_at: None,
    })
    &&& run.snapshot.observed_at@ == before.offset(now)
    &&& !run.terminal
    &&& !run.abort_requested
    &&& !run.abortable
}

/// Why a submission was not registered.
pub enum CommitError<O, F, R> {
    /// It is refused.
    Refused(TrySubmitError<Job<O, F, R>>),
    /// The identity is in use; another one is needed.
    IdentityTaken(Job<O, F, R>),
}

/// A submission that asks for a place in the queue of its lane.
pub struct Submission<O, F, R> {
    pub job: Job<O, F, R>,
    /// The lane as it was when the submission began.
    pub lane: LaneInner,
    /// The generation of the group of the run, if it is to have one.
    pub group: Option<u64>,
}

/// What a submission does once it asked for a place in the queue.
#[derive(Clone, Copy, Debug, Eq, PartialEq, Structural)]
pub enum SlotStep {
    /// It has a place: register the run.
    Commit,
    /// It waits for a place.
    Wait,
    /// It is refused.
    Refuse(SubmissionFailure),
}

/// How far a submission came.
pub enum Submitted<O, F, R> {
    /// The run is registered.
    Accepted(Job<O, F, R>, Option<TaskEvent>),
    /// It waits for a place in the queue of its lane.
    Waits(Submission<O, F, R>),
    /// The identity is in use; another one is needed.
    IdentityTaken(Submission<O, F, R>),
}

/// How a place in the queue of a lane was asked for.
#[derive(Clone, Copy, Debug, Eq, PartialEq, Structural)]
pub enum SlotOutcome {
    Acquired,
    NoPermits,
    Closed,
}

impl Scheduler {
    /// The tables are sound.
    pub open spec fn wf(&self) -> bool {
        &&& self.lanes.wf()
        &&& self.group_names.wf()
        &&& self.groups.wf()
        &&& self@.sound()
    }

    /// Starts the configuration of a scheduler.
    pub fn builder() -> (builder: SchedulerBuilder)
        ensures
            builder.global_concurrency == if permit_limit() < 1024 {
                permit_limit()
            } else {
                1024
            },
            builder.default_lane.queue_limit() == 1024,
            builder.default_lane.running_limit() == 1,
            builder.default_lane.policy() == Backpressure::Wait,
            builder.event_capacity == 256,
            builder.metrics_hook is None,
            builder.shutdown_policy.grace()@ == 5_000_000_000,
            builder.shutdown_policy.abort() is None,
            builder.shutdown_policy.drain()@ == 1_000_000_000,
    {
        SchedulerBuilder::new()
    }

    /// Why submissions are refused, if they are.
    pub fn submission_failure(&self) -> (failure: Option<SubmissionFailure>)
        ensures
            failure == self@.refusal(),
    {
        match self.lifecycle {
            Lifecycle::Open => None,
            Lifecycle::Closing => Some(SubmissionFailure::ShuttingDown),
            Lifecycle::Terminated => Some(SubmissionFailure::Closed),
        }
    }

    /// A view of the scheduler's resources.
    pub fn snapshot(&mut self, now: Instant) -> (snapshot: SchedulerSnapshot)
        requires
            old(self).wf(),
        ensures
            final(self).wf(),
            old(self)@.kept_by(final(self)@),
            final(self)@ == (SchedulerView {
                observability: old(self)@.observability.stamped(),
                ..old(self)@
            }),
            snapshot.snapshot_version == final(self)@.observability.sequence,
            snapshot.active_tasks == crate::scheduler::runs::count_of(
                old(self)@.runs,
                crate::scheduler::runs::is_active(),
                old(self)@.runs.len() as int,
            ),
            snapshot.queued_tasks == crate::scheduler::runs::count_of(
                old(self)@.runs,
                crate::scheduler::runs::is_queued(),
                old(self)@.runs.len() as int,
            ),
            snapshot.running_tasks == crate::scheduler::runs::count_of(
                old(self)@.runs,
                crate::scheduler::runs::is_running(),
                old(self)@.runs.len() as int,
            ),
            snapshot.waiting_tasks == crate::scheduler::runs::count_of(
                old(self)@.runs,
                crate::scheduler::runs::is_waiting(),
                old(self)@.runs.len() as int,
            ),
            snapshot.cancel_requested_tasks == crate::scheduler::runs::count_of(
                old(self)@.runs,
                crate::scheduler::runs::is_cancel_requested(),
                old(self)@.runs.len() as int,
            ),
            snapshot.shutting_down == (old(self)@.lifecycle != Lifecycle::Open),
            snapshot.lanes == old(self)@.lanes.dom().len(),
            snapshot.groups == old(self)@.group_names.dom().len(),
            snapshot.dropped_event_deliveries == final(self)@.observability.dropped_deliveries,
            snapshot.observation_failures == final(self)@.observability.observation_failures,
    {
        let counts = count_runs(&self.runs);
        let (snapshot_version, _) = self.observability.observe(now);
        SchedulerSnapshot::new(
            SchedulerSnapshotData {
                snapshot_version,
                active_tasks: counts.active,
                queued_tasks: counts.queued,
                running_tasks: counts.running,
                waiting_tasks: counts.waiting,
                cancel_requested_tasks: counts.cancel_requested,
                shutting_down: self.lifecycle != Lifecycle::Open,
                lanes: self.lanes.len(),
                groups: self.group_names.len(),
                dropped_event_deliveries: self.observability.dropped_deliveries(),
                observation_failures: self.observability.observation_failures(),
            },
        )
    }

    /// Creates the next generation of a group, unless a generation of that name is not
    /// over.
    pub fn create_group(&mut self, name: String) -> (result: Result<TaskGroup, GroupError>)
        requires
            old(self).wf(),
        ensures
            final(self).wf(),
            old(self)@.kept_by(final(self)@),
            result is Err ==> final(self)@ == old(self)@,
            if old(self)@.lifecycle != Lifecycle::Open {
                result == Err::<TaskGroup, GroupError>(GroupError::SchedulerClosed)
            } else if old(self)@.group_names.contains_key(name@) && old(self)@.group_state(
                old(self)@.group_names[name@],
            ) != GroupState::Terminated {
                result == Err::<TaskGroup, GroupError>(
                    GroupError::NameInUse {
                        name,
                        generation: old(self)@.group_names[name@],
                        state: old(self)@.group_state(old(self)@.group_names[name@]),
                    },
                )
            } else if old(self)@.next_group_generation == u64::MAX {
                result == Err::<TaskGroup, GroupError>(GroupError::GenerationExhausted)
            } else {
                &&& result matches Ok(group)
                &&& group.name == name
                &&& group.generation == old(self)@.next_group_generation + 1
                &&& final(self)@ == (SchedulerView {
                    group_names: old(self)@.group_names.insert(name@, group.generation),
                    groups: final(self)@.groups,
                    next_group_generation: group.generation,
                    ..old(self)@
                })
                &&& final(self)@.groups == old(self)@.groups.insert(
                    group.generation,
                    final(self)@.groups[group.generation],
                )
                &&& final(self)@.groups[group.generation] == (GroupInner {
                    name,
                    generation: group.generation,
                    state: GroupState::Open,
                    paused: false,
                    keys: final(self)@.groups[group.generation].keys,
                    shutdown_started: false,
                })
                &&& final(self)@.groups[group.generation].keys@ == (
                crate::scheduler::keys::KeysView {
                    current: Map::empty(),
                    generations: Map::empty(),
                })
                &&& !has_member(final(self)@.runs, group.generation)
            },
    {
        if self.lifecycle != Lifecycle::Open {
            return Err(GroupError::SchedulerClosed);
        }
        if let Some(generation) = self.group_names.get(&name) {
            let generation: u64 = *generation;
            let state: GroupState = self.state_of(generation);
            if state != GroupState::Terminated {
                return Err(GroupError::NameInUse { name, generation, state });
            }
        }
        if self.next_group_generation == u64::MAX {
            return Err(GroupError::GenerationExhausted);
        }
        let ghost before = self@;
        let generation: u64 = self.next_group_generation + 1;
        self.next_group_generation = generation;
        assert(!before.groups.contains_key(generation));
        self.group_names.insert(name.clone(), generation);
        self.groups.push(
            GroupInner {
                name: name.clone(),
                generation,
                state: GroupState::Open,
                paused: false,
                keys: KeyRegistryState::new(),
                shutdown_started: false,
            },
        );
        proof {
            assert forall|other: Seq<char>| #[trigger]
                self@.group_names.contains_key(other) implies {
                &&& self@.groups.contains_key(self@.group_names[other])
                &&& self@.groups[self@.group_names[other]].name@ == other
            } by {
                if other != name@ {
                    assert(before.group_names.contains_key(other));
                }
            }
            if has_member(before.runs, generation) {
                let i = choose|i: int|
                    0 <= i < before.runs.len() && (
                    #[trigger] before.runs[i]).group_generation == Some(generation);
                assert(before.groups.contains_key(generation));
            }
        }
        Ok(TaskGroup { name, generation })
    }

    /// The state of a generation of a group.
    pub fn state_of(&self, generation: u64) -> (state: GroupState)
        requires
            self.wf(),
        ensures
            state == self@.group_state(generation),
    {
        match self.groups.position(generation) {
            Some(at) => self.groups.entries[at].state,
            None => GroupState::Terminated,
        }
    }

    /// Whether a group is paused, if there is one.
    pub fn is_group_paused(&self, group: Option<u64>) -> (paused: bool)
        requires
            self.wf(),
        ensures
            paused == self@.group_paused(group),
    {
        match group {
            Some(generation) => match self.groups.position(generation) {
                Some(at) => self.groups.entries[at].paused,
                None => false,
            },
            None => false,
        }
    }

    /// Creates a lane, or verifies that the live lane of that name has this
    /// configuration.
    pub fn ensure_lane(&mut self, name: String, config: LaneConfig) -> (result: Result<
        (),
        LaneError,
    >)
        requires
            old(self).wf(),
        ensures
            final(self).wf(),
            old(self)@.kept_by(final(self)@),
            if old(self)@.lifecycle != Lifecycle::Open {
                &&& result == Err::<(), LaneError>(LaneError::SchedulerClosed)
                &&& final(self)@ == old(self)@
            } else if old(self)@.lanes.contains_key(name@) {
                let existing = old(self)@.lanes[name@];
                &&& final(self)@ == old(self)@
                &&& result == if existing.closed {
                    Err::<(), LaneError>(
                        LaneError::Closed { name, generation: existing.generation },
                    )
                } else if existing.config == config {
                    Ok(())
                } else {
                    Err(
                        LaneError::ConfigConflict {
                            name,
                            existing: existing.config,
                            requested: config,
                        },
                    )
                }
            } else if old(self)@.next_lane_generation == u64::MAX {
                &&& result == Err::<(), LaneError>(LaneError::GenerationExhausted)
                &&& final(self)@ == old(self)@
            } else {
                let generation = (old(self)@.next_lane_generation + 1) as u64;
                &&& result == Ok::<(), LaneError>(())
                &&& final(self)@ == (SchedulerView {
                    lanes: old(self)@.lanes.insert(
                        name@,
                        LaneInner { config, generation, closed: false },
                    ),
                    next_lane_generation: generation,
                    ..old(self)@
                })
            },
    {
        if self.lifecycle != Lifecycle::Open {
            return Err(LaneError::SchedulerClosed);
        }
        if let Some(existing) = self.lanes.get(&name) {
            let existing: LaneInner = *existing;
            if existing.closed {
                return Err(LaneError::Closed { name, generation: existing.generation });
            }
            if existing.config == config {
                return Ok(());
            }
            return Err(
                LaneError::ConfigConflict { name, existing: existing.config, requested: config },
            );
        }
        if self.next_lane_generation == u64::MAX {
            return Err(LaneError::GenerationExhausted);
        }
        let generation: u64 = self.next_lane_generation + 1;
        self.next_lane_generation = generation;
        self.lanes.insert(name, LaneInner { config, generation, closed: false });
        Ok(())
    }

    /// The generation of a lane, if there is one of that name.
    pub fn lane_generation(&self, name: &String) -> (generation: Option<u64>)
        requires
            self.wf(),
        ensures
            generation == if self@.lanes.contains_key(name@) {
                Some(self@.lanes[name@].generation)
            } else {
                None
            },
    {
        match self.lanes.get(name) {
            Some(lane) => Some(lane.generation),
            None => None,
        }
    }

    /// Closes a lane and asks its runs to stop; counts those that were asked for the
    /// first time.
    pub fn close_lane(&mut self, name: &String, now: Instant) -> (result: Result<
        (usize, Vec<TaskEvent>),
        LaneError,
    >)
        requires
            old(self).wf(),
        ensures
            final(self).wf(),
            old(self)@.kept_by(final(self)@),
            if old(self)@.lifecycle != Lifecycle::Open {
                &&& result == Err::<(usize, Vec<TaskEvent>), LaneError>(LaneError::SchedulerClosed)
                &&& final(self)@ == old(self)@
            } else if !old(self)@.lanes.contains_key(name@) {
                &&& result matches Err(LaneError::NotFound { name: missing })
                &&& missing@ == name@
                &&& final(self)@ == old(self)@
            } else {
                let lane = old(self)@.lanes[name@];
                let select = Selection::Lane { name, generation: lane.generation };
                &&& result matches Ok((count, events))
                &&& final(self)@ == (SchedulerView {
                    lanes: old(self)@.lanes.insert(name@, LaneInner { closed: true, ..lane }),
                    runs: final(self)@.runs,
                    observability: final(self)@.observability,
                    ..old(self)@
                })
                &&& stopped_selection(
                    old(self)@,
                    final(self)@,
                    select,
                    CancelReason::LaneClosed,
                    now,
                    count as nat,
                    events@,
                )
            },
    {
        if self.lifecycle != Lifecycle::Open {
            return Err(LaneError::SchedulerClosed);
        }
        let at: usize = match self.lanes.position(name) {
            Some(at) => at,
            None => {
                return Err(LaneError::NotFound { name: name.clone() });
            },
        };
        let ghost before = self@;
        let lane: LaneInner = self.lanes.entries[at].1;
        self.lanes.set_at(at, LaneInner { closed: true, ..lane });
        let select = Selection::Lane { name, generation: lane.generation };
        let stopped = cancel_runs(
            &mut self.runs,
            &select,
            CancelReason::LaneClosed,
            &mut self.observability,
            now,
        );
        proof {
            lemma_stopped_sound(
                before,
                self@,
                select,
                CancelReason::LaneClosed,
                now,
                stopped.0 as nat,
                stopped.1@,
            );
        }
        Ok(stopped)
    }

    /// Deletes a closed lane that nothing refers to; gives out its generation.
    /// `referenced` says whether a submission is still under way in it.
    pub fn delete_lane(&mut self, name: &String, referenced: bool) -> (result: Result<
        u64,
        LaneError,
    >)
        requires
            old(self).wf(),
        ensures
            final(self).wf(),
            old(self)@.kept_by(final(self)@),
            result is Err ==> final(self)@ == old(self)@,
            if old(self)@.lifecycle != Lifecycle::Open {
                result == Err::<u64, LaneError>(LaneError::SchedulerClosed)
            } else if !old(self)@.lanes.contains_key(name@) {
                &&& result matches Err(LaneError::NotFound { name: missing })
                &&& missing@ == name@
            } else {
                let lane = old(self)@.lanes[name@];
                if !lane.closed {
                    &&& result matches Err(LaneError::StillOpen { name: open, generation })
                    &&& open@ == name@
                    &&& generation == lane.generation
                } else if referenced || has_lane_run(old(self)@.runs, name@, lane.generation) {
                    &&& result matches Err(LaneError::Busy { name: busy, generation })
                    &&& busy@ == name@
                    &&& generation == lane.generation
                } else {
                    &&& result == Ok::<u64, LaneError>(lane.generation)
                    &&& final(self)@ == (SchedulerView {
                        lanes: old(self)@.lanes.remove(name@),
                        ..old(self)@
                    })
                }
            },
    {
        if self.lifecycle != Lifecycle::Open {
            return Err(LaneError::SchedulerClosed);
        }
        let lane: LaneInner = match self.lanes.get(name) {
            Some(lane) => *lane,
            None => {
                return Err(LaneError::NotFound { name: name.clone() });
            },
        };
        if !lane.closed {
            return Err(LaneError::StillOpen { name: name.clone(), generation: lane.generation });
        }
        let select = Selection::Lane { name, generation: lane.generation };
        let active: bool = any_selected(&self.runs, &select);
        proof {
            if active {
                let i = choose|i: int|
                    0 <= i < self.runs.len() && select.selects(#[trigger] self.runs@[i]);
                assert(self.runs@[i].lane@ == name@);
            } else if has_lane_run(self.runs@, name@, lane.generation) {
                let i = choose|i: int|
                    0 <= i < self.runs.len() && (#[trigger] self.runs@[i]).lane@ == name@
                        && self.runs@[i].lane_generation == lane.generation;
                assert(select.selects(self.runs@[i]));
            }
        }
        if active || referenced {
            return Err(LaneError::Busy { name: name.clone(), generation: lane.generation });
        }
        self.lanes.remove(name);
        Ok(lane.generation)
    }

    /// How many registered runs are not over.
    pub fn active_task_count(&self) -> (count: usize)
        ensures
            count == crate::scheduler::runs::count_of(
                self@.runs,
                crate::scheduler::runs::is_active(),
                self@.runs.len() as int,
            ),
    {
        count_runs(&self.runs).active
    }

    /// The lane that a submission goes to, or why it is refused.
    pub fn lane(&self, name: &String) -> (result: Result<LaneInner, SubmissionFailure>)
        requires
            self.wf(),
        ensures
            match self@.lane_refusal(name@) {
                Some(failure) => result == Err::<LaneInner, SubmissionFailure>(failure),
                None => result == Ok::<LaneInner, SubmissionFailure>(self@.lanes[name@]),
            },
    {
        if let Some(failure) = self.submission_failure() {
            return Err(failure);
        }
        match self.lanes.get(name) {
            Some(lane) => {
                if lane.closed {
                    Err(SubmissionFailure::Closed)
                } else {
                    Ok(*lane)
                }
            },
            None => Err(SubmissionFailure::LaneNotFound),
        }
    }

    /// Why a submission without a place in the queue is refused, if it has none.
    pub fn slot_failure(&self, slot: SlotOutcome) -> (failure: Option<SubmissionFailure>)
        ensures
            failure == match slot {
                SlotOutcome::Acquired => None,
                SlotOutcome::NoPermits => Some(SubmissionFailure::Full),
                SlotOutcome::Closed => if self@.lifecycle == Lifecycle::Closing {
                    Some(SubmissionFailure::ShuttingDown)
                } else {
                    Some(SubmissionFailure::Closed)
                },
            },
    {
        match slot {
            SlotOutcome::Acquired => None,
            SlotOutcome::NoPermits => Some(SubmissionFailure::Full),
            SlotOutcome::Closed => {
                if self.lifecycle == Lifecycle::Closing {
                    Some(SubmissionFailure::ShuttingDown)
                } else {
                    Some(SubmissionFailure::Closed)
                }
            },
        }
    }

    /// What a submission does once it asked for a place: a full lane makes it wait or
    /// refuses it, as its backpressure says.
    pub open spec fn after_slot(
        view: SchedulerView,
        config: LaneConfig,
        slot: SlotOutcome,
    ) -> SlotStep {
        match slot {
            SlotOutcome::Acquired => SlotStep::Commit,
            SlotOutcome::NoPermits => if config.policy() == Backpressure::Wait {
                SlotStep::Wait
            } else {
                SlotStep::Refuse(SubmissionFailure::Full)
            },
            SlotOutcome::Closed => SlotStep::Refuse(
                if view.lifecycle == Lifecycle::Closing {
                    SubmissionFailure::ShuttingDown
                } else {
                    SubmissionFailure::Closed
                },
            ),
        }
    }

    /// What a submission does once it asked for a place in the queue of a lane.
    pub fn slot_step(&self, config: LaneConfig, slot: SlotOutcome) -> (step: SlotStep)
        ensures
            step == Scheduler::after_slot(self@, config, slot),
    {
        match slot {
            SlotOutcome::Acquired => SlotStep::Commit,
            SlotOutcome::NoPermits => match config.backpressure_policy() {
                Backpressure::Wait => SlotStep::Wait,
                Backpressure::Reject => SlotStep::Refuse(SubmissionFailure::Full),
            },
            SlotOutcome::Closed => {
                if self.lifecycle == Lifecycle::Closing {
                    SlotStep::Refuse(SubmissionFailure::ShuttingDown)
                } else {
                    SlotStep::Refuse(SubmissionFailure::Closed)
                }
            },
        }
    }

    /// Begins a submission that may wait for a place in the queue of its lane.
    pub fn begin_submit<O, F, R>(&self, job: Job<O, F, R>, group: Option<u64>) -> (result: Result<
        Submission<O, F, R>,
        TrySubmitError<Job<O, F, R>>,
    >)
        requires
            self.wf(),
        ensures
            match self@.lane_refusal(job.lane@) {
                Some(failure) => {
                    &&& result matches Err(error)
                    &&& error.failure() == failure
                    &&& error.job() == job
                },
                None => result == Ok::<Submission<O, F, R>, TrySubmitError<Job<O, F, R>>>(
                    Submission { job, lane: self@.lanes[job.lane@], group },
                ),
            },
    {
        match self.lane(&job.lane) {
            Ok(lane) => Ok(Submission { job, lane, group }),
            Err(failure) => Err(TrySubmitError::of(failure, job)),
        }
    }

    /// Why a submission that asked for a place in the queue of its lane is refused, if it
    /// is.
    pub open spec fn submission_refusal<O, F, R>(
        view: SchedulerView,
        submission: Submission<O, F, R>,
        slot: SlotOutcome,
    ) -> Option<SubmissionFailure> {
        match Scheduler::after_slot(view, submission.lane.config, slot) {
            SlotStep::Refuse(failure) => Some(failure),
            SlotStep::Wait => None,
            SlotStep::Commit => Scheduler::commit_refusal(
                view,
                submission.job.lane@,
                submission.lane.generation,
                submission.group,
            ),
        }
    }

    /// Takes a submission on that asked for a place in the queue of its lane.
    pub fn submit<O, F, R>(
        &mut self,
        submission: Submission<O, F, R>,
        slot: SlotOutcome,
        run_id: TaskRunId,
        now: Instant,
    ) -> (result: Result<Submitted<O, F, R>, TrySubmitError<Job<O, F, R>>>)
        requires
            old(self).wf(),
        ensures
            final(self).wf(),
            old(self)@.kept_by(final(self)@),
            !(result matches Ok(Submitted::Accepted(..))) ==> final(self)@ == old(self)@,
            match Scheduler::submission_refusal(old(self)@, submission, slot) {
                Some(failure) => {
                    &&& result matches Err(error)
                    &&& error.failure() == failure
                    &&& error.job() == submission.job
                },
                None => if Scheduler::after_slot(old(self)@, submission.lane.config, slot)
                    == SlotStep::Wait {
                    result == Ok::<Submitted<O, F, R>, TrySubmitError<Job<O, F, R>>>(
                        Submitted::Waits(submission),
                    )
                } else if has_run(old(self)@.runs, run_id) {
                    result == Ok::<Submitted<O, F, R>, TrySubmitError<Job<O, F, R>>>(
                        Submitted::IdentityTaken(submission),
                    )
                } else {
                    &&& result matches Ok(Submitted::Accepted(back, event))
                    &&& back == submission.job
                    &&& final(self)@ == (SchedulerView {
                        runs: final(self)@.runs,
                        observability: old(self)@.observability.published(),
                        ..old(self)@
                    })
                    &&& final(self)@.runs == old(self)@.runs.push(final(self)@.runs.last())
                    &&& accepted_run(
                        final(self)@.runs.last(),
                        submission.job,
                        run_id,
                        submission.lane.generation,
                        submission.group,
                        old(self)@.group_paused(submission.group),
                        old(self)@.observability,
                        now,
                    )
                    &&& final(self)@.runs.last().publishes(
                        TaskEventKind::Submitted,
                        old(self)@.observability,
                        event,
                    )
                },
            },
    {
        match self.slot_step(submission.lane.config, slot) {
            SlotStep::Refuse(failure) => Err(TrySubmitError::of(failure, submission.job)),
            SlotStep::Wait => Ok(Submitted::Waits(submission)),
            SlotStep::Commit => {
                let Submission { job, lane, group } = submission;
                match self.commit(job, lane.generation, group, run_id, now) {
                    Ok((job, event)) => Ok(Submitted::Accepted(job, event)),
                    Err(CommitError::Refused(error)) => Err(error),
                    Err(CommitError::IdentityTaken(job)) => {
                        Ok(Submitted::IdentityTaken(Submission { job, lane, group }))
                    },
                }
            },
        }
    }

    /// Why a run cannot be registered, if it cannot.
    pub open spec fn commit_refusal(
        view: SchedulerView,
        lane: Seq<char>,
        lane_generation: u64,
        group: Option<u64>,
    ) -> Option<SubmissionFailure> {
        if view.refusal() is Some {
            view.refusal()
        } else if !view.lane_open(lane, lane_generation) {
            Some(SubmissionFailure::Closed)
        } else if group matches Some(generation) && view.group_state(generation)
            != GroupState::Open {
            Some(SubmissionFailure::Closed)
        } else {
            None
        }
    }

    /// Why a submission that asked for a place in the queue is refused, if it is.
    pub open spec fn submit_refusal(
        view: SchedulerView,
        lane: Seq<char>,
        slot: SlotOutcome,
        group: Option<u64>,
    ) -> Option<SubmissionFailure> {
        if view.lane_refusal(lane) is Some {
            view.lane_refusal(lane)
        } else if slot == SlotOutcome::NoPermits {
            Some(SubmissionFailure::Full)
        } else if slot == SlotOutcome::Closed {
            Some(SubmissionFailure::Closed)
        } else {
            Scheduler::commit_refusal(view, lane, view.lanes[lane].generation, group)
        }
    }

    /// Submits a job that asked for a place in the queue of its lane.
    pub fn try_submit<O, F, R>(
        &mut self,
        job: Job<O, F, R>,
        slot: SlotOutcome,
        group: Option<u64>,
        run_id: TaskRunId,
        now: Instant,
    ) -> (result: Result<(Job<O, F, R>, Option<TaskEvent>), CommitError<O, F, R>>)
        requires
            old(self).wf(),
        ensures
            final(self).wf(),
            old(self)@.kept_by(final(self)@),
            result is Err ==> final(self)@ == old(self)@,
            match Scheduler::submit_refusal(old(self)@, job.lane@, slot, group) {
                Some(failure) => {
                    &&& result matches Err(CommitError::Refused(error))
                    &&& error.failure() == failure
                    &&& error.job() == job
                },
                None => if has_run(old(self)@.runs, run_id) {
                    &&& result matches Err(CommitError::IdentityTaken(back))
                    &&& back == job
                } else {
                    &&& result matches Ok((back, event))
                    &&& back == job
                    &&& final(self)@ == (SchedulerView {
                        runs: final(self)@.runs,
                        observability: old(self)@.observability.published(),
                        ..old(self)@
                    })
                    &&& final(self)@.runs == old(self)@.runs.push(final(self)@.runs.last())
                    &&& accepted_run(
                        final(self)@.runs.last(),
                        job,
                        run_id,
                        old(self)@.lanes[job.lane@].generation,
                        group,
                        old(self)@.group_paused(group),
                        old(self)@.observability,
                        now,
                    )
                    &&& final(self)@.runs.last().publishes(
                        TaskEventKind::Submitted,
                        old(self)@.observability,
                        event,
                    )
                },
            },
    {
        let lane: LaneInner = match self.lane(&job.lane) {
            Ok(lane) => lane,
            Err(failure) => {
                return Err(CommitError::Refused(TrySubmitError::of(failure, job)));
            },
        };
        if let Some(failure) = self.slot_failure(slot) {
            return Err(CommitError::Refused(TrySubmitError::of(failure, job)));
        }
        self.commit(job, lane.generation, group, run_id, now)
    }

    /// Registers a run under `run_id` in a lane in which it has a place, and in a group.
    pub fn commit<O, F, R>(
        &mut self,
        job: Job<O, F, R>,
        lane_generation: u64,
        group: Option<u64>,
        run_id: TaskRunId,
        now: Instant,
    ) -> (result: Result<(Job<O, F, R>, Option<TaskEvent>), CommitError<O, F, R>>)
        requires
            old(self).wf(),
        ensures
            final(self).wf(),
            old(self)@.kept_by(final(self)@),
            result is Err ==> final(self)@ == old(self)@,
            match Scheduler::commit_refusal(old(self)@, job.lane@, lane_generation, group) {
                Some(failure) => {
                    &&& result matches Err(CommitError::Refused(error))
                    &&& error.failure() == failure
                    &&& error.job() == job
                },
                None => if has_run(old(self)@.runs, run_id) {
                    &&& result matches Err(CommitError::IdentityTaken(back))
                    &&& back == job
                } else {
                    &&& result matches Ok((back, event))
                    &&& back == job
                    &&& final(self)@ == (SchedulerView {
                        runs: final(self)@.runs,
                        observability: old(self)@.observability.published(),
                        ..old(self)@
                    })
                    &&& final(self)@.runs == old(self)@.runs.push(final(self)@.runs.last())
                    &&& accepted_run(
                        final(self)@.runs.last(),
                        job,
                        run_id,
                        lane_generation,
                        group,
                        old(self)@.group_paused(group),
                        old(self)@.observability,
                        now,
                    )
                    &&& final(self)@.runs.last().publishes(
                        TaskEventKind::Submitted,
                        old(self)@.observability,
                        event,
                    )
                },
            },
    {
        if let Some(failure) = self.submission_failure() {
            return Err(CommitError::Refused(TrySubmitError::of(failure, job)));
        }
        let lane_open: bool = match self.lanes.get(&job.lane) {
            Some(lane) => lane.generation == lane_generation && !lane.closed,
            None => false,
        };
        let group_open: bool = match group {
            Some(generation) => self.state_of(generation) == GroupState::Open,
            None => true,
        };
        if !lane_open || !group_open {
            return Err(
                CommitError::Refused(TrySubmitError::of(SubmissionFailure::Closed, job)),
            );
        }
        if find_run(&self.runs, run_id).is_some() {
            return Err(CommitError::IdentityTaken(job));
        }
        let ghost before = self@;
        let mut run = RunShared::new(
            RunMetadata {
                run_id,
                job_id: job.id,
                key_generation: job.key_generation,
                lane: job.lane.clone(),
                lane_generation,
                group_generation: group,
            },
            job.kind.trigger_policy(),
        );
        if self.is_group_paused(group) {
            run.manual.pause_scope();
        }
        let event = run.publish_submitted(&mut self.observability, now);
        self.runs.push(run);
        proof {
            assert(runs_wf(self@.runs)) by {
                assert forall|i: int, j: int| 0 <= i < j < self@.runs.len() implies (
                #[trigger] self@.runs[i]).run_id != (#[trigger] self@.runs[j]).run_id by {
                    if j == before.runs.len() {
                        assert(before.runs[i] == self@.runs[i]);
                    } else {
                        assert(before.runs[i].run_id != before.runs[j].run_id);
                    }
                }
                assert forall|i: int| 0 <= i < self@.runs.len() implies (
                #[trigger] self@.runs[i]).wf() by {
                    if i < before.runs.len() {
                        assert(before.runs[i].wf());
                    }
                }
            }
            assert(members_known(self@.groups, self@.runs)) by {
                assert forall|i: int| 0 <= i < self@.runs.len() implies ((
                #[trigger] self@.runs[i]).group_generation matches Some(generation)
                    ==> self@.groups.contains_key(generation)) by {
                    if i < before.runs.len() {
                        assert(before.runs[i] == self@.runs[i]);
                    }
                }
            }
        }
        Ok((job, event))
    }
}

/// What a request to stop those runs that are meant did.
pub open spec fn stopped_selection<'a>(
    before: SchedulerView,
    after: SchedulerView,
    select: Selection<'a>,
    reason: CancelReason,
    now: Instant,
    count: nat,
    events: Seq<TaskEvent>,
) -> bool {
    &&& after.runs.len() == before.runs.len()
    &&& runs_wf(after.runs)
    &&& count == crate::scheduler::runs::count_of(
        before.runs,
        crate::scheduler::runs::stops(select),
        before.runs.len() as int,
    )
    &&& after.observability == crate::scheduler::runs::published_times(
        before.observability,
        count,
    )
    &&& forall|i: int|
        0 <= i < before.runs.len() ==> crate::scheduler::runs::stopped_run(
            before.runs,
            select,
            reason,
            before.observability,
            now,
            i,
            #[trigger] after.runs[i],
        )
    &&& events == crate::scheduler::runs::stop_events(
        before.runs,
        after.runs,
        select,
        before.observability,
        before.runs.len() as int,
    )
}

/// A request to stop leaves every run with its identity, lane and group.
pub proof fn lemma_stopped_sound<'a>(
    before: SchedulerView,
    after: SchedulerView,
    select: Selection<'a>,
    reason: CancelReason,
    now: Instant,
    count: nat,
    events: Seq<TaskEvent>,
)
    requires
        stopped_selection(before, after, select, reason, now, count, events),
    ensures
        forall|i: int|
            0 <= i < before.runs.len() ==> {
                &&& (#[trigger] after.runs[i]).run_id == before.runs[i].run_id
                &&& after.runs[i].lane == before.runs[i].lane
                &&& after.runs[i].lane_generation == before.runs[i].lane_generation
                &&& after.runs[i].group_generation == before.runs[i].group_generation
                &&& after.runs[i].terminal == before.runs[i].terminal
            },
        forall|groups: Map<u64, GroupInner>| #[trigger]
            members_known(groups, before.runs) ==> members_known(groups, after.runs),
{
    assert forall|i: int| 0 <= i < before.runs.len() implies {
        &&& (#[trigger] after.runs[i]).run_id == before.runs[i].run_id
        &&& after.runs[i].lane == before.runs[i].lane
        &&& after.runs[i].lane_generation == before.runs[i].lane_generation
        &&& after.runs[i].group_generation == before.runs[i].group_generation
        &&& after.runs[i].terminal == before.runs[i].terminal
    } by {
        assert(crate::scheduler::runs::stopped_run(
            before.runs,
            select,
            reason,
            before.observability,
            now,
            i,
            after.runs[i],
        ));
    }
    assert forall|groups: Map<u64, GroupInner>| #[trigger]
        members_known(groups, before.runs) implies members_known(groups, after.runs) by {
        assert forall|i: int| 0 <= i < after.runs.len() implies ((
        #[trigger] after.runs[i]).group_generation matches Some(generation)
            ==> groups.contains_key(generation)) by {
            assert(after.runs[i].group_generation == before.runs[i].group_generation);
        }
    }
}

/// A scheduler refuses submissions exactly once its end began, and says whether it is over.
pub proof fn lemma_when_schedulers_refuse(view: SchedulerView, name: Seq<char>, generation: u64)
    ensures
        view.refusal() is None <==> view.lifecycle == Lifecycle::Open,
        view.lifecycle == Lifecycle::Closing ==> view.refusal() == Some(
            SubmissionFailure::ShuttingDown,
        ),
        view.lifecycle == Lifecycle::Terminated ==> view.refusal() == Some(
            SubmissionFailure::Closed,
        ),
        view.lane_refusal(name) is None <==> view.lifecycle == Lifecycle::Open
            && view.lanes.contains_key(name) && !view.lanes[name].closed,
        view.lifecycle == Lifecycle::Open && !view.lanes.contains_key(name) ==> view.lane_refusal(
            name,
        ) == Some(SubmissionFailure::LaneNotFound),
        view.lifecycle == Lifecycle::Open && view.lanes.contains_key(name)
            && view.lanes[name].closed ==> view.lane_refusal(name) == Some(
            SubmissionFailure::Closed,
        ),
        view.lifecycle == Lifecycle::Closing ==> view.lane_refusal(name) == Some(
            SubmissionFailure::ShuttingDown,
        ),
        view.lane_open(name, generation) <==> view.lanes.contains_key(name)
            && view.lanes[name].generation == generation && !view.lanes[name].closed,
{
}

/// A run is registered exactly if the scheduler is open, the lane is open and still of the
/// generation that took it, and its group, if it has one, is known and open.
pub proof fn lemma_when_runs_are_registered(
    view: SchedulerView,
    lane: Seq<char>,
    generation: u64,
    group: Option<u64>,
)
    ensures
        Scheduler::commit_refusal(view, lane, generation, group) is None <==> {
            &&& view.lifecycle == Lifecycle::Open
            &&& view.lanes.contains_key(lane)
            &&& view.lanes[lane].generation == generation
            &&& !view.lanes[lane].closed
            &&& group matches Some(of) ==> view.groups.contains_key(of) && view.groups[of].state
                == GroupState::Open
        },
        view.lifecycle == Lifecycle::Closing ==> Scheduler::commit_refusal(
            view,
            lane,
            generation,
            group,
        ) == Some(SubmissionFailure::ShuttingDown),
        view.lifecycle == Lifecycle::Open ==> (Scheduler::commit_refusal(
            view,
            lane,
            generation,
            group,
        ) is None || Scheduler::commit_refusal(view, lane, generation, group) == Some(
            SubmissionFailure::Closed,
        )),
{
}

/// A submission that asked for a place in the queue: with the place it goes on, at a full lane
/// it waits or is refused as the lane says, and at a queue that is gone it is refused.
pub proof fn lemma_what_full_lanes_do<O, F, R>(
    view: SchedulerView,
    submission: Submission<O, F, R>,
    slot: SlotOutcome,
)
    ensures
        ({
            let config = submission.lane.config;
            let step = Scheduler::after_slot(view, config, slot);
            &&& slot is Acquired ==> step == SlotStep::Commit
            &&& slot is NoPermits && config.policy() == Backpressure::Wait ==> step
                == SlotStep::Wait
            &&& slot is NoPermits && config.policy() != Backpressure::Wait ==> step
                == SlotStep::Refuse(SubmissionFailure::Full)
            &&& slot is Closed && view.lifecycle == Lifecycle::Closing ==> step
                == SlotStep::Refuse(SubmissionFailure::ShuttingDown)
            &&& slot is Closed && view.lifecycle != Lifecycle::Closing ==> step
                == SlotStep::Refuse(SubmissionFailure::Closed)
        }),
        slot is Acquired ==> Scheduler::submission_refusal(view, submission, slot)
            == Scheduler::commit_refusal(
            view,
            submission.job.lane@,
            submission.lane.generation,
            submission.group,
        ),
        slot is NoPermits && submission.lane.config.policy() == Backpressure::Wait
            ==> Scheduler::submission_refusal(view, submission, slot) is None,
        slot is NoPermits && submission.lane.config.policy() != Backpressure::Wait
            ==> Scheduler::submission_refusal(view, submission, slot) == Some(
            SubmissionFailure::Full,
        ),
{
}

/// A submission that does not wait is refused for the scheduler, then for the lane, then for
/// the queue, and then for the group, and for nothing else.
pub proof fn lemma_what_submissions_are_refused_for(
    view: SchedulerView,
    lane: Seq<char>,
    slot: SlotOutcome,
    group: Option<u64>,
)
    ensures
        ({
            let refusal = Scheduler::submit_refusal(view, lane, slot, group);
            let open = view.lifecycle == Lifecycle::Open && view.lanes.contains_key(lane)
                && !view.lanes[lane].closed;
            &&& refusal is None <==> open && slot is Acquired && (group matches Some(of)
                ==> view.groups.contains_key(of) && view.groups[of].state == GroupState::Open)
            &&& !open ==> refusal == view.lane_refusal(lane)
            &&& open && slot is NoPermits ==> refusal == Some(SubmissionFailure::Full)
            &&& open && slot is Closed ==> refusal == Some(SubmissionFailure::Closed)
        }),
{
}

/// A group that is not known is over and pauses nothing; any other shows its own state.
pub proof fn lemma_what_groups_show(view: SchedulerView, generation: u64)
    ensures
        !view.groups.contains_key(generation) ==> view.group_state(generation)
            == GroupState::Terminated && !view.group_paused(Some(generation)),
        view.groups.contains_key(generation) ==> view.group_state(generation)
            == view.groups[generation].state && (view.group_paused(Some(generation))
            <==> view.groups[generation].paused),
        !view.group_paused(None),
{
}

/// An accepted run begins as a queued run of its job on its lane and in its group, paused with
/// its group, without a request to stop, a trigger or a key.
pub proof fn lemma_how_accepted_runs_begin<O, F, R>(
    run: RunShared,
    job: Job<O, F, R>,
    run_id: TaskRunId,
    lane_generation: u64,
    group: Option<u64>,
    paused: bool,
    before: Observability,
    now: Instant,
)
    requires
        accepted_run(run, job, run_id, lane_generation, group, paused, before, now),
    ensures
        run.snapshot.state == TaskState::Queued,
        run.run_id == run_id && run.snapshot.run_id == run_id,
        run.job_id == job.id && run.snapshot.job_id == job.id,
        run.lane == job.lane,
        run.lane_generation == lane_generation,
        run.group_generation == group,
        run.snapshot.key_generation == job.key_generation,
        !run.manual.task_paused,
        run.manual.scope_paused == paused,
        run.manual.pending == 0,
        run.cancellation.reason is None && !run.cancellation.outcome_claimed,
        run.key_registration is None,
        !run.terminal && !run.abort_requested && !run.abortable,
        before.sequence < u64::MAX ==> run.snapshot.snapshot_version == before.sequence + 1,
{
}

/// A scheduler is configured validly exactly if both its limits are in their ranges and a
/// runtime is there.
pub proof fn lemma_which_schedulers_are_valid(builder: SchedulerBuilder, runtime_available: bool)
    ensures
        builder.build_error(runtime_available) is None <==> {
            &&& 1 <= builder.global_concurrency <= permit_limit()
            &&& 1 <= builder.event_capacity <= MAX_EVENT_CAPACITY
            &&& runtime_available
        },
        !(1 <= builder.global_concurrency <= permit_limit()) ==> builder.build_error(
            runtime_available,
        ) == Some(
            SchedulerBuildError::InvalidGlobalConcurrency {
                concurrency: builder.global_concurrency,
                maximum: permit_limit(),
            },
        ),
        1 <= builder.global_concurrency <= permit_limit() && !(1 <= builder.event_capacity
            <= MAX_EVENT_CAPACITY) ==> builder.build_error(runtime_available) == Some(
            SchedulerBuildError::InvalidEventCapacity {
                capacity: builder.event_capacity,
                maximum: MAX_EVENT_CAPACITY,
            },
        ),
{
}

/// A group has a member, and a generation of a lane a run, exactly if one is registered.
pub proof fn lemma_members_are_registered_runs(runs: Seq<RunShared>, i: int)
    requires
        0 <= i < runs.len(),
    ensures
        runs[i].group_generation matches Some(generation) ==> has_member(runs, generation),
        has_lane_run(runs, runs[i].lane@, runs[i].lane_generation),
        forall|generation: u64|
            has_member(Seq::empty(), generation) ==> false,
{
}

} // verus!
