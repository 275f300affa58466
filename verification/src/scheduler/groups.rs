//! Groups of runs: isolated submission, keys, pauses and shutdown.

use crate::observe::{TaskEvent, TaskEventKind};
use crate::scheduler::group_table::{GroupInner, GroupTable};
use crate::scheduler::jobs::Job;
use crate::scheduler::keyed::{cleared_keys, keyed_submission, stopped_key, KeyedCommitError};
use crate::scheduler::run::RunShared;
use crate::scheduler::runs::{
    cancel_runs, count_of, find_run, has_run, scope_changes, scoped_run,
    set_scope_paused, Selection,
};
use crate::scheduler::state::{
    accepted_run, group_has_member, has_member, lemma_stopped_sound, members_known,
    stopped_selection, CommitError, Scheduler, SchedulerView, SlotOutcome, TaskGroup,
};
use crate::scheduler::types::{
    CancelReason, GroupState, KeyStatus, KeyedSubmitError, TaskRunId, TrySubmitError,
};
use crate::time::Instant;
use vstd::prelude::*;

verus! {

/// Which runs are members of a generation of a group and not over.
pub open spec fn is_active_member(generation: u64) -> spec_fn(RunShared) -> bool {
    |run: RunShared| run.group_generation == Some(generation) && !run.terminal
}

/// The members of a generation of a group, in the order of their registration.
pub open spec fn member_ids(runs: Seq<RunShared>, generation: u64, n: int) -> Seq<TaskRunId>
    decreases n,
{
    if n <= 0 {
        seq![]
    } else if runs[n - 1].group_generation == Some(generation) {
        member_ids(runs, generation, n - 1).push(runs[n - 1].run_id)
    } else {
        member_ids(runs, generation, n - 1)
    }
}

fn collect_members(runs: &Vec<RunShared>, generation: u64) -> (ids: Vec<TaskRunId>)
    ensures
        ids@ == member_ids(runs@, generation, runs.len() as int),
{
    let mut ids: Vec<TaskRunId> = Vec::new();
    let mut at: usize = 0;
    let select = Selection::Group { generation };
    while at < runs.len()
        invariant
            at <= runs.len(),
            select == (Selection::Group { generation }),
            ids@ == member_ids(runs@, generation, at as int),
        decreases runs.len() - at,
    {
        if select.is_selected(&runs[at]) {
            ids.push(runs[at].run_id);
        }
        at = at + 1;
    }
    ids
}

fn count_members(runs: &Vec<RunShared>, generation: u64) -> (count: usize)
    ensures
        count == count_of(runs@, is_active_member(generation), runs.len() as int),
{
    let mut count: usize = 0;
    let mut at: usize = 0;
    let select = Selection::Group { generation };
    while at < runs.len()
        invariant
            at <= runs.len(),
            select == (Selection::Group { generation }),
            count == count_of(runs@, is_active_member(generation), at as int),
            count <= at,
        decreases runs.len() - at,
    {
        if select.is_selected(&runs[at]) && !runs[at].terminal {
            count = count + 1;
        }
        at = at + 1;
    }
    count
}

/// The scheduler stays sound where one of its groups changes, but for its name and its
/// generation.
pub proof fn lemma_group_set(scheduler: SchedulerView, group: GroupInner)
    requires
        scheduler.sound(),
        scheduler.groups.contains_key(group.generation),
        group.name == scheduler.groups[group.generation].name,
        group.keys.wf(),
    ensures
        (SchedulerView {
            groups: scheduler.groups.insert(group.generation, group),
            ..scheduler
        }).sound(),
{
    let later = SchedulerView {
        groups: scheduler.groups.insert(group.generation, group),
        ..scheduler
    };
    assert forall|generation: u64| #[trigger] later.groups.contains_key(generation) implies {
        &&& generation <= later.next_group_generation
        &&& later.groups[generation].generation == generation
        &&& later.groups[generation].keys.wf()
    } by {
        assert(scheduler.groups.contains_key(generation));
    }
    assert forall|name: Seq<char>| #[trigger] later.group_names.contains_key(name) implies {
        &&& later.groups.contains_key(later.group_names[name])
        &&& later.groups[later.group_names[name]].name@ == name
    } by {
        assert(scheduler.groups.contains_key(scheduler.group_names[name]));
    }
    assert(members_known(later.groups, later.runs)) by {
        assert forall|i: int| 0 <= i < later.runs.len() implies ((
        #[trigger] later.runs[i]).group_generation matches Some(generation)
            ==> later.groups.contains_key(generation)) by {
            assert(scheduler.runs[i] == later.runs[i]);
        }
    }
}

impl SchedulerView {
    /// Whether another group took the name of this one, and it has no registered runs.
    pub open spec fn superseded(self, generation: u64) -> bool {
        &&& self.groups.contains_key(generation)
        &&& self.group_names.contains_key(self.groups[generation].name@)
        &&& self.group_names[self.groups[generation].name@] != generation
        &&& !has_member(self.runs, generation)
    }
}

impl Scheduler {
    /// Forgets a group to which there are no handles, if another one took its name and it
    /// has no registered runs; says whether it did. All other groups are kept.
    pub fn forget_group(&mut self, generation: u64) -> (forgotten: bool)
        requires
            old(self).wf(),
        ensures
            final(self).wf(),
            forgotten == old(self)@.superseded(generation),
            final(self)@ == if forgotten {
                SchedulerView { groups: old(self)@.groups.remove(generation), ..old(self)@ }
            } else {
                old(self)@
            },
            old(self)@.kept_without(final(self)@, generation),
            !forgotten ==> old(self)@.kept_by(final(self)@),
    {
        let ghost before = self@;
        let at: usize = match self.groups.position(generation) {
            Some(at) => at,
            None => {
                return false;
            },
        };
        let latest: bool = match self.group_names.get(&self.groups.entries[at].name) {
            Some(latest) => *latest == generation,
            None => true,
        };
        if latest || group_has_member(&self.runs, generation) {
            return false;
        }
        self.groups.remove(generation);
        proof {
            assert forall|g: u64| #[trigger] self@.groups.contains_key(g) implies {
                &&& g <= self@.next_group_generation
                &&& self@.groups[g].generation == g
                &&& self@.groups[g].keys.wf()
            } by {
                assert(before.groups.contains_key(g));
            }
            assert forall|name: Seq<char>| #[trigger] self@.group_names.contains_key(name) implies {
                &&& self@.groups.contains_key(self@.group_names[name])
                &&& self@.groups[self@.group_names[name]].name@ == name
            } by {
                assert(before.groups.contains_key(before.group_names[name]));
            }
            assert(members_known(self@.groups, self@.runs)) by {
                assert forall|i: int| 0 <= i < self@.runs.len() implies ((
                #[trigger] self@.runs[i]).group_generation matches Some(g)
                    ==> self@.groups.contains_key(g)) by {
                    assert(before.runs[i].group_generation == self@.runs[i].group_generation);
                }
            }
        }
        true
    }
}

impl TaskGroup {
    /// The name of the group.
    pub fn name(&self) -> (name: &str)
        ensures
            name@ == self.name@,
    {
        self.name.as_str()
    }

    /// The generation of the group.
    pub fn generation(&self) -> (generation: u64)
        ensures
            generation == self.generation,
    {
        self.generation
    }

    /// The state of the group.
    pub fn state(&self, scheduler: &Scheduler) -> (state: GroupState)
        requires
            scheduler.wf(),
        ensures
            state == scheduler@.group_state(self.generation),
    {
        scheduler.state_of(self.generation)
    }

    /// How many members are not over.
    pub fn active_task_count(&self, scheduler: &Scheduler) -> (count: usize)
        ensures
            count == count_of(
                scheduler@.runs,
                is_active_member(self.generation),
                scheduler@.runs.len() as int,
            ),
    {
        count_members(&scheduler.runs, self.generation)
    }

    /// Whether the group is paused.
    pub fn is_paused(&self, scheduler: &Scheduler) -> (paused: bool)
        requires
            scheduler.wf(),
        ensures
            paused == scheduler@.group_paused(Some(self.generation)),
    {
        scheduler.is_group_paused(Some(self.generation))
    }

    /// Whether a shutdown of the group must not wait for the caller, which is a member
    /// itself.
    pub fn waits_on_itself(&self, scheduler: &Scheduler, caller: Option<TaskRunId>) -> (itself:
        bool)
        requires
            scheduler.wf(),
        ensures
            itself == (caller matches Some(run_id) && exists|i: int|
                0 <= i < scheduler@.runs.len() && (#[trigger] scheduler@.runs[i]).run_id == run_id
                    && scheduler@.runs[i].group_generation == Some(self.generation)),
    {
        match caller {
            None => false,
            Some(run_id) => match find_run(&scheduler.runs, run_id) {
                None => false,
                Some(at) => {
                    let itself: bool = scheduler.runs[at].group_generation == Some(
                        self.generation,
                    );
                    proof {
                        let runs = scheduler@.runs;
                        assert forall|i: int|
                            0 <= i < runs.len() && (#[trigger] runs[i]).run_id == run_id implies i
                            == at by {
                            if i < at {
                                assert(runs[i].run_id != runs[at as int].run_id);
                            } else if at < i {
                                assert(runs[at as int].run_id != runs[i].run_id);
                            }
                        }
                        assert(runs[at as int].run_id == run_id);
                    }
                    itself
                },
            },
        }
    }

    /// The groups after this one was paused or resumed.
    pub open spec fn paused_groups(self, scheduler: SchedulerView, paused: bool) -> Map<
        u64,
        GroupInner,
    > {
        if scheduler.groups.contains_key(self.generation) {
            scheduler.groups.insert(
                self.generation,
                GroupInner { paused, ..scheduler.groups[self.generation] },
            )
        } else {
            scheduler.groups
        }
    }

    fn set_paused(&self, scheduler: &mut Scheduler, paused: bool) -> (changed: usize)
        requires
            old(scheduler).wf(),
        ensures
            final(scheduler).wf(),
            old(scheduler)@.kept_by(final(scheduler)@),
            final(scheduler)@ == (SchedulerView {
                groups: self.paused_groups(old(scheduler)@, paused),
                runs: final(scheduler)@.runs,
                ..old(scheduler)@
            }),
            final(scheduler)@.runs.len() == old(scheduler)@.runs.len(),
            forall|i: int|
                0 <= i < old(scheduler)@.runs.len() ==> #[trigger] final(scheduler)@.runs[i]
                    == scoped_run(old(scheduler)@.runs[i], self.generation, paused),
            changed == count_of(
                old(scheduler)@.runs,
                scope_changes(self.generation, paused),
                old(scheduler)@.runs.len() as int,
            ),
    {
        let ghost before = scheduler@;
        let ghost table = scheduler.groups;
        if let Some(at) = scheduler.groups.position(self.generation) {
            scheduler.groups.entries[at].paused = paused;
            proof {
                GroupTable::lemma_replaced(&table, &scheduler.groups, at as int);
                lemma_group_set(before, scheduler.groups.entries@[at as int]);
            }
        }
        assert(scheduler@.groups =~= self.paused_groups(before, paused));
        let changed = set_scope_paused(&mut scheduler.runs, self.generation, paused);
        proof {
            assert(members_known(scheduler@.groups, scheduler@.runs)) by {
                assert forall|i: int| 0 <= i < scheduler@.runs.len() implies ((
                #[trigger] scheduler@.runs[i]).group_generation matches Some(generation)
                    ==> scheduler@.groups.contains_key(generation)) by {
                    assert(scheduler@.runs[i].group_generation == before.runs[i].group_generation);
                }
            }
        }
        changed
    }

    /// Pauses the group and its members; counts the members that changed. Work that runs
    /// is not interrupted.
    pub fn pause(&self, scheduler: &mut Scheduler) -> (changed: usize)
        requires
            old(scheduler).wf(),
        ensures
            final(scheduler).wf(),
            old(scheduler)@.kept_by(final(scheduler)@),
            final(scheduler)@ == (SchedulerView {
                groups: self.paused_groups(old(scheduler)@, true),
                runs: final(scheduler)@.runs,
                ..old(scheduler)@
            }),
            final(scheduler)@.runs.len() == old(scheduler)@.runs.len(),
            forall|i: int|
                0 <= i < old(scheduler)@.runs.len() ==> #[trigger] final(scheduler)@.runs[i]
                    == scoped_run(old(scheduler)@.runs[i], self.generation, true),
            changed == count_of(
                old(scheduler)@.runs,
                scope_changes(self.generation, true),
                old(scheduler)@.runs.len() as int,
            ),
    {
        self.set_paused(scheduler, true)
    }

    /// Resumes the group and its members; counts the members that changed.
    pub fn resume(&self, scheduler: &mut Scheduler) -> (changed: usize)
        requires
            old(scheduler).wf(),
        ensures
            final(scheduler).wf(),
            old(scheduler)@.kept_by(final(scheduler)@),
            final(scheduler)@ == (SchedulerView {
                groups: self.paused_groups(old(scheduler)@, false),
                runs: final(scheduler)@.runs,
                ..old(scheduler)@
            }),
            final(scheduler)@.runs.len() == old(scheduler)@.runs.len(),
            forall|i: int|
                0 <= i < old(scheduler)@.runs.len() ==> #[trigger] final(scheduler)@.runs[i]
                    == scoped_run(old(scheduler)@.runs[i], self.generation, false),
            changed == count_of(
                old(scheduler)@.runs,
                scope_changes(self.generation, false),
                old(scheduler)@.runs.len() as int,
            ),
    {
        self.set_paused(scheduler, false)
    }

    /// Submits a job that asked for a place in the queue of its lane, as a member of this
    /// group.
    pub fn try_submit<O, F, R>(
        &self,
        scheduler: &mut Scheduler,
        job: Job<O, F, R>,
        slot: SlotOutcome,
        run_id: TaskRunId,
        now: Instant,
    ) -> (result: Result<(Job<O, F, R>, Option<TaskEvent>), CommitError<O, F, R>>)
        requires
            old(scheduler).wf(),
        ensures
            final(scheduler).wf(),
            old(scheduler)@.kept_by(final(scheduler)@),
            result is Err ==> final(scheduler)@ == old(scheduler)@,
            match Scheduler::submit_refusal(old(scheduler)@, job.lane@, slot, Some(self.generation)) {
                Some(failure) => {
                    &&& result matches Err(CommitError::Refused(error))
                    &&& error.failure() == failure
                    &&& error.job() == job
                },
                None => if has_run(old(scheduler)@.runs, run_id) {
                    &&& result matches Err(CommitError::IdentityTaken(back))
                    &&& back == job
                } else {
                    &&& result matches Ok((back, event))
                    &&& back == job
                    &&& final(scheduler)@ == (SchedulerView {
                        runs: final(scheduler)@.runs,
                        observability: old(scheduler)@.observability.published(),
                        ..old(scheduler)@
                    })
                    &&& final(scheduler)@.runs == old(scheduler)@.runs.push(
                        final(scheduler)@.runs.last(),
                    )
                    &&& accepted_run(
                        final(scheduler)@.runs.last(),
                        job,
                        run_id,
                        old(scheduler)@.lanes[job.lane@].generation,
                        Some(self.generation),
                        old(scheduler)@.group_paused(Some(self.generation)),
                        old(scheduler)@.observability,
                        now,
                    )
                    &&& final(scheduler)@.runs.last().publishes(
                        TaskEventKind::Submitted,
                        old(scheduler)@.observability,
                        event,
                    )
                },
            },
    {
        scheduler.try_submit(job, slot, Some(self.generation), run_id, now)
    }

    /// What is told about the holder of a key of the group.
    pub fn key_status(&self, scheduler: &mut Scheduler, key: &String) -> (status: Option<KeyStatus>)
        requires
            old(scheduler).wf(),
        ensures
            final(scheduler).wf(),
            old(scheduler)@.kept_by(final(scheduler)@),
            if old(scheduler)@.groups.contains_key(self.generation) {
                let group = Some(self.generation);
                let keys = final(scheduler)@.keys_in(group);
                &&& final(scheduler)@ == old(scheduler)@.with_keys(group, keys)
                &&& keys@ == cleared_keys(
                    old(scheduler)@.keys_in(group)@,
                    old(scheduler)@.runs,
                    key@,
                )
                &&& status == if keys@.current.contains_key(key@) {
                    Some(keys@.current[key@].described())
                } else {
                    None
                }
            } else {
                status is None && final(scheduler)@ == old(scheduler)@
            },
    {
        if scheduler.groups.position(self.generation).is_none() {
            return None;
        }
        scheduler.key_status_in(Some(self.generation), key)
    }

    /// Asks the run that holds a key of the group to stop, and stops a submission under
    /// the key that is under way; says whether the key had a holder.
    pub fn stop(&self, scheduler: &mut Scheduler, key: &String, now: Instant) -> (stopped: (
        bool,
        Option<TaskEvent>,
    ))
        requires
            old(scheduler).wf(),
        ensures
            final(scheduler).wf(),
            old(scheduler)@.kept_by(final(scheduler)@),
            if old(scheduler)@.groups.contains_key(self.generation) {
                stopped_key(
                    old(scheduler)@,
                    final(scheduler)@,
                    Some(self.generation),
                    key@,
                    now,
                    stopped,
                )
            } else {
                stopped == (false, None::<TaskEvent>) && final(scheduler)@ == old(scheduler)@
            },
    {
        if scheduler.groups.position(self.generation).is_none() {
            return (false, None);
        }
        scheduler.stop_in(Some(self.generation), key, now)
    }

    /// Submits a job under a key of the group that nobody holds, as a member of the
    /// group. A group of another scheduler takes nothing.
    pub fn start_if_absent<O, F, R>(
        &self,
        scheduler: &mut Scheduler,
        key: String,
        job: Job<O, F, R>,
        slot: SlotOutcome,
        run_id: TaskRunId,
        now: Instant,
    ) -> (result: Result<(Job<O, F, R>, Option<TaskEvent>), KeyedCommitError<O, F, R>>)
        requires
            old(scheduler).wf(),
        ensures
            final(scheduler).wf(),
            old(scheduler)@.kept_by(final(scheduler)@),
            if old(scheduler)@.groups.contains_key(self.generation) {
                keyed_submission(
                    old(scheduler)@,
                    final(scheduler)@,
                    Some(self.generation),
                    key,
                    job,
                    slot,
                    run_id,
                    now,
                    result,
                )
            } else {
                &&& result == Err::<(Job<O, F, R>, Option<TaskEvent>), KeyedCommitError<O, F, R>>(
                    KeyedCommitError::Refused(
                        KeyedSubmitError::Submit(TrySubmitError::Closed(job)),
                    ),
                )
                &&& final(scheduler)@ == old(scheduler)@
            },
    {
        if scheduler.groups.position(self.generation).is_none() {
            return Err(
                KeyedCommitError::Refused(KeyedSubmitError::Submit(TrySubmitError::Closed(job))),
            );
        }
        scheduler.start_in(Some(self.generation), key, job, slot, run_id, now)
    }

    /// The groups after the shutdown of this one began.
    pub open spec fn shutting_groups(self, scheduler: SchedulerView) -> Map<
        u64,
        GroupInner,
    > {
        scheduler.groups.insert(
            self.generation,
            GroupInner {
                state: GroupState::Closing,
                shutdown_started: true,
                ..scheduler.groups[self.generation]
            },
        )
    }

    /// Begins the shutdown of the group, once: it takes no more runs, and its members are
    /// asked to stop. Gives out the members to wait for. Nothing begins for a group of
    /// another scheduler.
    pub fn start_shutdown(&self, scheduler: &mut Scheduler, now: Instant) -> (started: Option<
        (Vec<TaskRunId>, Vec<TaskEvent>),
    >)
        requires
            old(scheduler).wf(),
        ensures
            final(scheduler).wf(),
            old(scheduler)@.kept_by(final(scheduler)@),
            if !old(scheduler)@.groups.contains_key(self.generation) || old(
                scheduler,
            )@.groups[self.generation].shutdown_started {
                started is None && final(scheduler)@ == old(scheduler)@
            } else {
                &&& started matches Some((runs, events))
                &&& final(scheduler)@ == (SchedulerView {
                    groups: self.shutting_groups(old(scheduler)@),
                    runs: final(scheduler)@.runs,
                    observability: final(scheduler)@.observability,
                    ..old(scheduler)@
                })
                &&& runs@ == member_ids(
                    old(scheduler)@.runs,
                    self.generation,
                    old(scheduler)@.runs.len() as int,
                )
                &&& stopped_members(
                    old(scheduler)@,
                    final(scheduler)@,
                    self.generation,
                    now,
                    events@,
                )
            },
    {
        let ghost before = scheduler@;
        let ghost table = scheduler.groups;
        match scheduler.groups.position(self.generation) {
            Some(at) => {
                if scheduler.groups.entries[at].shutdown_started {
                    return None;
                }
                scheduler.groups.entries[at].state = GroupState::Closing;
                scheduler.groups.entries[at].shutdown_started = true;
                proof {
                    GroupTable::lemma_replaced(&table, &scheduler.groups, at as int);
                    lemma_group_set(before, scheduler.groups.entries@[at as int]);
                }
            },
            None => {
                return None;
            },
        }
        let runs: Vec<TaskRunId> = collect_members(&scheduler.runs, self.generation);
        let select = Selection::Group { generation: self.generation };
        let (count, events) = cancel_runs(
            &mut scheduler.runs,
            &select,
            CancelReason::GroupShutdown,
            &mut scheduler.observability,
            now,
        );
        proof {
            assert(stopped_selection(
                before,
                scheduler@,
                select,
                CancelReason::GroupShutdown,
                now,
                count as nat,
                events@,
            ));
            lemma_stopped_sound(
                before,
                scheduler@,
                select,
                CancelReason::GroupShutdown,
                now,
                count as nat,
                events@,
            );
        }
        Some((runs, events))
    }

    /// The groups after this one is over.
    pub open spec fn terminated_groups(self, scheduler: SchedulerView) -> Map<
        u64,
        GroupInner,
    > {
        if scheduler.groups.contains_key(self.generation) {
            scheduler.groups.insert(
                self.generation,
                GroupInner { state: GroupState::Terminated, ..scheduler.groups[self.generation] },
            )
        } else {
            scheduler.groups
        }
    }

    /// Records that the shutdown of the group is over.
    pub fn mark_terminated(&self, scheduler: &mut Scheduler)
        requires
            old(scheduler).wf(),
        ensures
            final(scheduler).wf(),
            old(scheduler)@.kept_by(final(scheduler)@),
            final(scheduler)@ == (SchedulerView {
                groups: self.terminated_groups(old(scheduler)@),
                ..old(scheduler)@
            }),
    {
        let ghost before = scheduler@;
        let ghost table = scheduler.groups;
        if let Some(at) = scheduler.groups.position(self.generation) {
            scheduler.groups.entries[at].state = GroupState::Terminated;
            proof {
                GroupTable::lemma_replaced(&table, &scheduler.groups, at as int);
                lemma_group_set(before, scheduler.groups.entries@[at as int]);
            }
        }
    }

    /// The groups after nobody holds this one any more.
    pub open spec fn closed_groups(self, scheduler: SchedulerView) -> Map<u64, GroupInner> {
        scheduler.groups.insert(
            self.generation,
            scheduler.groups[self.generation].closing(has_member(scheduler.runs, self.generation)),
        )
    }

    /// Closes a group that nobody holds, unless it is closing already; its members are
    /// asked to stop.
    pub fn best_effort_close(&self, scheduler: &mut Scheduler, now: Instant) -> (closed: Option<
        Vec<TaskEvent>,
    >)
        requires
            old(scheduler).wf(),
        ensures
            final(scheduler).wf(),
            old(scheduler)@.kept_by(final(scheduler)@),
            if old(scheduler)@.group_state(self.generation) != GroupState::Open {
                closed is None && final(scheduler)@ == old(scheduler)@
            } else {
                &&& closed matches Some(events)
                &&& final(scheduler)@ == (SchedulerView {
                    groups: self.closed_groups(old(scheduler)@),
                    runs: final(scheduler)@.runs,
                    observability: final(scheduler)@.observability,
                    ..old(scheduler)@
                })
                &&& stopped_members(
                    old(scheduler)@,
                    final(scheduler)@,
                    self.generation,
                    now,
                    events@,
                )
            },
    {
        let ghost before = scheduler@;
        let ghost table = scheduler.groups;
        let at: usize = match scheduler.groups.position(self.generation) {
            Some(at) => at,
            None => {
                return None;
            },
        };
        let members: bool = group_has_member(&scheduler.runs, self.generation);
        if !scheduler.groups.entries[at].best_effort_close(members) {
            assert(scheduler.groups.entries@ =~= table.entries@);
            return None;
        }
        proof {
            GroupTable::lemma_replaced(&table, &scheduler.groups, at as int);
            lemma_group_set(before, scheduler.groups.entries@[at as int]);
        }
        let select = Selection::Group { generation: self.generation };
        let (count, events) = cancel_runs(
            &mut scheduler.runs,
            &select,
            CancelReason::GroupShutdown,
            &mut scheduler.observability,
            now,
        );
        proof {
            assert(stopped_selection(
                before,
                scheduler@,
                select,
                CancelReason::GroupShutdown,
                now,
                count as nat,
                events@,
            ));
            lemma_stopped_sound(
                before,
                scheduler@,
                select,
                CancelReason::GroupShutdown,
                now,
                count as nat,
                events@,
            );
        }
        Some(events)
    }
}

/// What a request to stop the members of a group did.
pub open spec fn stopped_members(
    before: SchedulerView,
    after: SchedulerView,
    generation: u64,
    now: Instant,
    events: Seq<TaskEvent>,
) -> bool {
    exists|count: nat| #[trigger]
        stopped_selection(
            before,
            after,
            Selection::Group { generation },
            CancelReason::GroupShutdown,
            now,
            count,
            events,
        )
}

/// The shutdown of a group does not touch runs outside it.
pub proof fn lemma_groups_are_isolated(
    before: SchedulerView,
    after: SchedulerView,
    generation: u64,
    now: Instant,
    events: Seq<TaskEvent>,
    i: int,
)
    requires
        stopped_members(before, after, generation, now, events),
        0 <= i < before.runs.len(),
        before.runs[i].group_generation != Some(generation),
    ensures
        after.runs[i] == before.runs[i],
{
    let count = choose|count: nat| #[trigger]
        stopped_selection(
            before,
            after,
            Selection::Group { generation },
            CancelReason::GroupShutdown,
            now,
            count,
            events,
        );
    assert(crate::scheduler::runs::stopped_run(
        before.runs,
        Selection::Group { generation },
        CancelReason::GroupShutdown,
        before.observability,
        now,
        i,
        after.runs[i],
    ));
}

/// The members of a group are its registered runs, all of them, in the order of their
/// registration; the active ones are those that are not over.
pub proof fn lemma_members_are_listed(runs: Seq<RunShared>, generation: u64, n: int)
    requires
        0 <= n <= runs.len(),
    ensures
        forall|run_id: TaskRunId| #[trigger]
            member_ids(runs, generation, n).contains(run_id) <==> exists|i: int|
                0 <= i < n && (#[trigger] runs[i]).run_id == run_id && runs[i].group_generation
                    == Some(generation),
        n > 0 && runs[n - 1].group_generation == Some(generation) ==> member_ids(
            runs,
            generation,
            n,
        ) == member_ids(runs, generation, n - 1).push(runs[n - 1].run_id),
        forall|run: RunShared| #[trigger]
            is_active_member(generation)(run) <==> run.group_generation == Some(generation)
                && !run.terminal,
    decreases n,
{
    let ids = member_ids(runs, generation, n);
    if n > 0 {
        lemma_members_are_listed(runs, generation, n - 1);
        let before = member_ids(runs, generation, n - 1);
        let last = runs[n - 1];
        assert forall|run_id: TaskRunId| #[trigger] ids.contains(run_id) <==> exists|i: int|
            0 <= i < n && (#[trigger] runs[i]).run_id == run_id && runs[i].group_generation == Some(
                generation,
            ) by {
            if last.group_generation == Some(generation) {
                assert(ids == before.push(last.run_id));
                assert(ids[before.len() as int] == last.run_id);
                if ids.contains(run_id) && run_id != last.run_id {
                    let k = ids.index_of(run_id);
                    assert(before[k] == run_id);
                    assert(before.contains(run_id));
                }
                if before.contains(run_id) {
                    let k = before.index_of(run_id);
                    assert(ids[k] == run_id);
                }
                assert(runs[n - 1].run_id == last.run_id);
            }
            if before.contains(run_id) {
                let i = choose|i: int|
                    0 <= i < n - 1 && (#[trigger] runs[i]).run_id == run_id
                        && runs[i].group_generation == Some(generation);
                assert(runs[i].run_id == run_id);
            }
        }
    }
}

/// What a group goes through changes that group alone: a pause or resumption its pause, a
/// shutdown its state, which closes and then is over.
pub proof fn lemma_groups_change_alone(
    group: TaskGroup,
    scheduler: SchedulerView,
    other: u64,
    paused: bool,
)
    requires
        scheduler.groups.contains_key(group.generation),
        other != group.generation,
    ensures
        group.paused_groups(scheduler, paused)[group.generation].paused == paused,
        group.paused_groups(scheduler, paused)[group.generation].state
            == scheduler.groups[group.generation].state,
        group.shutting_groups(scheduler)[group.generation].state == GroupState::Closing,
        group.shutting_groups(scheduler)[group.generation].shutdown_started,
        group.terminated_groups(scheduler)[group.generation].state == GroupState::Terminated,
        group.closed_groups(scheduler)[group.generation].state != GroupState::Open,
        !has_member(scheduler.runs, group.generation) ==> group.closed_groups(
            scheduler,
        )[group.generation].state == GroupState::Terminated,
        scheduler.groups.contains_key(other) ==> {
            &&& group.paused_groups(scheduler, paused)[other] == scheduler.groups[other]
            &&& group.shutting_groups(scheduler)[other] == scheduler.groups[other]
            &&& group.terminated_groups(scheduler)[other] == scheduler.groups[other]
            &&& group.closed_groups(scheduler)[other] == scheduler.groups[other]
        },
        group.paused_groups(scheduler, paused).contains_key(other)
            == scheduler.groups.contains_key(other),
        group.terminated_groups(scheduler).contains_key(other) == scheduler.groups.contains_key(
            other,
        ),
{
}

/// A group is superseded once another one has its name and none of its runs is registered.
pub proof fn lemma_when_groups_are_superseded(scheduler: SchedulerView, generation: u64)
    ensures
        scheduler.superseded(generation) <==> {
            &&& scheduler.groups.contains_key(generation)
            &&& scheduler.group_names.contains_key(scheduler.groups[generation].name@)
            &&& scheduler.group_names[scheduler.groups[generation].name@] != generation
            &&& forall|i: int|
                0 <= i < scheduler.runs.len() ==> (#[trigger] scheduler.runs[i]).group_generation
                    != Some(generation)
        },
{
}

} // verus!
