//! The end of runs and of the scheduler.

use crate::names::NameTable;
use crate::observe::TaskEvent;
use crate::scheduler::group_table::{GroupInner, GroupTable};
use crate::scheduler::groups::lemma_group_set;
use crate::scheduler::keys::{KeyRegistryState, KeysView};
use crate::scheduler::run::{KeyRegistration, RunShared};
use crate::scheduler::runs::{cancel_runs, find_run, has_run, runs_wf, Selection};
use crate::scheduler::state::{
    group_has_member, has_member, lemma_stopped_sound, members_known, stopped_selection, LaneInner,
    Lifecycle, Scheduler, SchedulerView,
};
use crate::scheduler::types::{CancelReason, TaskRunId};
use crate::time::Instant;
use vstd::prelude::*;

verus! {

/// Lanes that take no more runs.
pub open spec fn closed_lanes(lanes: Map<Seq<char>, LaneInner>) -> Map<Seq<char>, LaneInner> {
    Map::new(
        |name: Seq<char>| lanes.contains_key(name),
        |name: Seq<char>| LaneInner { closed: true, ..lanes[name] },
    )
}

/// A group after the scheduler takes no more: the latest one of its name takes no more runs.
pub open spec fn closed_group(
    group: GroupInner,
    names: Map<Seq<char>, u64>,
    runs: Seq<RunShared>,
) -> GroupInner {
    if names.contains_key(group.name@) && names[group.name@] == group.generation {
        group.closing(has_member(runs, group.generation))
    } else {
        group
    }
}

/// The groups after the scheduler takes no more.
pub open spec fn closing_groups(
    groups: Map<u64, GroupInner>,
    names: Map<Seq<char>, u64>,
    runs: Seq<RunShared>,
) -> Map<u64, GroupInner> {
    groups.map_values(|group: GroupInner| closed_group(group, names, runs))
}

/// The identities of runs.
pub open spec fn run_ids(runs: Seq<RunShared>) -> Seq<TaskRunId> {
    runs.map_values(|run: RunShared| run.run_id)
}

fn close_lanes(lanes: &mut NameTable<LaneInner>)
    requires
        old(lanes).wf(),
    ensures
        final(lanes).wf(),
        final(lanes)@ == closed_lanes(old(lanes)@),
{
    let ghost before = *lanes;
    let mut at: usize = 0;
    while at < lanes.entries.len()
        invariant
            at <= lanes.entries.len(),
            lanes.entries.len() == before.entries.len(),
            forall|i: int|
                0 <= i < before.entries.len() ==> (#[trigger] lanes.entries@[i]).0
                    == before.entries@[i].0 && lanes.entries@[i].1 == if i < at {
                    LaneInner { closed: true, ..before.entries@[i].1 }
                } else {
                    before.entries@[i].1
                },
        decreases lanes.entries.len() - at,
    {
        lanes.entries[at].1.closed = true;
        at = at + 1;
    }
    proof {
        let f = |name: Seq<char>, lane: LaneInner| LaneInner { closed: true, ..lane };
        NameTable::lemma_mapped(&before, lanes, f);
        assert(lanes@ =~= closed_lanes(before@));
    }
}

fn close_groups(groups: &mut GroupTable, names: &NameTable<u64>, runs: &Vec<RunShared>)
    requires
        old(groups).wf(),
        names.wf(),
    ensures
        final(groups).wf(),
        final(groups)@ == closing_groups(old(groups)@, names@, runs@),
{
    let ghost before = *groups;
    let mut at: usize = 0;
    while at < groups.entries.len()
        invariant
            at <= groups.entries.len(),
            groups.entries.len() == before.entries.len(),
            names.wf(),
            forall|i: int|
                0 <= i < before.entries.len() ==> #[trigger] groups.entries@[i] == if i < at {
                    closed_group(before.entries@[i], names@, runs@)
                } else {
                    before.entries@[i]
                },
        decreases groups.entries.len() - at,
    {
        assert(groups.entries@[at as int] == before.entries@[at as int]);
        let generation: u64 = groups.entries[at].generation;
        let latest: bool = match names.get(&groups.entries[at].name) {
            Some(latest) => *latest == generation,
            None => false,
        };
        if latest {
            let members: bool = group_has_member(runs, generation);
            groups.entries[at].mark_closing(members);
        }
        at = at + 1;
    }
    proof {
        let f = |group: GroupInner| closed_group(group, names@, runs@);
        GroupTable::lemma_mapped(&before, groups, f);
    }
}

fn collect_ids(runs: &Vec<RunShared>) -> (ids: Vec<TaskRunId>)
    ensures
        ids@ == run_ids(runs@),
{
    let mut ids: Vec<TaskRunId> = Vec::new();
    let mut at: usize = 0;
    while at < runs.len()
        invariant
            at <= runs.len(),
            ids.len() == at,
            forall|i: int| 0 <= i < at ==> #[trigger] ids@[i] == runs@[i].run_id,
        decreases runs.len() - at,
    {
        ids.push(runs[at].run_id);
        at = at + 1;
    }
    assert(ids@ =~= run_ids(runs@));
    ids
}

/// After nothing more is taken and every run was asked to stop.
pub open spec fn closes_into(
    before: SchedulerView,
    after: SchedulerView,
    now: Instant,
    events: Seq<TaskEvent>,
) -> bool {
    &&& after == (SchedulerView {
        lifecycle: Lifecycle::Closing,
        lanes: closed_lanes(before.lanes),
        groups: closing_groups(before.groups, before.group_names, before.runs),
        runs: after.runs,
        observability: after.observability,
        shutdown_started: after.shutdown_started,
        ..before
    })
    &&& exists|count: nat| #[trigger]
        stopped_selection(
            before,
            after,
            Selection::All,
            CancelReason::Shutdown,
            now,
            count,
            events,
        )
}

/// Whether `after` are the groups after a run of theirs ended; `members` says whether its
/// group has others.
pub open spec fn left_groups(
    before: Map<u64, GroupInner>,
    after: Map<u64, GroupInner>,
    run: RunShared,
    members: bool,
) -> bool {
    match run.group_generation {
        None => after == before,
        Some(generation) => {
            &&& after == before.insert(generation, after[generation])
            &&& after[generation] == (GroupInner {
                keys: after[generation].keys,
                ..before[generation].left(members)
            })
            &&& after[generation].keys@ == unheld_keys(before[generation].keys@, run)
        },
    }
}

/// The keys after a run ended.
pub open spec fn unheld_keys(keys: KeysView, run: RunShared) -> KeysView {
    match run.key_registration {
        Some(registration) => keys.unheld(
            registration.key@,
            registration.generation,
            run.run_id,
        ),
        None => keys,
    }
}

fn unhold(keys: &mut KeyRegistryState, registration: &Option<KeyRegistration>, run_id: TaskRunId)
    requires
        old(keys).wf(),
    ensures
        final(keys).wf(),
        final(keys)@ == match *registration {
            Some(registration) => old(keys)@.unheld(
                registration.key@,
                registration.generation,
                run_id,
            ),
            None => old(keys)@,
        },
        *registration is None ==> *final(keys) == *old(keys),
{
    if let Some(registration) = registration {
        keys.remove(registration, run_id);
    }
}

impl Scheduler {
    fn close_all(&mut self, now: Instant) -> (events: Vec<TaskEvent>)
        requires
            old(self).wf(),
        ensures
            final(self).wf(),
            old(self)@.kept_by(final(self)@),
            closes_into(old(self)@, final(self)@, now, events@),
            final(self)@.shutdown_started == old(self)@.shutdown_started,
    {
        let ghost before = self@;
        self.lifecycle = Lifecycle::Closing;
        close_lanes(&mut self.lanes);
        close_groups(&mut self.groups, &self.group_names, &self.runs);
        let (count, events) = cancel_runs(
            &mut self.runs,
            &Selection::All,
            CancelReason::Shutdown,
            &mut self.observability,
            now,
        );
        proof {
            assert(stopped_selection(
                before,
                self@,
                Selection::All,
                CancelReason::Shutdown,
                now,
                count as nat,
                events@,
            ));
            lemma_stopped_sound(
                before,
                self@,
                Selection::All,
                CancelReason::Shutdown,
                now,
                count as nat,
                events@,
            );
            assert(self@.sound()) by {
                assert forall|name: Seq<char>| #[trigger]
                    self@.lanes.contains_key(name) implies 1 <= self@.lanes[name].generation
                    <= self@.next_lane_generation by {
                    assert(before.lanes.contains_key(name));
                }
                assert forall|generation: u64| #[trigger]
                    self@.groups.contains_key(generation) implies {
                    &&& generation <= self@.next_group_generation
                    &&& self@.groups[generation].generation == generation
                    &&& self@.groups[generation].keys.wf()
                } by {
                    assert(before.groups.contains_key(generation));
                }
                assert forall|name: Seq<char>| #[trigger]
                    self@.group_names.contains_key(name) implies {
                    &&& self@.groups.contains_key(self@.group_names[name])
                    &&& self@.groups[self@.group_names[name]].name@ == name
                } by {
                    assert(before.groups.contains_key(before.group_names[name]));
                }
                assert(members_known(before.groups, self@.runs));
            }
        }
        events
    }

    /// Begins the shutdown, once: nothing more is taken and every run is asked to stop.
    /// Gives out the runs to wait for.
    pub fn start_shutdown(&mut self, now: Instant) -> (started: Option<
        (Vec<TaskRunId>, Vec<TaskEvent>),
    >)
        requires
            old(self).wf(),
        ensures
            final(self).wf(),
            old(self)@.kept_by(final(self)@),
            if old(self)@.shutdown_started {
                started is None && final(self)@ == old(self)@
            } else {
                &&& started matches Some((runs, events))
                &&& closes_into(old(self)@, final(self)@, now, events@)
                &&& final(self)@.shutdown_started
                &&& runs@ == run_ids(old(self)@.runs)
            },
    {
        if self.shutdown_started {
            return None;
        }
        let ghost before = self@;
        let runs: Vec<TaskRunId> = collect_ids(&self.runs);
        let events = self.close_all(now);
        let ghost closed = self@;
        self.shutdown_started = true;
        proof {
            let count = choose|count: nat| #[trigger]
                stopped_selection(
                    before,
                    closed,
                    Selection::All,
                    CancelReason::Shutdown,
                    now,
                    count,
                    events@,
                );
            assert(stopped_selection(
                before,
                self@,
                Selection::All,
                CancelReason::Shutdown,
                now,
                count,
                events@,
            ));
        }
        Some((runs, events))
    }

    /// Begins the end of a scheduler that nobody holds, unless it began already.
    pub fn best_effort_close(&mut self, now: Instant) -> (closed: Option<Vec<TaskEvent>>)
        requires
            old(self).wf(),
        ensures
            final(self).wf(),
            old(self)@.kept_by(final(self)@),
            if old(self)@.lifecycle != Lifecycle::Open {
                closed is None && final(self)@ == old(self)@
            } else {
                &&& closed matches Some(events)
                &&& closes_into(old(self)@, final(self)@, now, events@)
                &&& final(self)@.shutdown_started == old(self)@.shutdown_started
            },
    {
        if self.lifecycle != Lifecycle::Open {
            return None;
        }
        Some(self.close_all(now))
    }

    /// Records that the shutdown is over.
    pub fn mark_terminated(&mut self)
        requires
            old(self).wf(),
        ensures
            final(self).wf(),
            old(self)@.kept_by(final(self)@),
            final(self)@ == (SchedulerView { lifecycle: Lifecycle::Terminated, ..old(self)@ }),
    {
        self.lifecycle = Lifecycle::Terminated;
    }

    /// Whether a shutdown must not wait for the caller, which is a registered run itself.
    pub fn waits_on_itself(&self, caller: Option<TaskRunId>) -> (itself: bool)
        ensures
            itself == (caller is Some && has_run(self@.runs, caller->0)),
    {
        match caller {
            Some(run_id) => find_run(&self.runs, run_id).is_some(),
            None => false,
        }
    }

    /// Takes a run that is over off the books: the registry, its group and its key.
    pub fn remove_run_registrations(&mut self, run_id: TaskRunId) -> (removed: Option<RunShared>)
        requires
            old(self).wf(),
        ensures
            final(self).wf(),
            old(self)@.kept_by(final(self)@),
            if !has_run(old(self)@.runs, run_id) {
                removed is None && final(self)@ == old(self)@
            } else {
                &&& removed matches Some(run)
                &&& run.run_id == run_id
                &&& exists|i: int|
                    0 <= i < old(self)@.runs.len() && run == #[trigger] old(self)@.runs[i]
                        && final(self)@.runs == old(self)@.runs.remove(i)
                &&& !has_run(final(self)@.runs, run_id)
                &&& final(self)@ == (SchedulerView {
                    runs: final(self)@.runs,
                    groups: final(self)@.groups,
                    keys: final(self)@.keys,
                    ..old(self)@
                })
                &&& left_groups(
                    old(self)@.groups,
                    final(self)@.groups,
                    run,
                    run.group_generation is Some && has_member(
                        final(self)@.runs,
                        run.group_generation->0,
                    ),
                )
                &&& if run.group_generation is None {
                    final(self)@.keys@ == unheld_keys(old(self)@.keys@, run)
                } else {
                    final(self)@.keys == old(self)@.keys
                }
            },
    {
        let at: usize = match find_run(&self.runs, run_id) {
            Some(at) => at,
            None => {
                return None;
            },
        };
        let ghost before = self@;
        let run: RunShared = self.runs.remove(at);
        assert(self@.runs =~= before.runs.remove(at as int));
        proof {
            assert forall|i: int, j: int| 0 <= i < j < self@.runs.len() implies (
            #[trigger] self@.runs[i]).run_id != (#[trigger] self@.runs[j]).run_id by {
                let i0 = if i < at {
                    i
                } else {
                    i + 1
                };
                let j0 = if j < at {
                    j
                } else {
                    j + 1
                };
                assert(before.runs[i0].run_id != before.runs[j0].run_id);
            }
            assert forall|i: int| 0 <= i < self@.runs.len() implies (#[trigger] self@.runs[i]).wf()
                && self@.runs[i].run_id != run_id && (self@.runs[i].group_generation matches Some(
                generation,
            ) ==> self@.groups.contains_key(generation)) by {
                let i0 = if i < at {
                    i
                } else {
                    i + 1
                };
                assert(before.runs[i0].wf());
                if i0 < at {
                    assert(before.runs[i0].run_id != before.runs[at as int].run_id);
                } else {
                    assert(before.runs[at as int].run_id != before.runs[i0].run_id);
                }
            }
            assert(runs_wf(self@.runs));
            assert(members_known(self@.groups, self@.runs));
            assert(before.runs[at as int].group_generation == run.group_generation);
        }
        match run.group_generation {
            None => {
                unhold(&mut self.keys, &run.key_registration, run_id);
            },
            Some(generation) => {
                let members: bool = group_has_member(&self.runs, generation);
                self.leave_group(generation, members, &run);
            },
        }
        Some(run)
    }

    fn leave_group(&mut self, generation: u64, members: bool, run: &RunShared)
        requires
            old(self).wf(),
            run.group_generation == Some(generation),
            old(self)@.groups.contains_key(generation),
        ensures
            final(self).wf(),
            old(self)@.kept_by(final(self)@),
            final(self)@ == (SchedulerView { groups: final(self)@.groups, ..old(self)@ }),
            left_groups(old(self)@.groups, final(self)@.groups, *run, members),
    {
        let ghost before = self@;
        let ghost table = self.groups;
        if let Some(at) = self.groups.position(generation) {
            self.groups.entries[at].remove_member(members);
            unhold(&mut self.groups.entries[at].keys, &run.key_registration, run.run_id);
            proof {
                GroupTable::lemma_replaced(&table, &self.groups, at as int);
                lemma_group_set(before, self.groups.entries@[at as int]);
            }
        }
    }
}

/// Once the end began, nothing more is accepted, whatever the lane and the group.
pub proof fn lemma_closing_accepts_nothing(
    before: SchedulerView,
    after: SchedulerView,
    now: Instant,
    events: Seq<TaskEvent>,
    lane: Seq<char>,
    generation: u64,
    group: Option<u64>,
)
    requires
        closes_into(before, after, now, events),
    ensures
        after.lane_refusal(lane) is Some,
        Scheduler::commit_refusal(after, lane, generation, group) is Some,
        !after.lane_open(lane, generation),
{
}

/// Once the end began, every run that was not over was asked to stop.
pub proof fn lemma_closing_reaches_every_run(
    before: SchedulerView,
    after: SchedulerView,
    now: Instant,
    events: Seq<TaskEvent>,
    i: int,
)
    requires
        closes_into(before, after, now, events),
        0 <= i < before.runs.len(),
        !before.runs[i].terminal,
    ensures
        after.runs[i].run_id == before.runs[i].run_id,
        after.runs[i].cancellation.reason is Some || after.runs[i].cancellation.outcome_claimed,
{
    let count = choose|count: nat| #[trigger]
        stopped_selection(
            before,
            after,
            Selection::All,
            CancelReason::Shutdown,
            now,
            count,
            events,
        );
    lemma_stopped_sound(
        before,
        after,
        Selection::All,
        CancelReason::Shutdown,
        now,
        count,
        events,
    );
    assert(crate::scheduler::runs::stopped_run(
        before.runs,
        Selection::All,
        CancelReason::Shutdown,
        before.observability,
        now,
        i,
        after.runs[i],
    ));
}

/// The end of a scheduler closes every lane and, of each name, the latest group; it changes
/// nothing else of them.
pub proof fn lemma_closing_closes_lanes_and_groups(
    before: SchedulerView,
    after: SchedulerView,
    now: Instant,
    events: Seq<TaskEvent>,
    name: Seq<char>,
    generation: u64,
)
    requires
        closes_into(before, after, now, events),
    ensures
        after.lifecycle == Lifecycle::Closing,
        after.lanes.contains_key(name) == before.lanes.contains_key(name),
        before.lanes.contains_key(name) ==> {
            &&& after.lanes[name].closed
            &&& after.lanes[name].generation == before.lanes[name].generation
            &&& after.lanes[name].config == before.lanes[name].config
        },
        after.groups.contains_key(generation) == before.groups.contains_key(generation),
        before.groups.contains_key(generation) && before.groups[generation].generation
            == generation && before.group_names.contains_key(before.groups[generation].name@)
            && before.group_names[before.groups[generation].name@] == generation ==> {
            &&& after.groups[generation].state != crate::scheduler::types::GroupState::Open
            &&& !has_member(before.runs, generation) ==> after.groups[generation].state
                == crate::scheduler::types::GroupState::Terminated
            &&& has_member(before.runs, generation) && before.groups[generation].state
                == crate::scheduler::types::GroupState::Open ==> after.groups[generation].state
                == crate::scheduler::types::GroupState::Closing
        },
        after.group_names == before.group_names,
        after.keys == before.keys,
{
}

/// Once the end began, every run that accepts it is asked to stop for that reason, and a run
/// that is over stays as it is.
pub proof fn lemma_closing_stops_runs_for_the_shutdown(
    before: SchedulerView,
    after: SchedulerView,
    now: Instant,
    events: Seq<TaskEvent>,
    i: int,
)
    requires
        closes_into(before, after, now, events),
        0 <= i < before.runs.len(),
    ensures
        !before.runs[i].terminal && before.runs[i].cancellation.reason is None
            && !before.runs[i].cancellation.outcome_claimed ==> {
            &&& after.runs[i].cancellation.reason == Some(CancelReason::Shutdown)
            &&& after.runs[i].snapshot.state is CancelRequested
        },
        before.runs[i].terminal ==> after.runs[i] == before.runs[i],
        after.runs.len() == before.runs.len(),
{
    let count = choose|count: nat| #[trigger]
        stopped_selection(
            before,
            after,
            Selection::All,
            CancelReason::Shutdown,
            now,
            count,
            events,
        );
    assert(crate::scheduler::runs::stopped_run(
        before.runs,
        Selection::All,
        CancelReason::Shutdown,
        before.observability,
        now,
        i,
        after.runs[i],
    ));
}

/// The end of a run frees the key that it holds and, if it was the last one of a group that
/// takes no more, ends the group; it changes no other group.
pub proof fn lemma_end_of_a_member(
    before: Map<u64, GroupInner>,
    after: Map<u64, GroupInner>,
    run: RunShared,
    members: bool,
    other: u64,
)
    requires
        left_groups(before, after, run, members),
    ensures
        run.group_generation is None ==> after == before,
        run.group_generation != Some(other) && before.contains_key(other) ==> after[other]
            == before[other],
        run.group_generation matches Some(generation) ==> {
            &&& !members && before[generation].state == crate::scheduler::types::GroupState::Closing
                ==> after[generation].state == crate::scheduler::types::GroupState::Terminated
            &&& members || before[generation].state != crate::scheduler::types::GroupState::Closing
                ==> after[generation].state == before[generation].state
            &&& after[generation].paused == before[generation].paused
            &&& run.key_registration is None ==> after[generation].keys@
                == before[generation].keys@
        },
{
}

/// The identities of runs are given one for one, in order, and the end of a run frees the key
/// that it holds: only that one, and only if it is its holder.
pub proof fn lemma_runs_are_named_and_free_their_key(
    runs: Seq<RunShared>,
    keys: KeysView,
    run: RunShared,
    other: Seq<char>,
)
    ensures
        run_ids(runs).len() == runs.len(),
        forall|i: int| 0 <= i < runs.len() ==> #[trigger] run_ids(runs)[i] == runs[i].run_id,
        run.key_registration is None ==> unheld_keys(keys, run) == keys,
        run.key_registration matches Some(registration) ==> {
            let key = registration.key@;
            let held = keys.current.contains_key(key) && keys.current[key] == (
            crate::scheduler::keys::KeyEntry::Running {
                generation: registration.generation,
                run_id: run.run_id,
            });
            &&& held ==> !unheld_keys(keys, run).current.contains_key(key)
            &&& !held ==> unheld_keys(keys, run) == keys
            &&& other != key ==> unheld_keys(keys, run).current.contains_key(other)
                == keys.current.contains_key(other)
        },
        unheld_keys(keys, run).generations == keys.generations,
{
}

} // verus!
