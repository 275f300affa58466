//! Submissions under a key: at most one run holds a key, and a submission that is under
//! way reserves it.

use crate::observe::{Observability, TaskEvent, TaskEventKind};
use crate::scheduler::group_table::{GroupInner, GroupTable};
use crate::scheduler::groups::lemma_group_set;
use crate::scheduler::jobs::Job;
use crate::scheduler::keys::{KeyRegistryState, KeyReservation, KeysView, ReserveKeyError};
use crate::scheduler::run::{KeyRegistration, RunShared};
use crate::scheduler::runs::{
    cancel_run, cancelled_run, find_run, has_run, run_accepts, runs_wf,
};
use crate::scheduler::state::{
    accepted_run, members_known, CommitError, Scheduler, SchedulerView, SlotOutcome,
};
use crate::scheduler::types::{
    CancelReason, KeyStatus, KeyedSubmitError, ReplaceError, TaskRunId,
};
use crate::time::Instant;
use vstd::prelude::*;

verus! {

/// Whether a run is over: only registered runs are not.
pub open spec fn run_over(runs: Seq<RunShared>, run_id: TaskRunId) -> bool {
    !exists|i: int|
        0 <= i < runs.len() && (#[trigger] runs[i]).run_id == run_id && !runs[i].terminal
}

/// Whether the run that holds a key is over.
pub open spec fn holder_over(keys: KeysView, runs: Seq<RunShared>, key: Seq<char>) -> bool {
    keys.replaced(key) matches Some((_, run_id)) && run_over(runs, run_id)
}

/// The keys without the holder of `key` where that is a run that is over.
pub open spec fn cleared_keys(
    keys: KeysView,
    runs: Seq<RunShared>,
    key: Seq<char>,
) -> KeysView {
    keys.without_finished(key, holder_over(keys, runs, key))
}

/// Whether a run is over.
pub fn is_over(runs: &Vec<RunShared>, run_id: TaskRunId) -> (over: bool)
    requires
        runs_wf(runs@),
    ensures
        over == run_over(runs@, run_id),
{
    match find_run(runs, run_id) {
        Some(at) => {
            let over: bool = runs[at].terminal;
            proof {
                if over && !run_over(runs@, run_id) {
                    let i = choose|i: int|
                        0 <= i < runs.len() && (#[trigger] runs@[i]).run_id == run_id
                            && !runs@[i].terminal;
                    if i < at {
                        assert(runs@[i].run_id != runs@[at as int].run_id);
                    } else if at < i {
                        assert(runs@[at as int].run_id != runs@[i].run_id);
                    }
                }
            }
            over
        },
        None => true,
    }
}

/// Whether the run that holds a key is over.
pub fn is_holder_over(keys: &KeyRegistryState, runs: &Vec<RunShared>, key: &String) -> (over: bool)
    requires
        keys.wf(),
        runs_wf(runs@),
    ensures
        over == holder_over(keys@, runs@, key@),
{
    match keys.holder(key) {
        Some(run_id) => is_over(runs, run_id),
        None => false,
    }
}

/// What is told about the holder of a key.
pub fn key_status(keys: &mut KeyRegistryState, runs: &Vec<RunShared>, key: &String) -> (status:
    Option<KeyStatus>)
    requires
        old(keys).wf(),
        runs_wf(runs@),
    ensures
        final(keys).wf(),
        final(keys)@ == cleared_keys(old(keys)@, runs@, key@),
        status == if final(keys)@.current.contains_key(key@) {
            Some(final(keys)@.current[key@].described())
        } else {
            None
        },
{
    let finished: bool = is_holder_over(keys, runs, key);
    keys.key_status(key, finished)
}

/// The job with its key and the generation of the reservation.
pub open spec fn keyed_job<O, F, R>(
    job: Job<O, F, R>,
    key: String,
    generation: u64,
) -> Job<O, F, R> {
    Job { key: Some(key), key_generation: Some(generation), ..job }
}

/// Reserves a key that nobody holds.
pub fn begin_keyed<O, F, R>(
    keys: &mut KeyRegistryState,
    runs: &Vec<RunShared>,
    key: String,
    job: Job<O, F, R>,
) -> (result: Result<(KeyReservation, Job<O, F, R>), KeyedSubmitError<Job<O, F, R>>>)
    requires
        old(keys).wf(),
        runs_wf(runs@),
    ensures
        final(keys).wf(),
        ({
            let cleared = cleared_keys(old(keys)@, runs@, key@);
            if cleared.current.contains_key(key@) {
                &&& result matches Err(KeyedSubmitError::Occupied { job: back, current })
                &&& back == job
                &&& current == cleared.current[key@].described()
                &&& final(keys)@ == cleared
            } else if cleared.last_generation(key@) == u64::MAX {
                &&& result == Err::<(KeyReservation, Job<O, F, R>), KeyedSubmitError<Job<O, F, R>>>(
                    KeyedSubmitError::GenerationExhausted(job),
                )
                &&& final(keys)@ == cleared
            } else {
                &&& result matches Ok((reservation, keyed))
                &&& reservation.key == key
                &&& reservation.generation == cleared.last_generation(key@) + 1
                &&& reservation.previous is None
                &&& keyed == keyed_job(job, key, reservation.generation)
                &&& final(keys)@ == cleared.reserved(key@, reservation.token)
                &&& final(keys).issued(&reservation)
            }
        }),
{
    let finished: bool = is_holder_over(keys, runs, &key);
    match keys.reserve_key(key.clone(), false, finished) {
        Ok(reservation) => {
            let generation: u64 = reservation.generation;
            let job = Job { key: Some(key), key_generation: Some(generation), ..job };
            Ok((reservation, job))
        },
        Err(ReserveKeyError::Busy(current)) => {
            Err(KeyedSubmitError::Occupied { job, current })
        },
        Err(ReserveKeyError::GenerationExhausted) => {
            Err(KeyedSubmitError::GenerationExhausted(job))
        },
    }
}

/// Reserves a key to replace the run that holds it.
pub fn begin_replace<O, F, R>(
    keys: &mut KeyRegistryState,
    runs: &Vec<RunShared>,
    key: String,
    job: Job<O, F, R>,
) -> (result: Result<(KeyReservation, Job<O, F, R>), ReplaceError<Job<O, F, R>>>)
    requires
        old(keys).wf(),
        runs_wf(runs@),
    ensures
        final(keys).wf(),
        ({
            let cleared = cleared_keys(old(keys)@, runs@, key@);
            if cleared.blocks(key@, true) {
                &&& result == Err::<(KeyReservation, Job<O, F, R>), ReplaceError<Job<O, F, R>>>(
                    ReplaceError::Busy { job, current: cleared.current[key@].described() },
                )
                &&& final(keys)@ == cleared
            } else if cleared.last_generation(key@) == u64::MAX {
                &&& result == Err::<(KeyReservation, Job<O, F, R>), ReplaceError<Job<O, F, R>>>(
                    ReplaceError::GenerationExhausted(job),
                )
                &&& final(keys)@ == cleared
            } else {
                &&& result matches Ok((reservation, back))
                &&& back == job
                &&& reservation.key == key
                &&& reservation.generation == cleared.last_generation(key@) + 1
                &&& reservation.previous == cleared.replaced(key@)
                &&& final(keys)@ == cleared.reserved(key@, reservation.token)
                &&& final(keys).issued(&reservation)
            }
        }),
{
    let finished: bool = is_holder_over(keys, runs, &key);
    match keys.reserve_key(key, true, finished) {
        Ok(reservation) => Ok((reservation, job)),
        Err(ReserveKeyError::Busy(current)) => Err(ReplaceError::Busy { job, current }),
        Err(ReserveKeyError::GenerationExhausted) => Err(ReplaceError::GenerationExhausted(job)),
    }
}

/// A run with its hold on a key.
pub open spec fn registered_run(run: RunShared, key: String, generation: u64) -> RunShared {
    RunShared { key_registration: Some(KeyRegistration { key, generation }), ..run }
}

/// Ends a submission under a key: the key goes to the new run, or, without one, back to
/// the run that was to be replaced. Says whether the new run got the key.
pub fn end_keyed(
    keys: &mut KeyRegistryState,
    runs: &mut Vec<RunShared>,
    reservation: KeyReservation,
    run_id: Option<TaskRunId>,
) -> (committed: bool)
    requires
        old(keys).wf(),
        old(keys).issued(&reservation),
        runs_wf(old(runs)@),
    ensures
        final(keys).wf(),
        runs_wf(final(runs)@),
        match run_id {
            None => {
                &&& !committed
                &&& final(runs)@ == old(runs)@
                &&& final(keys)@ == old(keys)@.released(
                    reservation.key@,
                    reservation.token,
                    reservation.previous,
                    reservation.previous matches Some((_, previous)) && run_over(
                        old(runs)@,
                        previous,
                    ),
                )
            },
            Some(run_id) => {
                &&& committed == (old(keys)@.active(reservation.key@, reservation.token)
                    && !run_over(old(runs)@, run_id))
                &&& final(keys)@ == old(keys)@.committed(
                    reservation.key@,
                    reservation.token,
                    reservation.generation,
                    run_id,
                    run_over(old(runs)@, run_id),
                )
                &&& final(runs).len() == old(runs).len()
                &&& forall|i: int|
                    0 <= i < old(runs).len() ==> #[trigger] final(runs)@[i] == if committed
                        && old(runs)@[i].run_id == run_id {
                        registered_run(old(runs)@[i], reservation.key, reservation.generation)
                    } else {
                        old(runs)@[i]
                    }
            },
        },
{
    match run_id {
        None => {
            let finished: bool = match reservation.previous {
                Some((_, previous)) => is_over(runs, previous),
                None => false,
            };
            keys.release(reservation, finished);
            false
        },
        Some(run_id) => {
            let over: bool = is_over(runs, run_id);
            match find_run(runs, run_id) {
                Some(at) => {
                    let ghost before = runs@;
                    let committed: bool = keys.commit(reservation, &mut runs[at]);
                    proof {
                        assert(over == before[at as int].terminal) by {
                            if !over {
                                let i = choose|i: int|
                                    0 <= i < before.len() && (#[trigger] before[i]).run_id
                                        == run_id && !before[i].terminal;
                                if i < at {
                                    assert(before[i].run_id != before[at as int].run_id);
                                } else if at < i {
                                    assert(before[at as int].run_id != before[i].run_id);
                                }
                            }
                        }
                        assert forall|i: int| 0 <= i < before.len() implies #[trigger] runs@[i]
                            == if committed && before[i].run_id == run_id {
                            registered_run(before[i], reservation.key, reservation.generation)
                        } else {
                            before[i]
                        } by {
                            if i < at {
                                assert(before[i].run_id != before[at as int].run_id);
                            } else if at < i {
                                assert(before[at as int].run_id != before[i].run_id);
                            }
                        }
                        assert forall|i: int, j: int| 0 <= i < j < runs@.len() implies (
                        #[trigger] runs@[i]).run_id != (#[trigger] runs@[j]).run_id by {
                            assert(before[i].run_id != before[j].run_id);
                        }
                        assert forall|i: int| 0 <= i < runs@.len() implies (
                        #[trigger] runs@[i]).wf() by {
                            assert(before[i].wf());
                        }
                    }
                    committed
                },
                None => {
                    keys.abandon(reservation);
                    false
                },
            }
        },
    }
}

/// Why a submission under a key was not registered.
pub enum KeyedCommitError<O, F, R> {
    /// It is refused.
    Refused(KeyedSubmitError<Job<O, F, R>>),
    /// The identity is in use; another one is needed.
    IdentityTaken(Job<O, F, R>),
}

/// The keys after a submission under `key` that got the key, or that failed.
pub open spec fn keys_after(
    cleared: KeysView,
    key: Seq<char>,
    run_id: Option<TaskRunId>,
) -> KeysView {
    let generation = (cleared.last_generation(key) + 1) as u64;
    KeysView {
        current: match run_id {
            Some(run_id) => cleared.current.insert(
                key,
                crate::scheduler::keys::KeyEntry::Running { generation, run_id },
            ),
            None => cleared.current,
        },
        generations: cleared.generations.insert(key, generation),
    }
}

impl SchedulerView {
    /// Whether there is a key registry for the runs of a group, or for those of none.
    pub open spec fn has_keys(self, group: Option<u64>) -> bool {
        group matches Some(generation) ==> self.groups.contains_key(generation)
    }

    /// The keys of the runs of a group, or of those of none.
    pub open spec fn keys_in(self, group: Option<u64>) -> KeyRegistryState {
        match group {
            Some(generation) => self.groups[generation].keys,
            None => self.keys,
        }
    }

    /// With other keys for the runs of a group, or for those of none.
    pub open spec fn with_keys(self, group: Option<u64>, keys: KeyRegistryState) -> SchedulerView {
        match group {
            Some(generation) => SchedulerView {
                groups: self.groups.insert(
                    generation,
                    GroupInner { keys, ..self.groups[generation] },
                ),
                ..self
            },
            None => SchedulerView { keys, ..self },
        }
    }

    /// What every operation keeps, unless it forgets a group: a group stays known, the
    /// generations of a key never go back, and what a registered run is, an accepted request
    /// to stop it and its end stay.
    pub open spec fn kept_by(self, later: SchedulerView) -> bool {
        &&& forall|group: Option<u64>| #[trigger] self.has_keys(group) ==> later.has_keys(group)
        &&& forall|group: Option<u64>, key: Seq<char>|
            self.has_keys(group) ==> #[trigger] self.keys_in(group)@.last_generation(key)
                <= later.keys_in(group)@.last_generation(key)
        &&& forall|i: int, j: int|
            0 <= i < self.runs.len() && 0 <= j < later.runs.len() && (
            #[trigger] self.runs[i]).run_id == (#[trigger] later.runs[j]).run_id
                ==> self.runs[i].evolves_into(&later.runs[j])
    }

    /// What forgetting a group keeps: all that other operations keep, but for that group.
    pub open spec fn kept_without(self, later: SchedulerView, generation: u64) -> bool {
        (SchedulerView { groups: self.groups.remove(generation), ..self }).kept_by(later)
    }

    /// Only the last change of the keys counts, and the keys that are there change nothing.
    pub proof fn lemma_with_keys(
        self,
        group: Option<u64>,
        first: KeyRegistryState,
        second: KeyRegistryState,
    )
        requires
            self.has_keys(group),
        ensures
            self.with_keys(group, first).with_keys(group, second) == self.with_keys(group, second),
            self.with_keys(group, first).keys_in(group) == first,
            self.with_keys(group, self.keys_in(group)) == self,
    {
        if let Some(generation) = group {
            assert(self.with_keys(group, first).with_keys(group, second).groups
                =~= self.with_keys(group, second).groups);
            assert(self.with_keys(group, self.keys_in(group)).groups =~= self.groups);
        }
    }
}

/// What a submission under a key that nobody may hold did, to the keys of a group or to
/// those of no group.
pub open spec fn keyed_submission<O, F, R>(
    before: SchedulerView,
    after: SchedulerView,
    group: Option<u64>,
    key: String,
    job: Job<O, F, R>,
    slot: SlotOutcome,
    run_id: TaskRunId,
    now: Instant,
    result: Result<(Job<O, F, R>, Option<TaskEvent>), KeyedCommitError<O, F, R>>,
) -> bool {
    let cleared = cleared_keys(before.keys_in(group)@, before.runs, key@);
    let keyed = keyed_job(job, key, (cleared.last_generation(key@) + 1) as u64);
    let refusal = Scheduler::submit_refusal(before, job.lane@, slot, group);
    let keys = after.keys_in(group);
    if has_run(before.runs, run_id) {
        &&& result matches Err(KeyedCommitError::IdentityTaken(back))
        &&& back == job
        &&& after == before
    } else if cleared.current.contains_key(key@) {
        &&& result matches Err(
            KeyedCommitError::Refused(KeyedSubmitError::Occupied { job: back, current }),
        )
        &&& back == job
        &&& current == cleared.current[key@].described()
        &&& after == before.with_keys(group, keys)
        &&& keys@ == cleared
    } else if cleared.last_generation(key@) == u64::MAX {
        &&& result matches Err(
            KeyedCommitError::Refused(KeyedSubmitError::GenerationExhausted(back)),
        )
        &&& back == job
        &&& after == before.with_keys(group, keys)
        &&& keys@ == cleared
    } else if refusal is Some {
        &&& result matches Err(KeyedCommitError::Refused(KeyedSubmitError::Submit(error)))
        &&& Some(error.failure()) == refusal
        &&& error.job() == keyed
        &&& after == before.with_keys(group, keys)
        &&& keys@ == keys_after(cleared, key@, None)
    } else {
        &&& result matches Ok((back, event))
        &&& back == keyed
        &&& after == (SchedulerView {
            runs: after.runs,
            observability: before.observability.published(),
            ..before.with_keys(group, keys)
        })
        &&& keys@ == keys_after(cleared, key@, Some(run_id))
        &&& after.runs == before.runs.push(after.runs.last())
        &&& keyed_run(
            after.runs.last(),
            keyed,
            key,
            run_id,
            before.lanes[job.lane@].generation,
            group,
            before.group_paused(group),
            before.observability,
            now,
        )
        &&& after.runs.last().publishes(TaskEventKind::Submitted, before.observability, event)
    }
}

/// The registered form of an accepted run that holds a key.
pub open spec fn keyed_run<O, F, R>(
    run: RunShared,
    job: Job<O, F, R>,
    key: String,
    run_id: TaskRunId,
    lane_generation: u64,
    group: Option<u64>,
    paused: bool,
    before: Observability,
    now: Instant,
) -> bool {
    &&& run.key_registration == Some(
        KeyRegistration { key, generation: job.key_generation->0 },
    )
    &&& accepted_run(
        RunShared { key_registration: None, ..run },
        job,
        run_id,
        lane_generation,
        group,
        paused,
        before,
        now,
    )
}

/// What a stop of a key did, to the keys of a group or to those of no group.
pub open spec fn stopped_key(
    before: SchedulerView,
    after: SchedulerView,
    group: Option<u64>,
    key: Seq<char>,
    now: Instant,
    stopped: (bool, Option<TaskEvent>),
) -> bool {
    let cleared = cleared_keys(before.keys_in(group)@, before.runs, key);
    &&& after == (SchedulerView {
        runs: after.runs,
        observability: after.observability,
        ..before.with_keys(group, after.keys_in(group))
    })
    &&& after.keys_in(group)@ == cleared.stopped(key)
    &&& stopped.0 == cleared.current.contains_key(key)
    &&& match (if stopped.0 {
        cleared.current[key].described().run_id
    } else {
        None
    }) {
        Some(run_id) => cancelled_in(before, after, run_id, CancelReason::User, now, stopped.1),
        None => {
            &&& after.runs == before.runs
            &&& after.observability == before.observability
            &&& stopped.1 is None
        },
    }
}

impl Scheduler {
    /// Takes the keys of a group, or those of no group, out.
    pub(crate) fn take_keys(&mut self, group: Option<u64>) -> (keys: KeyRegistryState)
        requires
            old(self).wf(),
            old(self)@.has_keys(group),
        ensures
            final(self).wf(),
            keys == old(self)@.keys_in(group),
            keys.wf(),
            final(self)@ == old(self)@.with_keys(group, final(self)@.keys_in(group)),
            final(self).runs == old(self).runs,
    {
        let empty = KeyRegistryState::new();
        self.put_keys(group, empty)
    }

    /// Puts other keys in place of those of a group, or of those of no group; gives out the
    /// keys that were there.
    pub(crate) fn put_keys(&mut self, group: Option<u64>, keys: KeyRegistryState) -> (previous:
        KeyRegistryState)
        requires
            old(self).wf(),
            old(self)@.has_keys(group),
            keys.wf(),
        ensures
            final(self).wf(),
            previous == old(self)@.keys_in(group),
            previous.wf(),
            final(self)@ == old(self)@.with_keys(group, keys),
            final(self).runs == old(self).runs,
    {
        let ghost before = self@;
        let ghost table = self.groups;
        let ghost placed = keys;
        let mut keys = keys;
        match group {
            None => {
                std::mem::swap(&mut self.keys, &mut keys);
            },
            Some(generation) => {
                if let Some(at) = self.groups.position(generation) {
                    std::mem::swap(&mut self.groups.entries[at].keys, &mut keys);
                    proof {
                        GroupTable::lemma_replaced(&table, &self.groups, at as int);
                        lemma_group_set(before, self.groups.entries@[at as int]);
                        assert(self@.groups =~= before.with_keys(group, placed).groups);
                    }
                }
            },
        }
        keys
    }

    /// What is told about the holder of a key of a group, or of no group.
    pub(crate) fn key_status_in(&mut self, group: Option<u64>, key: &String) -> (status: Option<
        KeyStatus,
    >)
        requires
            old(self).wf(),
            old(self)@.has_keys(group),
        ensures
            final(self).wf(),
            old(self)@.kept_by(final(self)@),
            final(self)@ == old(self)@.with_keys(group, final(self)@.keys_in(group)),
            final(self)@.keys_in(group)@ == cleared_keys(
                old(self)@.keys_in(group)@,
                old(self)@.runs,
                key@,
            ),
            status == if final(self)@.keys_in(group)@.current.contains_key(key@) {
                Some(final(self)@.keys_in(group)@.current[key@].described())
            } else {
                None
            },
    {
        let ghost before = self@;
        let mut keys = self.take_keys(group);
        let ghost left = self@.keys_in(group);
        let status = key_status(&mut keys, &self.runs, key);
        proof {
            before.lemma_with_keys(group, left, keys);
            before.lemma_with_keys(group, keys, keys);
        }
        self.put_keys(group, keys);
        status
    }

    /// Asks the run that holds a key of a group, or of no group, to stop.
    pub(crate) fn stop_in(&mut self, group: Option<u64>, key: &String, now: Instant) -> (stopped: (
        bool,
        Option<TaskEvent>,
    ))
        requires
            old(self).wf(),
            old(self)@.has_keys(group),
        ensures
            final(self).wf(),
            old(self)@.kept_by(final(self)@),
            stopped_key(old(self)@, final(self)@, group, key@, now, stopped),
    {
        let ghost before = self@;
        let mut keys = self.take_keys(group);
        let ghost left = self@.keys_in(group);
        let finished: bool = is_holder_over(&keys, &self.runs, key);
        let stop = keys.stop_key(key, finished);
        proof {
            before.lemma_with_keys(group, left, keys);
            before.lemma_with_keys(group, keys, keys);
        }
        self.put_keys(group, keys);
        match stop {
            None => (false, None),
            Some(None) => (true, None),
            Some(Some(run_id)) => {
                let (_, event) = self.cancel(run_id, CancelReason::User, now);
                (true, event)
            },
        }
    }

    /// Submits a job under a key of a group, or of no group, that nobody holds.
    pub(crate) fn start_in<O, F, R>(
        &mut self,
        group: Option<u64>,
        key: String,
        job: Job<O, F, R>,
        slot: SlotOutcome,
        run_id: TaskRunId,
        now: Instant,
    ) -> (result: Result<(Job<O, F, R>, Option<TaskEvent>), KeyedCommitError<O, F, R>>)
        requires
            old(self).wf(),
            old(self)@.has_keys(group),
        ensures
            final(self).wf(),
            old(self)@.kept_by(final(self)@),
            keyed_submission(
                old(self)@,
                final(self)@,
                group,
                key,
                job,
                slot,
                run_id,
                now,
                result,
            ),
    {
        if let Some(at) = find_run(&self.runs, run_id) {
            assert(has_run(self@.runs, run_id)) by {
                assert(self@.runs[at as int].run_id == run_id);
            }
            return Err(KeyedCommitError::IdentityTaken(job));
        }
        let ghost before = self@;
        let ghost cleared = cleared_keys(before.keys_in(group)@, before.runs, key@);
        let ghost plain = job;
        let mut keys = self.take_keys(group);
        let ghost left = self@.keys_in(group);
        let begun = begin_keyed(&mut keys, &self.runs, key, job);
        let ghost held = keys;
        proof {
            before.lemma_with_keys(group, left, held);
            before.lemma_with_keys(group, held, held);
        }
        self.put_keys(group, keys);
        let (reservation, job) = match begun {
            Ok(begun) => begun,
            Err(error) => {
                return Err(KeyedCommitError::Refused(error));
            },
        };
        let ghost reserved = self@;
        assert(Scheduler::submit_refusal(reserved, job.lane@, slot, group)
            == Scheduler::submit_refusal(before, plain.lane@, slot, group));
        assert(reserved.group_paused(group) == before.group_paused(group));
        let submitted = self.try_submit(job, slot, group, run_id, now);
        let ghost accepted = self@;
        let committed: Option<TaskRunId> = match &submitted {
            Ok(_) => Some(run_id),
            Err(_) => None,
        };
        proof {
            if committed is Some {
                assert(accepted.runs.last().run_id == run_id && !accepted.runs.last().terminal);
                assert(!run_over(accepted.runs, run_id)) by {
                    assert(accepted.runs[accepted.runs.len() - 1].run_id == run_id);
                }
            }
        }
        let ended = self.end_in(group, reservation, committed);
        proof {
            let keys = self@.keys_in(group);
            accepted.lemma_with_keys(group, held, keys);
            before.lemma_with_keys(group, held, keys);
            assert(keys@ =~= keys_after(cleared, key@, committed));
            if committed is Some {
                let last = accepted.runs.len() - 1;
                assert(ended);
                assert(self@.runs[last] == registered_run(
                    accepted.runs[last],
                    key,
                    reservation.generation,
                ));
                assert(self@.runs =~= before.runs.push(self@.runs.last())) by {
                    assert forall|i: int| 0 <= i < before.runs.len() implies self@.runs[i]
                        == before.runs[i] by {
                        assert(accepted.runs[i] == before.runs[i]);
                    }
                }
                assert(RunShared { key_registration: None, ..self@.runs.last() }
                    == accepted.runs[last]);
            }
        }
        match submitted {
            Ok(submitted) => Ok(submitted),
            Err(CommitError::Refused(error)) => {
                Err(KeyedCommitError::Refused(KeyedSubmitError::Submit(error)))
            },
            Err(CommitError::IdentityTaken(job)) => Err(KeyedCommitError::IdentityTaken(job)),
        }
    }

    /// Ends a submission under a key of a group, or of no group: the key goes to the new
    /// run, or, without one, back to the run that was to be replaced. Says whether the new
    /// run got the key.
    pub(crate) fn end_in(
        &mut self,
        group: Option<u64>,
        reservation: KeyReservation,
        run_id: Option<TaskRunId>,
    ) -> (committed: bool)
        requires
            old(self).wf(),
            old(self)@.has_keys(group),
            old(self)@.keys_in(group).issued(&reservation),
        ensures
            final(self).wf(),
            old(self)@.kept_by(final(self)@),
            ended_key(old(self)@, final(self)@, group, reservation, run_id, committed),
    {
        let ghost before = self@;
        let mut keys = self.take_keys(group);
        let ghost left = self@.keys_in(group);
        let committed = end_keyed(&mut keys, &mut self.runs, reservation, run_id);
        proof {
            let now = self@;
            assert(now.runs.len() == before.runs.len());
            assert forall|i: int| 0 <= i < now.runs.len() implies (
            #[trigger] now.runs[i]).group_generation == before.runs[i].group_generation by {}
            assert(members_known(now.groups, now.runs)) by {
                assert forall|i: int| 0 <= i < now.runs.len() implies ((
                #[trigger] now.runs[i]).group_generation matches Some(generation)
                    ==> now.groups.contains_key(generation)) by {
                    assert(before.runs[i].group_generation == now.runs[i].group_generation);
                }
            }
            now.lemma_with_keys(group, keys, keys);
            before.lemma_with_keys(group, left, keys);
            assert(now.with_keys(group, keys) == (SchedulerView {
                runs: now.runs,
                ..before.with_keys(group, keys)
            }));
        }
        self.put_keys(group, keys);
        committed
    }

    /// What is told about the holder of a key.
    pub fn key_status(&mut self, key: &String) -> (status: Option<KeyStatus>)
        requires
            old(self).wf(),
        ensures
            final(self).wf(),
            old(self)@.kept_by(final(self)@),
            final(self)@ == (SchedulerView { keys: final(self)@.keys, ..old(self)@ }),
            final(self)@.keys@ == cleared_keys(old(self)@.keys@, old(self)@.runs, key@),
            status == if final(self)@.keys@.current.contains_key(key@) {
                Some(final(self)@.keys@.current[key@].described())
            } else {
                None
            },
    {
        self.key_status_in(None, key)
    }

    /// Asks the run that holds a key to stop, and stops a submission under the key that
    /// is under way; says whether the key had a holder.
    pub fn stop(&mut self, key: &String, now: Instant) -> (stopped: (bool, Option<TaskEvent>))
        requires
            old(self).wf(),
        ensures
            final(self).wf(),
            old(self)@.kept_by(final(self)@),
            stopped_key(old(self)@, final(self)@, None, key@, now, stopped),
    {
        self.stop_in(None, key, now)
    }

    /// Asks a run to stop; says whether it was asked for the first time.
    pub fn cancel(&mut self, run_id: TaskRunId, reason: CancelReason, now: Instant) -> (cancelled:
        (bool, Option<TaskEvent>))
        requires
            old(self).wf(),
        ensures
            final(self).wf(),
            old(self)@.kept_by(final(self)@),
            final(self)@ == (SchedulerView {
                runs: final(self)@.runs,
                observability: final(self)@.observability,
                ..old(self)@
            }),
            cancelled.0 == run_accepts(old(self)@.runs, run_id),
            cancelled_in(old(self)@, final(self)@, run_id, reason, now, cancelled.1),
    {
        let ghost before = self@;
        let cancelled = cancel_run(&mut self.runs, run_id, reason, &mut self.observability, now);
        proof {
            assert(members_known(self@.groups, self@.runs)) by {
                assert forall|i: int| 0 <= i < self@.runs.len() implies ((
                #[trigger] self@.runs[i]).group_generation matches Some(generation)
                    ==> self@.groups.contains_key(generation)) by {
                    assert(cancelled_run(
                        before.runs[i],
                        self@.runs[i],
                        run_id,
                        reason,
                        before.observability,
                        now,
                    ));
                }
            }
        }
        cancelled
    }

    /// Submits a job under a key that nobody holds. An identity that is in use leaves the
    /// key as it was.
    pub fn start_if_absent<O, F, R>(
        &mut self,
        key: String,
        job: Job<O, F, R>,
        slot: SlotOutcome,
        run_id: TaskRunId,
        now: Instant,
    ) -> (result: Result<(Job<O, F, R>, Option<TaskEvent>), KeyedCommitError<O, F, R>>)
        requires
            old(self).wf(),
        ensures
            final(self).wf(),
            old(self)@.kept_by(final(self)@),
            keyed_submission(
                old(self)@,
                final(self)@,
                None,
                key,
                job,
                slot,
                run_id,
                now,
                result,
            ),
    {
        self.start_in(None, key, job, slot, run_id, now)
    }
}

/// What the end of a submission under a key did, to the keys of a group or to those of no
/// group.
pub open spec fn ended_key(
    before: SchedulerView,
    after: SchedulerView,
    group: Option<u64>,
    reservation: KeyReservation,
    run_id: Option<TaskRunId>,
    committed: bool,
) -> bool {
    let keys = before.keys_in(group)@;
    &&& after == (SchedulerView {
        runs: after.runs,
        ..before.with_keys(group, after.keys_in(group))
    })
    &&& match run_id {
        None => {
            &&& !committed
            &&& after.runs == before.runs
            &&& after.keys_in(group)@ == keys.released(
                reservation.key@,
                reservation.token,
                reservation.previous,
                reservation.previous matches Some((_, previous)) && run_over(
                    before.runs,
                    previous,
                ),
            )
        },
        Some(run_id) => {
            &&& committed == (keys.active(reservation.key@, reservation.token) && !run_over(
                before.runs,
                run_id,
            ))
            &&& after.keys_in(group)@ == keys.committed(
                reservation.key@,
                reservation.token,
                reservation.generation,
                run_id,
                run_over(before.runs, run_id),
            )
            &&& after.runs.len() == before.runs.len()
            &&& forall|i: int|
                0 <= i < before.runs.len() ==> #[trigger] after.runs[i] == if committed
                    && before.runs[i].run_id == run_id {
                    registered_run(before.runs[i], reservation.key, reservation.generation)
                } else {
                    before.runs[i]
                }
        },
    }
}

/// What a request to stop one run did.
pub open spec fn cancelled_in(
    before: SchedulerView,
    after: SchedulerView,
    run_id: TaskRunId,
    reason: CancelReason,
    now: Instant,
    event: Option<TaskEvent>,
) -> bool {
    &&& after.runs.len() == before.runs.len()
    &&& after.observability == if run_accepts(before.runs, run_id) {
        before.observability.published()
    } else {
        before.observability
    }
    &&& forall|i: int|
        0 <= i < before.runs.len() ==> cancelled_run(
            before.runs[i],
            #[trigger] after.runs[i],
            run_id,
            reason,
            before.observability,
            now,
        )
    &&& event is Some <==> run_accepts(before.runs, run_id) && before.observability.sequence
        < u64::MAX
    &&& event is Some ==> exists|i: int|
        0 <= i < after.runs.len() && event == Some(
            (#[trigger] after.runs[i]).event(TaskEventKind::StateChanged),
        ) && after.runs[i].run_id == run_id
}

/// A run is over unless it is registered and has not ended.
pub proof fn lemma_which_runs_are_over(runs: Seq<RunShared>, i: int)
    requires
        0 <= i < runs.len(),
    ensures
        !runs[i].terminal ==> !run_over(runs, runs[i].run_id),
        (forall|j: int|
            0 <= j < runs.len() && (#[trigger] runs[j]).run_id == runs[i].run_id
                ==> runs[j].terminal) ==> run_over(runs, runs[i].run_id),
{
}

/// A key whose holder is over counts as free; one whose holder is not, or that a submission
/// holds, stays held.
pub proof fn lemma_keys_of_runs_that_are_over_are_free(
    keys: KeysView,
    runs: Seq<RunShared>,
    key: Seq<char>,
)
    ensures
        keys.current.contains_key(key) && keys.current[key] is Running && run_over(
            runs,
            keys.current[key]->run_id,
        ) ==> !cleared_keys(keys, runs, key).current.contains_key(key),
        keys.current.contains_key(key) && keys.current[key] is Running && !run_over(
            runs,
            keys.current[key]->run_id,
        ) ==> cleared_keys(keys, runs, key) == keys,
        keys.current.contains_key(key) && keys.current[key] is Reserved ==> cleared_keys(
            keys,
            runs,
            key,
        ) == keys,
        cleared_keys(keys, runs, key).generations == keys.generations,
{
}

/// A submission under a key uses up a generation whether it succeeds or not, and holds the key
/// exactly if it does.
pub proof fn lemma_keyed_submission_takes_a_generation(
    cleared: KeysView,
    key: Seq<char>,
    run_id: TaskRunId,
)
    requires
        cleared.last_generation(key) < u64::MAX,
    ensures
        keys_after(cleared, key, None).last_generation(key) == cleared.last_generation(key) + 1,
        keys_after(cleared, key, None).current == cleared.current,
        keys_after(cleared, key, Some(run_id)).last_generation(key) == cleared.last_generation(key)
            + 1,
        keys_after(cleared, key, Some(run_id)).current.contains_key(key),
        keys_after(cleared, key, Some(run_id)).current[key] == (
        crate::scheduler::keys::KeyEntry::Running {
            generation: (cleared.last_generation(key) + 1) as u64,
            run_id,
        }),
{
}

/// A submission under a key succeeds exactly if its identity is new, the key is free and not
/// used up, and neither the scheduler, the lane, the queue nor the group refuses it. Its run
/// then holds the key in the next generation; else no run is registered.
pub proof fn lemma_when_keyed_submissions_succeed<O, F, R>(
    before: SchedulerView,
    after: SchedulerView,
    group: Option<u64>,
    key: String,
    job: Job<O, F, R>,
    slot: SlotOutcome,
    run_id: TaskRunId,
    now: Instant,
    result: Result<(Job<O, F, R>, Option<TaskEvent>), KeyedCommitError<O, F, R>>,
)
    requires
        keyed_submission(before, after, group, key, job, slot, run_id, now, result),
    ensures
        ({
            let cleared = cleared_keys(before.keys_in(group)@, before.runs, key@);
            &&& result is Ok <==> {
                &&& forall|i: int|
                    0 <= i < before.runs.len() ==> (#[trigger] before.runs[i]).run_id != run_id
                &&& !cleared.current.contains_key(key@)
                &&& cleared.last_generation(key@) < u64::MAX
                &&& Scheduler::submit_refusal(before, job.lane@, slot, group) is None
            }
            &&& result matches Ok((back, event)) ==> {
                &&& back.key == Some(key)
                &&& back.key_generation == Some((cleared.last_generation(key@) + 1) as u64)
                &&& back.id == job.id
                &&& after.runs.len() == before.runs.len() + 1
                &&& after.runs.last().run_id == run_id
                &&& after.runs.last().key_registration matches Some(registration)
                    && registration.key == key && registration.generation
                    == cleared.last_generation(key@) + 1
                &&& after.keys_in(group)@.current.contains_key(key@)
                &&& after.keys_in(group)@.current[key@] == (
                crate::scheduler::keys::KeyEntry::Running {
                    generation: (cleared.last_generation(key@) + 1) as u64,
                    run_id,
                })
            }
        }),
        result is Err ==> after.runs == before.runs,
{
}

/// A stop of a key finds it held or not; it asks the run that holds it, or the one that a
/// submission is about to replace, to stop for the user, and no other.
pub proof fn lemma_stop_of_a_key_reaches_its_run(
    before: SchedulerView,
    after: SchedulerView,
    group: Option<u64>,
    key: Seq<char>,
    now: Instant,
    stopped: (bool, Option<TaskEvent>),
    i: int,
)
    requires
        stopped_key(before, after, group, key, now, stopped),
        0 <= i < before.runs.len(),
    ensures
        ({
            let cleared = cleared_keys(before.keys_in(group)@, before.runs, key);
            let told = cleared.current[key].described().run_id;
            &&& stopped.0 <==> cleared.current.contains_key(key)
            &&& after.keys_in(group)@.current.contains_key(key) == stopped.0
            &&& stopped.0 && cleared.current[key] is Reserved ==> after.keys_in(
                group,
            )@.current[key] is Reserved && after.keys_in(group)@.current[key]->stopped
            &&& stopped.0 && cleared.current[key] is Running ==> after.keys_in(group)@.current[key]
                == cleared.current[key]
            &&& !stopped.0 || told != Some(before.runs[i].run_id) ==> after.runs[i]
                == before.runs[i]
            &&& stopped.0 && told == Some(before.runs[i].run_id) && before.runs[i].accepts_cancel()
                ==> {
                &&& after.runs[i].cancellation.reason == Some(CancelReason::User)
                &&& after.runs[i].snapshot.state is CancelRequested
            }
        }),
{
    let cleared = cleared_keys(before.keys_in(group)@, before.runs, key);
    let told = cleared.current[key].described().run_id;
    if stopped.0 {
        if let Some(run_id) = told {
            assert(cancelled_run(
                before.runs[i],
                after.runs[i],
                run_id,
                CancelReason::User,
                before.observability,
                now,
            ));
        }
    }
}

/// The end of a submission gives its key to its run exactly if the reservation stands, was not
/// stopped, and the run is not over; only that run is changed, which records its hold.
pub proof fn lemma_end_of_a_keyed_submission(
    before: SchedulerView,
    after: SchedulerView,
    group: Option<u64>,
    reservation: KeyReservation,
    run_id: TaskRunId,
    committed: bool,
    i: int,
)
    requires
        ended_key(before, after, group, reservation, Some(run_id), committed),
        0 <= i < before.runs.len(),
    ensures
        after.runs.len() == before.runs.len(),
        committed <==> before.keys_in(group)@.active(reservation.key@, reservation.token)
            && !run_over(before.runs, run_id),
        before.runs[i].run_id != run_id || !committed ==> after.runs[i] == before.runs[i],
        before.runs[i].run_id == run_id && committed ==> {
            &&& after.runs[i].key_registration == Some(
                KeyRegistration { key: reservation.key, generation: reservation.generation },
            )
            &&& after.runs[i].snapshot == before.runs[i].snapshot
            &&& after.runs[i].cancellation == before.runs[i].cancellation
        },
{
    assert(after.runs[i] == if committed && before.runs[i].run_id == run_id {
        registered_run(before.runs[i], reservation.key, reservation.generation)
    } else {
        before.runs[i]
    });
}

/// A submission under a key that is held is refused and told who holds it; the job comes back
/// and nothing is registered.
pub proof fn lemma_held_keys_refuse<O, F, R>(
    before: SchedulerView,
    after: SchedulerView,
    group: Option<u64>,
    key: String,
    job: Job<O, F, R>,
    slot: SlotOutcome,
    run_id: TaskRunId,
    now: Instant,
    result: Result<(Job<O, F, R>, Option<TaskEvent>), KeyedCommitError<O, F, R>>,
)
    requires
        keyed_submission(before, after, group, key, job, slot, run_id, now, result),
        forall|i: int|
            0 <= i < before.runs.len() ==> (#[trigger] before.runs[i]).run_id != run_id,
    ensures
        ({
            let cleared = cleared_keys(before.keys_in(group)@, before.runs, key@);
            let refusal = Scheduler::submit_refusal(before, job.lane@, slot, group);
            &&& cleared.current.contains_key(key@) ==> {
                &&& result matches Err(
                    KeyedCommitError::Refused(KeyedSubmitError::Occupied { job: back, current }),
                )
                &&& back == job
                &&& current == cleared.current[key@].described()
            }
            &&& !cleared.current.contains_key(key@) && cleared.last_generation(key@) < u64::MAX
                && refusal is Some ==> {
                &&& result matches Err(KeyedCommitError::Refused(KeyedSubmitError::Submit(error)))
                &&& error.failure() == refusal->0
            }
            &&& !cleared.current.contains_key(key@) && cleared.last_generation(key@) == u64::MAX
                ==> result matches Err(
                KeyedCommitError::Refused(KeyedSubmitError::GenerationExhausted(_)),
            )
        }),
{
}

/// The keys of a group are its own: a change of the keys of one, or of those of no group,
/// leaves the others as they are.
pub proof fn lemma_keys_of_groups_are_their_own(
    scheduler: SchedulerView,
    generation: u64,
    other: u64,
    keys: KeyRegistryState,
)
    requires
        scheduler.groups.contains_key(generation),
        scheduler.groups.contains_key(other),
        generation != other,
    ensures
        scheduler.with_keys(Some(generation), keys).keys_in(Some(generation)) == keys,
        scheduler.with_keys(Some(generation), keys).keys_in(Some(other)) == scheduler.keys_in(
            Some(other),
        ),
        scheduler.with_keys(Some(generation), keys).keys_in(None) == scheduler.keys,
        scheduler.with_keys(None, keys).keys_in(None) == keys,
        scheduler.with_keys(None, keys).keys_in(Some(other)) == scheduler.groups[other].keys,
        scheduler.with_keys(Some(generation), keys).groups[generation].state
            == scheduler.groups[generation].state,
        scheduler.with_keys(Some(generation), keys).runs == scheduler.runs,
{
}

/// A submission that is given up gets no key and changes no run: the run that was to be
/// replaced holds the key again if it is not over and the key was not stopped, and else
/// nobody does.
pub proof fn lemma_given_up_submission_restores_the_key(
    before: SchedulerView,
    after: SchedulerView,
    group: Option<u64>,
    reservation: KeyReservation,
    committed: bool,
)
    requires
        ended_key(before, after, group, reservation, None, committed),
        before.keys_in(group)@.holds(reservation.key@, reservation.token),
    ensures
        !committed,
        after.runs == before.runs,
        after.observability == before.observability,
        ({
            let stopped = before.keys_in(group)@.current[reservation.key@]->stopped;
            let keys = after.keys_in(group)@;
            &&& reservation.previous is None ==> !keys.current.contains_key(reservation.key@)
            &&& stopped ==> !keys.current.contains_key(reservation.key@)
            &&& reservation.previous matches Some(previous) ==> {
                &&& run_over(before.runs, previous.1) ==> !keys.current.contains_key(
                    reservation.key@,
                )
                &&& !run_over(before.runs, previous.1) && !stopped ==> {
                    &&& keys.current.contains_key(reservation.key@)
                    &&& keys.current[reservation.key@] == (
                    crate::scheduler::keys::KeyEntry::Running {
                        generation: previous.0,
                        run_id: previous.1,
                    })
                }
            }
            &&& keys.generations == before.keys_in(group)@.generations
        }),
{
}

/// A request to stop one run is published once if the run accepts it, with the next number,
/// and not at all otherwise; it changes no other run.
pub proof fn lemma_stop_of_one_run_is_published_once(
    before: SchedulerView,
    after: SchedulerView,
    run_id: TaskRunId,
    reason: CancelReason,
    now: Instant,
    event: Option<TaskEvent>,
    i: int,
)
    requires
        cancelled_in(before, after, run_id, reason, now, event),
        before.observability.sequence < u64::MAX,
        0 <= i < before.runs.len(),
    ensures
        after.runs.len() == before.runs.len(),
        before.runs[i].run_id == run_id && !before.runs[i].terminal
            && before.runs[i].cancellation.reason is None
            && !before.runs[i].cancellation.outcome_claimed ==> {
            &&& event is Some
            &&& event->0.run_id == run_id
            &&& after.observability.sequence == before.observability.sequence + 1
            &&& after.runs[i].cancellation.reason == Some(reason)
            &&& after.runs[i].snapshot.state is CancelRequested
        },
        (forall|j: int|
            0 <= j < before.runs.len() && (#[trigger] before.runs[j]).run_id == run_id
                ==> before.runs[j].terminal || before.runs[j].cancellation.reason is Some
                || before.runs[j].cancellation.outcome_claimed) ==> {
            &&& event is None
            &&& after.observability == before.observability
            &&& after.runs[i] == before.runs[i]
        },
        before.runs[i].run_id != run_id ==> after.runs[i] == before.runs[i],
{
    assert(cancelled_run(
        before.runs[i],
        after.runs[i],
        run_id,
        reason,
        before.observability,
        now,
    ));
    if before.runs[i].run_id == run_id && before.runs[i].accepts_cancel() {
        assert(run_accepts(before.runs, run_id));
        let k = choose|k: int|
            0 <= k < after.runs.len() && event == Some(
                (#[trigger] after.runs[k]).event(TaskEventKind::StateChanged),
            ) && after.runs[k].run_id == run_id;
        assert(event->0.run_id == after.runs[k].run_id);
    }
}

/// An accepted submission under a key is published with the next number; a refused one is not
/// published.
pub proof fn lemma_keyed_submissions_are_published<O, F, R>(
    before: SchedulerView,
    after: SchedulerView,
    group: Option<u64>,
    key: String,
    job: Job<O, F, R>,
    slot: SlotOutcome,
    run_id: TaskRunId,
    now: Instant,
    result: Result<(Job<O, F, R>, Option<TaskEvent>), KeyedCommitError<O, F, R>>,
)
    requires
        keyed_submission(before, after, group, key, job, slot, run_id, now, result),
        before.observability.sequence < u64::MAX,
    ensures
        result matches Ok((back, event)) ==> {
            &&& after.observability.sequence == before.observability.sequence + 1
            &&& event is Some
            &&& event->0.run_id == run_id
            &&& event->0.state is Queued
            &&& event->0.kind == TaskEventKind::Submitted
        },
        result is Err ==> after.observability == before.observability,
        after.lanes == before.lanes,
        after.lifecycle == before.lifecycle,
        after.group_names == before.group_names,
{
}

} // verus!
