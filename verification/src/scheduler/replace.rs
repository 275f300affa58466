//! The replacement of the run that holds a key: a place in the queue first, then the key,
//! then the end of the previous run, then the new run.

use crate::observe::{TaskEvent, TaskEventKind};
use crate::scheduler::jobs::Job;
use crate::scheduler::keyed::{
    begin_replace, cancelled_in, cleared_keys, ended_key, is_over, keyed_job, keys_after,
    run_over,
};
use crate::scheduler::keys::{KeyReservation, KeysView};
use crate::scheduler::run::RunShared;
use crate::scheduler::runs::{find_run, has_run, lemma_run_place, run_place};
use crate::scheduler::state::{
    accepted_run, CommitError, Scheduler, SchedulerView, SlotOutcome, SlotStep, Submission,
};
use crate::scheduler::types::{
    CancelReason, GroupState, KeyStatus, ReplaceError, ReplaceMode, ReplacePolicy,
    ReplaceTimeoutAction, TaskRunId, TrySubmitError,
};
use crate::time::{Duration, Instant};
use vstd::prelude::*;

verus! {

/// A replacement that asks for a place in the queue of its lane.
pub struct Replacement<O, F, R> {
    pub submission: Submission<O, F, R>,
    pub key: String,
    pub policy: ReplacePolicy,
    /// The run that asks for the replacement, if a run does.
    pub caller: Option<TaskRunId>,
}

/// What a replacement that has reserved its key waits for.
#[derive(Clone, Copy, Debug, Eq, PartialEq, Structural)]
pub enum ReplaceWait {
    /// The end of the previous run, within the grace period.
    Grace,
    /// The end of the previous run, however long it takes.
    Unlimited,
    /// The end of the previous run, which was aborted.
    Abort,
}

/// A replacement that has a place in the queue and has reserved its key.
pub struct HeldReplacement<O, F, R> {
    pub submission: Submission<O, F, R>,
    pub policy: ReplacePolicy,
    pub reservation: KeyReservation,
    pub wait: ReplaceWait,
}

/// What a replacement does next.
pub enum ReplaceStep<O, F, R> {
    /// It is over: it failed.
    Failed(ReplaceError<Job<O, F, R>>),
    /// Wait for a place in the queue.
    AwaitSlot(Replacement<O, F, R>),
    /// Wait for the end of the previous run, as long as given.
    AwaitEnd {
        held: HeldReplacement<O, F, R>,
        run_id: TaskRunId,
        limit: Option<Duration>,
        /// Whether the previous run is to be aborted first.
        abort: bool,
        event: Option<TaskEvent>,
    },
    /// Register the new run, under an identity that is not in use.
    Submit { held: HeldReplacement<O, F, R>, event: Option<TaskEvent> },
    /// The new run is registered: give it the key.
    Registered {
        job: Job<O, F, R>,
        group: Option<u64>,
        reservation: KeyReservation,
        event: Option<TaskEvent>,
    },
}

impl<O, F, R> Replacement<O, F, R> {
    /// The group of the new run is one of this scheduler.
    pub open spec fn wf(&self, scheduler: SchedulerView) -> bool {
        scheduler.has_keys(self.submission.group)
    }
}

impl<O, F, R> HeldReplacement<O, F, R> {
    /// The key was reserved in this scheduler.
    pub open spec fn wf(&self, scheduler: SchedulerView) -> bool {
        &&& scheduler.has_keys(self.submission.group)
        &&& scheduler.keys_in(self.submission.group).issued(&self.reservation)
    }

    /// The generation and the identity of the run that is replaced, where there is one.
    pub open spec fn previous(self) -> (u64, TaskRunId) {
        self.reservation.previous->0
    }

    /// What is told about a previous run that did not stop in time.
    pub open spec fn timed_out(self) -> ReplaceError<Job<O, F, R>> {
        ReplaceError::TimedOut {
            job: self.submission.job,
            previous: KeyStatus {
                generation: self.previous().0,
                run_id: Some(self.previous().1),
                replacing: false,
            },
        }
    }
}

/// The keys after a reservation that replaces the holder.
pub open spec fn holds_key<O, F, R>(
    replacement: Replacement<O, F, R>,
    cleared: KeysView,
    keys: KeysView,
    held: HeldReplacement<O, F, R>,
) -> bool {
    &&& held == (HeldReplacement {
        submission: replacement.submission,
        policy: replacement.policy,
        reservation: KeyReservation {
            key: replacement.key,
            token: held.reservation.token,
            generation: (cleared.last_generation(replacement.key@) + 1) as u64,
            previous: cleared.replaced(replacement.key@),
        },
        wait: ReplaceWait::Grace,
    })
    &&& keys == cleared.reserved(replacement.key@, held.reservation.token)
}

/// What a replacement did that has a place in the queue: it reserves its key and asks the
/// run that holds it to stop.
pub open spec fn reserves<O, F, R>(
    before: SchedulerView,
    after: SchedulerView,
    replacement: Replacement<O, F, R>,
    now: Instant,
    step: ReplaceStep<O, F, R>,
) -> bool {
    let job = replacement.submission.job;
    let group = replacement.submission.group;
    let key = replacement.key@;
    let waits = replacement.policy.mode_spec() == ReplaceMode::AfterConfirmedStop;
    let cleared = cleared_keys(before.keys_in(group)@, before.runs, key);
    let keys = after.keys_in(group);
    if cleared.blocks(key, true) {
        &&& step == ReplaceStep::<O, F, R>::Failed(
            ReplaceError::Busy { job, current: cleared.current[key].described() },
        )
        &&& after == before.with_keys(group, keys)
        &&& keys@ == cleared
    } else if cleared.last_generation(key) == u64::MAX {
        &&& step == ReplaceStep::<O, F, R>::Failed(ReplaceError::GenerationExhausted(job))
        &&& after == before.with_keys(group, keys)
        &&& keys@ == cleared
    } else {
        match cleared.replaced(key) {
            None => {
                &&& step matches ReplaceStep::Submit { held, event }
                &&& event is None
                &&& after == before.with_keys(group, keys)
                &&& holds_key(replacement, cleared, keys@, held)
                &&& held.wf(after)
            },
            Some((_, run_id)) => if waits && replacement.caller == Some(run_id) {
                &&& step == ReplaceStep::<O, F, R>::Failed(
                    ReplaceError::SelfReplacementRequiresOverlap(job),
                )
                &&& after == before.with_keys(group, keys)
                &&& keys@ == keys_after(cleared, key, None)
            } else {
                &&& after == (SchedulerView {
                    runs: after.runs,
                    observability: after.observability,
                    ..before.with_keys(group, keys)
                })
                &&& if waits {
                    &&& step matches ReplaceStep::AwaitEnd { held, run_id: of, limit, abort, event }
                    &&& of == run_id
                    &&& limit == Some(replacement.policy.grace())
                    &&& !abort
                    &&& holds_key(replacement, cleared, keys@, held)
                    &&& held.wf(after)
                    &&& cancelled_in(before, after, run_id, CancelReason::Replaced, now, event)
                } else {
                    &&& step matches ReplaceStep::Submit { held, event }
                    &&& holds_key(replacement, cleared, keys@, held)
                    &&& held.wf(after)
                    &&& cancelled_in(before, after, run_id, CancelReason::Replaced, now, event)
                }
            },
        }
    }
}

impl Scheduler {
    /// Begins the replacement of the run that holds a key of a group, or of no group. A
    /// group that takes no runs refuses first, then the scheduler and the lane.
    pub fn begin_replace<O, F, R>(
        &self,
        group: Option<u64>,
        key: String,
        job: Job<O, F, R>,
        policy: ReplacePolicy,
        caller: Option<TaskRunId>,
    ) -> (result: Result<Replacement<O, F, R>, ReplaceError<Job<O, F, R>>>)
        requires
            self.wf(),
        ensures
            if group matches Some(generation) && self@.group_state(generation) != GroupState::Open {
                result == Err::<Replacement<O, F, R>, ReplaceError<Job<O, F, R>>>(
                    ReplaceError::Submit(TrySubmitError::Closed(job)),
                )
            } else {
                match self@.lane_refusal(job.lane@) {
                    Some(failure) => {
                        &&& result matches Err(ReplaceError::Submit(error))
                        &&& error.failure() == failure
                        &&& error.job() == job
                    },
                    None => {
                        &&& result matches Ok(replacement)
                        &&& replacement == (Replacement {
                            submission: Submission { job, lane: self@.lanes[job.lane@], group },
                            key,
                            policy,
                            caller,
                        })
                        &&& replacement.wf(self@)
                    },
                }
            },
    {
        if let Some(generation) = group {
            if self.state_of(generation) != GroupState::Open {
                return Err(ReplaceError::Submit(TrySubmitError::Closed(job)));
            }
        }
        match self.begin_submit(job, group) {
            Ok(submission) => Ok(Replacement { submission, key, policy, caller }),
            Err(error) => Err(ReplaceError::Submit(error)),
        }
    }

    /// Takes a replacement on that asked for a place in the queue of its lane.
    pub fn replace_slot<O, F, R>(
        &mut self,
        replacement: Replacement<O, F, R>,
        slot: SlotOutcome,
        now: Instant,
    ) -> (step: ReplaceStep<O, F, R>)
        requires
            old(self).wf(),
            replacement.wf(old(self)@),
        ensures
            final(self).wf(),
            old(self)@.kept_by(final(self)@),
            match Scheduler::after_slot(old(self)@, replacement.submission.lane.config, slot) {
                SlotStep::Refuse(failure) => {
                    &&& step matches ReplaceStep::Failed(ReplaceError::Submit(error))
                    &&& error.failure() == failure
                    &&& error.job() == replacement.submission.job
                    &&& final(self)@ == old(self)@
                },
                SlotStep::Wait => {
                    &&& step == ReplaceStep::AwaitSlot(replacement)
                    &&& final(self)@ == old(self)@
                },
                SlotStep::Commit => reserves(old(self)@, final(self)@, replacement, now, step),
            },
    {
        match self.slot_step(replacement.submission.lane.config, slot) {
            SlotStep::Refuse(failure) => {
                let error = TrySubmitError::of(failure, replacement.submission.job);
                ReplaceStep::Failed(ReplaceError::Submit(error))
            },
            SlotStep::Wait => ReplaceStep::AwaitSlot(replacement),
            SlotStep::Commit => self.reserve_replaced(replacement, now),
        }
    }

    fn reserve_replaced<O, F, R>(&mut self, replacement: Replacement<O, F, R>, now: Instant) -> (
    step: ReplaceStep<O, F, R>)
        requires
            old(self).wf(),
            replacement.wf(old(self)@),
        ensures
            final(self).wf(),
            old(self)@.kept_by(final(self)@),
            reserves(old(self)@, final(self)@, replacement, now, step),
    {
        let ghost before = self@;
        let ghost whole = replacement;
        let Replacement { submission, key, policy, caller } = replacement;
        let Submission { job, lane, group } = submission;
        let ghost name = key@;
        let ghost cleared = cleared_keys(before.keys_in(group)@, before.runs, name);
        let mut keys = self.take_keys(group);
        let ghost left = self@.keys_in(group);
        let begun = begin_replace(&mut keys, &self.runs, key, job);
        let ghost held_keys = keys;
        proof {
            before.lemma_with_keys(group, left, held_keys);
            before.lemma_with_keys(group, held_keys, held_keys);
        }
        self.put_keys(group, keys);
        let (reservation, job) = match begun {
            Ok(begun) => begun,
            Err(error) => {
                return ReplaceStep::Failed(error);
            },
        };
        let previous: Option<(u64, TaskRunId)> = reservation.previous;
        let waits: bool = policy.mode() == ReplaceMode::AfterConfirmedStop;
        match previous {
            None => {
                let submission = Submission { job, lane, group };
                let held = HeldReplacement {
                    submission,
                    policy,
                    reservation,
                    wait: ReplaceWait::Grace,
                };
                ReplaceStep::Submit { held, event: None }
            },
            Some((_, run_id)) => {
                let itself: bool = match caller {
                    Some(caller) => caller == run_id,
                    None => false,
                };
                if waits && itself {
                    let ghost reserved = self@;
                    self.end_in(group, reservation, None);
                    proof {
                        let keys = self@.keys_in(group);
                        before.lemma_with_keys(group, held_keys, keys);
                        assert(cleared.current.contains_key(name));
                        assert(!run_over(before.runs, run_id));
                        assert(keys@ =~= keys_after(cleared, name, None));
                    }
                    return ReplaceStep::Failed(ReplaceError::SelfReplacementRequiresOverlap(job));
                }
                let (_, event) = self.cancel(run_id, CancelReason::Replaced, now);
                let submission = Submission { job, lane, group };
                let held = HeldReplacement {
                    submission,
                    policy,
                    reservation,
                    wait: ReplaceWait::Grace,
                };
                if waits {
                    let limit: Option<Duration> = Some(policy.grace_period());
                    ReplaceStep::AwaitEnd { held, run_id, limit, abort: false, event }
                } else {
                    ReplaceStep::Submit { held, event }
                }
            },
        }
    }

    /// Takes a replacement on whose wait for the end of the previous run is over: the new
    /// run comes only after that end.
    pub fn replace_waited<O, F, R>(&mut self, held: HeldReplacement<O, F, R>) -> (step:
        ReplaceStep<O, F, R>)
        requires
            old(self).wf(),
            held.wf(old(self)@),
        ensures
            final(self).wf(),
            old(self)@.kept_by(final(self)@),
            if held.reservation.previous is None || run_over(
                old(self)@.runs,
                held.previous().1,
            ) {
                &&& step == (ReplaceStep::<O, F, R>::Submit { held, event: None })
                &&& final(self)@ == old(self)@
            } else if held.wait == ReplaceWait::Unlimited || held.wait == ReplaceWait::Grace
                && held.policy.on_timeout() == ReplaceTimeoutAction::ContinueWait {
                &&& step == (ReplaceStep::<O, F, R>::AwaitEnd {
                    held: HeldReplacement { wait: ReplaceWait::Unlimited, ..held },
                    run_id: held.previous().1,
                    limit: None,
                    abort: false,
                    event: None,
                })
                &&& final(self)@ == old(self)@
            } else if held.wait == ReplaceWait::Grace && held.policy.on_timeout() is Abort {
                let run_id = held.previous().1;
                let i = run_place(old(self)@.runs, run_id);
                let run = old(self)@.runs[i];
                let aborts = has_run(old(self)@.runs, run_id) && !run.terminal
                    && !run.abort_requested && run.abortable;
                &&& step == (ReplaceStep::<O, F, R>::AwaitEnd {
                    held: HeldReplacement { wait: ReplaceWait::Abort, ..held },
                    run_id,
                    limit: Some(held.policy.on_timeout()->confirmation_timeout),
                    abort: aborts,
                    event: None,
                })
                &&& final(self)@ == if aborts {
                    SchedulerView {
                        runs: old(self)@.runs.update(
                            i,
                            RunShared { abort_requested: true, ..run },
                        ),
                        ..old(self)@
                    }
                } else {
                    old(self)@
                }
            } else {
                &&& step == ReplaceStep::Failed(held.timed_out())
                &&& ended_key(
                    old(self)@,
                    final(self)@,
                    held.submission.group,
                    held.reservation,
                    None,
                    false,
                )
            },
    {
        let (generation, run_id): (u64, TaskRunId) = match held.reservation.previous {
            Some(previous) => previous,
            None => {
                return ReplaceStep::Submit { held, event: None };
            },
        };
        if is_over(&self.runs, run_id) {
            return ReplaceStep::Submit { held, event: None };
        }
        let action: ReplaceTimeoutAction = match held.wait {
            ReplaceWait::Grace => held.policy.timeout_action(),
            ReplaceWait::Unlimited => ReplaceTimeoutAction::ContinueWait,
            ReplaceWait::Abort => ReplaceTimeoutAction::Fail,
        };
        match action {
            ReplaceTimeoutAction::ContinueWait => {
                let held = HeldReplacement { wait: ReplaceWait::Unlimited, ..held };
                ReplaceStep::AwaitEnd { held, run_id, limit: None, abort: false, event: None }
            },
            ReplaceTimeoutAction::Abort { confirmation_timeout } => {
                let ghost before = self@;
                let abort: bool = self.request_abort(run_id);
                proof {
                    let i = run_place(before.runs, run_id);
                    if has_run(before.runs, run_id) {
                        if abort {
                            assert(self@.runs =~= before.runs.update(
                                i,
                                RunShared { abort_requested: true, ..before.runs[i] },
                            ));
                        } else {
                            assert(self@.runs =~= before.runs);
                        }
                    }
                }
                let held = HeldReplacement { wait: ReplaceWait::Abort, ..held };
                let limit: Option<Duration> = Some(confirmation_timeout);
                ReplaceStep::AwaitEnd { held, run_id, limit, abort, event: None }
            },
            ReplaceTimeoutAction::Fail => {
                let previous = KeyStatus { generation, run_id: Some(run_id), replacing: false };
                self.end_in(held.submission.group, held.reservation, None);
                ReplaceStep::Failed(ReplaceError::TimedOut { job: held.submission.job, previous })
            },
        }
    }

    /// Registers the new run of a replacement, unless the key was stopped or taken
    /// meanwhile. An identity that is in use leaves everything as it was.
    pub fn replace_submit<O, F, R>(
        &mut self,
        held: HeldReplacement<O, F, R>,
        run_id: TaskRunId,
        now: Instant,
    ) -> (step: ReplaceStep<O, F, R>)
        requires
            old(self).wf(),
            held.wf(old(self)@),
        ensures
            final(self).wf(),
            old(self)@.kept_by(final(self)@),
            ({
                let Submission { job, lane, group } = held.submission;
                let reservation = held.reservation;
                let keyed = keyed_job(job, reservation.key, reservation.generation);
                let refusal = Scheduler::commit_refusal(
                    old(self)@,
                    job.lane@,
                    lane.generation,
                    group,
                );
                if has_run(old(self)@.runs, run_id) {
                    &&& step == (ReplaceStep::<O, F, R>::Submit { held, event: None })
                    &&& final(self)@ == old(self)@
                } else if !old(self)@.keys_in(group)@.active(reservation.key@, reservation.token) {
                    &&& step == ReplaceStep::<O, F, R>::Failed(ReplaceError::Superseded(job))
                    &&& ended_key(old(self)@, final(self)@, group, reservation, None, false)
                } else if refusal is Some {
                    &&& step matches ReplaceStep::Failed(ReplaceError::Submit(error))
                    &&& Some(error.failure()) == refusal
                    &&& error.job() == keyed
                    &&& ended_key(old(self)@, final(self)@, group, reservation, None, false)
                } else {
                    &&& step matches ReplaceStep::Registered {
                        job: back,
                        group: of,
                        reservation: kept,
                        event,
                    }
                    &&& back == keyed
                    &&& of == group
                    &&& kept == reservation
                    &&& final(self)@ == (SchedulerView {
                        runs: final(self)@.runs,
                        observability: old(self)@.observability.published(),
                        ..old(self)@
                    })
                    &&& final(self)@.runs == old(self)@.runs.push(final(self)@.runs.last())
                    &&& accepted_run(
                        final(self)@.runs.last(),
                        keyed,
                        run_id,
                        lane.generation,
                        group,
                        old(self)@.group_paused(group),
                        old(self)@.observability,
                        now,
                    )
                    &&& final(self)@.runs.last().publishes(
                        TaskEventKind::Submitted,
                        old(self)@.observability,
                        event,
                    )
                }
            }),
    {
        if let Some(at) = find_run(&self.runs, run_id) {
            proof {
                lemma_run_place(self@.runs, at as int);
            }
            return ReplaceStep::Submit { held, event: None };
        }
        let HeldReplacement { submission, policy: _, reservation, wait: _ } = held;
        let Submission { job, lane, group } = submission;
        let active: bool = match group {
            None => self.keys.is_active(&reservation),
            Some(generation) => match self.groups.position(generation) {
                Some(at) => self.groups.entries[at].keys.is_active(&reservation),
                None => false,
            },
        };
        if !active {
            self.end_in(group, reservation, None);
            return ReplaceStep::Failed(ReplaceError::Superseded(job));
        }
        let job = Job {
            key: Some(reservation.key.clone()),
            key_generation: Some(reservation.generation),
            ..job
        };
        match self.commit(job, lane.generation, group, run_id, now) {
            Ok((job, event)) => ReplaceStep::Registered { job, group, reservation, event },
            Err(CommitError::Refused(error)) => {
                self.end_in(group, reservation, None);
                ReplaceStep::Failed(ReplaceError::Submit(error))
            },
            Err(CommitError::IdentityTaken(job)) => {
                assert(false);
                self.end_in(group, reservation, None);
                ReplaceStep::Failed(ReplaceError::Superseded(job))
            },
        }
    }

    /// Gives the key to the new run of a replacement; says whether it got it. A run that
    /// lost the key meanwhile is asked to stop.
    pub fn replace_registered(
        &mut self,
        group: Option<u64>,
        reservation: KeyReservation,
        run_id: TaskRunId,
        now: Instant,
    ) -> (result: (bool, Option<TaskEvent>))
        requires
            old(self).wf(),
            old(self)@.has_keys(group),
            old(self)@.keys_in(group).issued(&reservation),
        ensures
            final(self).wf(),
            old(self)@.kept_by(final(self)@),
            if result.0 {
                &&& result.1 is None
                &&& ended_key(old(self)@, final(self)@, group, reservation, Some(run_id), true)
            } else {
                exists|ended: SchedulerView|
                    {
                        &&& #[trigger] ended_key(
                            old(self)@,
                            ended,
                            group,
                            reservation,
                            Some(run_id),
                            false,
                        )
                        &&& final(self)@ == (SchedulerView {
                            runs: final(self)@.runs,
                            observability: final(self)@.observability,
                            ..ended
                        })
                        &&& cancelled_in(
                            ended,
                            final(self)@,
                            run_id,
                            CancelReason::User,
                            now,
                            result.1,
                        )
                    }
            },
    {
        let committed: bool = self.end_in(group, reservation, Some(run_id));
        if committed {
            return (true, None);
        }
        let ghost ended = self@;
        let (_, event) = self.cancel(run_id, CancelReason::User, now);
        (false, event)
    }

    /// Gives up a replacement that has reserved its key: the run that was to be replaced
    /// holds it again.
    pub fn replace_abandoned(&mut self, group: Option<u64>, reservation: KeyReservation)
        requires
            old(self).wf(),
            old(self)@.has_keys(group),
            old(self)@.keys_in(group).issued(&reservation),
        ensures
            final(self).wf(),
            old(self)@.kept_by(final(self)@),
            ended_key(old(self)@, final(self)@, group, reservation, None, false),
    {
        self.end_in(group, reservation, None);
    }
}

/// A replacement that has reserved its key keeps what its next step needs, whatever the
/// scheduler does meanwhile.
pub proof fn lemma_replacement_outlasts_operations<O, F, R>(
    held: HeldReplacement<O, F, R>,
    before: SchedulerView,
    after: SchedulerView,
)
    requires
        held.wf(before),
        before.kept_by(after),
    ensures
        held.wf(after),
{
    let group = held.submission.group;
    let key = held.reservation.key@;
    assert(before.has_keys(group));
    assert(before.keys_in(group)@.last_generation(key) <= after.keys_in(
        group,
    )@.last_generation(key));
}

/// A replacement fails while another submission has the key or its generations are used up,
/// and where a run would wait for its own end. Else it reserves the key in the next
/// generation and asks the run that holds it to stop: it waits for that end, up to the grace
/// period, if it is told to, and else comes at once.
pub proof fn lemma_how_replacements_go_on<O, F, R>(
    before: SchedulerView,
    after: SchedulerView,
    replacement: Replacement<O, F, R>,
    now: Instant,
    step: ReplaceStep<O, F, R>,
)
    requires
        reserves(before, after, replacement, now, step),
    ensures
        ({
            let group = replacement.submission.group;
            let key = replacement.key@;
            let cleared = cleared_keys(before.keys_in(group)@, before.runs, key);
            let held = cleared.current.contains_key(key);
            let waits = replacement.policy.mode_spec() == ReplaceMode::AfterConfirmedStop;
            let free = cleared.last_generation(key) < u64::MAX;
            &&& held && cleared.current[key] is Reserved ==> step == ReplaceStep::<
                O,
                F,
                R,
            >::Failed(
                ReplaceError::Busy {
                    job: replacement.submission.job,
                    current: cleared.current[key].described(),
                },
            )
            &&& !free ==> step is Failed
            &&& step is Failed ==> after.runs == before.runs && after.observability
                == before.observability && after.keys_in(group)@.current == cleared.current
            &&& held && cleared.current[key] is Reserved ==> after.keys_in(group)@.generations
                == cleared.generations
            &&& !free ==> after.keys_in(group)@.generations == cleared.generations
            &&& after.lanes == before.lanes && after.lifecycle == before.lifecycle
            &&& step is Submit || step is AwaitEnd ==> {
                &&& after.keys_in(group)@.current.contains_key(key)
                &&& after.keys_in(group)@.current[key] is Reserved
                &&& after.keys_in(group)@.current[key]->Reserved_generation
                    == cleared.last_generation(key) + 1
                &&& after.keys_in(group)@.last_generation(key) == cleared.last_generation(key) + 1
            }
            &&& !held && free ==> step is Submit && after.runs == before.runs
            &&& held && cleared.current[key] is Running && free ==> {
                let run_id = cleared.current[key]->run_id;
                &&& waits && replacement.caller == Some(run_id) ==> step == ReplaceStep::<
                    O,
                    F,
                    R,
                >::Failed(
                    ReplaceError::SelfReplacementRequiresOverlap(replacement.submission.job),
                )
                &&& waits && replacement.caller != Some(run_id) ==> {
                    &&& step matches ReplaceStep::AwaitEnd { held, run_id: of, limit, abort, event }
                    &&& of == run_id
                    &&& limit == Some(replacement.policy.grace())
                    &&& !abort
                    &&& held.reservation.previous matches Some(previous) && previous.1 == run_id
                    &&& held.reservation.generation == cleared.last_generation(key) + 1
                    &&& held.reservation.key == replacement.key
                    &&& held.submission == replacement.submission
                }
                &&& !waits ==> {
                    &&& step matches ReplaceStep::Submit { held, event }
                    &&& held.reservation.previous matches Some(previous) && previous.1 == run_id
                    &&& held.reservation.generation == cleared.last_generation(key) + 1
                    &&& held.submission == replacement.submission
                }
                &&& !(step is Failed) ==> forall|i: int|
                    0 <= i < before.runs.len() ==> {
                        &&& before.runs[i].run_id != run_id ==> #[trigger] after.runs[i]
                            == before.runs[i]
                        &&& before.runs[i].run_id == run_id && before.runs[i].accepts_cancel()
                            ==> after.runs[i].cancellation.reason == Some(CancelReason::Replaced)
                    }
            }
        }),
{
}

/// A previous run that did not stop in time is told with its generation, and the job comes
/// back.
pub proof fn lemma_what_is_told_of_a_late_run<O, F, R>(held: HeldReplacement<O, F, R>)
    requires
        held.reservation.previous is Some,
    ensures
        held.timed_out() matches ReplaceError::TimedOut { job, previous } && {
            &&& job == held.submission.job
            &&& previous.generation == (held.reservation.previous->0).0
            &&& previous.run_id == Some((held.reservation.previous->0).1)
            &&& !previous.replacing
        },
{
}

} // verus!
