//! What supervises the shutdown of an executor: which work it asks to stop, how long it
//! waits, what it drops, and what it reports.

use crate::execution::{
    ExecutionKind, ForcedCancellationError, ForcedCancellationOutcome, TaskExitSummary,
    TaskSnapshot,
};
use crate::ids::ExecutionId;
use crate::order::{ascending, in_order, Identified};
use crate::shutdown::{
    final_cleanup_outcome, final_outcome, reported_cleanup, CleanupOutcome, CleanupPhase,
    CleanupProgress, ShutdownMode, ShutdownOptions, ShutdownTimeoutAction,
};
use crate::time::{Duration, Instant};
use vstd::prelude::*;

verus! {

/// A callback that panicked.
#[derive(Debug)]
pub struct CallbackFailure {
    pub message: String,
}

/// A worker that failed.
#[derive(Debug)]
pub struct WorkerFailure {
    pub message: String,
}

/// What became of one execution of an executor that shut down.
#[derive(Debug)]
pub struct TaskShutdownRecord {
    pub execution_id: ExecutionId,
    pub snapshot_at_start: TaskSnapshot,
    pub grace_deadline_exceeded: bool,
    pub forced_cancellation_requested: bool,
    pub final_exit: TaskExitSummary,
    pub cleanup: CleanupOutcome,
}

impl Identified for TaskShutdownRecord {
    open spec fn identity(&self) -> u128 {
        self.execution_id.0
    }

    fn read_identity(&self) -> (id: u128) {
        self.execution_id.0
    }
}

/// Where one execution of an executor that shuts down stands.
#[derive(Debug)]
pub struct TaskShutdownProgressRecord {
    pub execution_id: ExecutionId,
    pub snapshot_at_start: TaskSnapshot,
    pub grace_deadline_exceeded: bool,
    pub forced_cancellation_requested: bool,
    pub final_exit: Option<TaskExitSummary>,
    pub cleanup: CleanupProgress,
}

/// What a shutdown reports when its grace period is over.
#[derive(Debug)]
pub struct ShutdownReportSnapshot {
    pub tasks: Vec<TaskShutdownProgressRecord>,
    pub callback_failures: Vec<CallbackFailure>,
    pub worker_failures: Vec<WorkerFailure>,
    pub elapsed: Duration,
}

/// What a shutdown reports in the end.
#[derive(Debug)]
pub struct ShutdownReport {
    pub tasks: Vec<TaskShutdownRecord>,
    pub callback_failures: Vec<CallbackFailure>,
    pub worker_failures: Vec<WorkerFailure>,
    pub elapsed: Duration,
}

/// One execution that the shutdown supervises.
#[derive(Debug)]
pub struct Supervised {
    /// The execution when the shutdown began.
    pub initial: TaskSnapshot,
    /// Whether it outlived the grace period.
    pub exceeded: bool,
    /// Whether a request to drop it was accepted, or had been before.
    pub forced: bool,
}

/// What a shutdown asks of lanes and executions when it begins.
#[derive(Debug)]
pub struct StopPlan {
    /// Whether lanes cancel what they hold, besides closing.
    pub cancel_lanes: bool,
    /// Which of the executions are asked to stop.
    pub cancel: Vec<bool>,
}

/// How long a shutdown waits.
#[derive(Clone, Copy, Debug, Eq, PartialEq, Structural)]
pub enum GraceWait {
    /// Until everything is over.
    Unlimited,
    /// Until everything is over, after it was made known that there is no timer.
    TimerUnavailable,
    /// Until everything is over, or the grace period is.
    Until(Instant),
}

/// What the grace period leaves of one execution.
#[derive(Debug)]
pub struct Progress {
    pub current: TaskSnapshot,
    pub terminal: bool,
    pub cleanup: CleanupProgress,
}

/// How one execution ended.
#[derive(Debug)]
pub struct Ending {
    pub final_exit: TaskExitSummary,
    pub cleanup: CleanupProgress,
}

/// Supervises the shutdown of an executor.
#[derive(Debug)]
pub struct ShutdownSupervisor {
    pub options: ShutdownOptions,
    pub accepted_at: Instant,
    pub grace_deadline: Instant,
    pub tasks: Vec<Supervised>,
}

/// Whether a shutdown asks an execution to stop: all of them, or those that would not
/// end by themselves.
pub open spec fn stops(mode: ShutdownMode, kind: ExecutionKind) -> bool {
    mode == ShutdownMode::CancelAll || kind != ExecutionKind::Finite
}

/// Whether a request to drop an execution was accepted, or had been before.
pub open spec fn drop_requested(
    outcome: Result<ForcedCancellationOutcome, ForcedCancellationError>,
) -> bool {
    outcome matches Ok(accepted) && accepted != ForcedCancellationOutcome::AlreadyTerminal
}

/// What is reported of an execution when the grace period is over.
pub open spec fn progress_record(task: Supervised, progress: Progress)
    -> TaskShutdownProgressRecord {
    TaskShutdownProgressRecord {
        execution_id: task.initial.execution_id,
        snapshot_at_start: task.initial,
        grace_deadline_exceeded: task.exceeded,
        forced_cancellation_requested: task.forced,
        final_exit: progress.current.final_exit,
        cleanup: reported_cleanup(progress.cleanup, progress.terminal),
    }
}

/// Whether a record tells how an execution ended.
pub open spec fn records(task: Supervised, ending: Ending, record: TaskShutdownRecord) -> bool {
    &&& record == (TaskShutdownRecord {
        execution_id: task.initial.execution_id,
        snapshot_at_start: task.initial,
        grace_deadline_exceeded: task.exceeded,
        forced_cancellation_requested: task.forced,
        final_exit: ending.final_exit,
        cleanup: record.cleanup,
    })
    &&& final_outcome(ending.cleanup, record.cleanup)
}

/// Whether records tell how all executions ended, each in its place.
pub open spec fn records_all(
    tasks: Seq<Supervised>,
    endings: Seq<Ending>,
    entries: Seq<TaskShutdownRecord>,
) -> bool {
    &&& entries.len() == tasks.len()
    &&& forall|i: int|
        0 <= i < tasks.len() ==> records(tasks[i], endings[i], #[trigger] entries[i])
}

impl ShutdownSupervisor {
    /// The executions that were there when the shutdown began, in the same order.
    pub open spec fn watches(&self, initial: Seq<TaskSnapshot>) -> bool {
        &&& self.tasks.len() == initial.len()
        &&& forall|i: int|
            0 <= i < initial.len() ==> (#[trigger] self.tasks@[i]).initial == initial[i]
    }

    /// Starts to supervise the executions that are there when the shutdown begins.
    pub fn new(
        options: ShutdownOptions,
        accepted_at: Instant,
        grace_deadline: Instant,
        initial: &Vec<TaskSnapshot>,
    ) -> (supervisor: Self)
        ensures
            supervisor.options == options,
            supervisor.accepted_at == accepted_at,
            supervisor.grace_deadline == grace_deadline,
            supervisor.watches(initial@),
            forall|i: int|
                0 <= i < initial.len() ==> !(#[trigger] supervisor.tasks@[i]).exceeded
                    && !supervisor.tasks@[i].forced,
    {
        let mut tasks: Vec<Supervised> = Vec::new();
        let mut at: usize = 0;
        while at < initial.len()
            invariant
                at <= initial.len(),
                tasks.len() == at,
                forall|i: int|
                    0 <= i < at ==> (#[trigger] tasks@[i]) == (Supervised {
                        initial: initial@[i],
                        exceeded: false,
                        forced: false,
                    }),
            decreases initial.len() - at,
        {
            tasks.push(
                Supervised { initial: initial[at].clone(), exceeded: false, forced: false },
            );
            at = at + 1;
        }
        ShutdownSupervisor { options, accepted_at, grace_deadline, tasks }
    }

    /// What the shutdown asks of lanes and executions when it begins.
    pub fn plan(&self) -> (plan: StopPlan)
        ensures
            plan.cancel_lanes == (self.options.mode == ShutdownMode::CancelAll),
            plan.cancel.len() == self.tasks.len(),
            forall|i: int|
                0 <= i < self.tasks.len() ==> (#[trigger] plan.cancel@[i]) == stops(
                    self.options.mode,
                    self.tasks@[i].initial.kind,
                ),
    {
        let cancel_all: bool = self.options.mode == ShutdownMode::CancelAll;
        let mut cancel: Vec<bool> = Vec::new();
        let mut at: usize = 0;
        while at < self.tasks.len()
            invariant
                at <= self.tasks.len(),
                cancel.len() == at,
                cancel_all == (self.options.mode == ShutdownMode::CancelAll),
                forall|i: int|
                    0 <= i < at ==> (#[trigger] cancel@[i]) == stops(
                        self.options.mode,
                        self.tasks@[i].initial.kind,
                    ),
            decreases self.tasks.len() - at,
        {
            cancel.push(cancel_all || self.tasks[at].initial.kind != ExecutionKind::Finite);
            at = at + 1;
        }
        StopPlan { cancel_lanes: cancel_all, cancel }
    }

    /// How long the shutdown waits.
    pub fn wait(&self, timer_available: bool) -> (wait: GraceWait)
        ensures
            wait == if self.options.timeout_action == ShutdownTimeoutAction::Wait {
                GraceWait::Unlimited
            } else if timer_available {
                GraceWait::Until(self.grace_deadline)
            } else {
                GraceWait::TimerUnavailable
            },
    {
        if self.options.timeout_action == ShutdownTimeoutAction::Wait {
            GraceWait::Unlimited
        } else if timer_available {
            GraceWait::Until(self.grace_deadline)
        } else {
            GraceWait::TimerUnavailable
        }
    }

    /// Records which executions outlived the grace period, and says which of them are
    /// asked to be dropped: all, or none.
    pub fn grace_over(&mut self, pending: &Vec<bool>) -> (force: Vec<bool>)
        requires
            pending.len() == old(self).tasks.len(),
        ensures
            *final(self) == (ShutdownSupervisor { tasks: final(self).tasks, ..*old(self) }),
            final(self).tasks.len() == old(self).tasks.len(),
            force.len() == pending.len(),
            forall|i: int|
                0 <= i < pending.len() ==> (#[trigger] final(self).tasks@[i]) == (Supervised {
                    exceeded: pending@[i],
                    ..old(self).tasks@[i]
                }),
            forall|i: int|
                0 <= i < pending.len() ==> (#[trigger] force@[i]) == (pending@[i]
                    && old(self).options.timeout_action == ShutdownTimeoutAction::AbortAllowed),
    {
        let abort: bool = self.options.timeout_action == ShutdownTimeoutAction::AbortAllowed;
        let ghost before = *self;
        let mut force: Vec<bool> = Vec::new();
        let mut at: usize = 0;
        while at < self.tasks.len()
            invariant
                at <= self.tasks.len(),
                force.len() == at,
                pending.len() == before.tasks.len(),
                self.tasks.len() == before.tasks.len(),
                *self == (ShutdownSupervisor { tasks: self.tasks, ..before }),
                forall|i: int|
                    0 <= i < at ==> (#[trigger] self.tasks@[i]) == (Supervised {
                        exceeded: pending@[i],
                        ..before.tasks@[i]
                    }),
                forall|i: int|
                    at <= i < self.tasks.len() ==> (#[trigger] self.tasks@[i])
                        == before.tasks@[i],
                forall|i: int| 0 <= i < at ==> (#[trigger] force@[i]) == (pending@[i] && abort),
            decreases self.tasks.len() - at,
        {
            self.tasks[at].exceeded = pending[at];
            force.push(pending[at] && abort);
            at = at + 1;
        }
        force
    }

    /// Records how an execution answered the request to be dropped.
    pub fn forced(
        &mut self,
        at: usize,
        outcome: Result<ForcedCancellationOutcome, ForcedCancellationError>,
    )
        requires
            at < old(self).tasks.len(),
        ensures
            *final(self) == (ShutdownSupervisor { tasks: final(self).tasks, ..*old(self) }),
            final(self).tasks@ == old(self).tasks@.update(
                at as int,
                Supervised {
                    forced: old(self).tasks@[at as int].forced || drop_requested(outcome),
                    ..old(self).tasks@[at as int]
                },
            ),
    {
        match outcome {
            Ok(ForcedCancellationOutcome::Requested) => {
                self.tasks[at].forced = true;
            },
            Ok(ForcedCancellationOutcome::AlreadyRequested) => {
                self.tasks[at].forced = true;
            },
            _ => {},
        }
        assert(self.tasks@ =~= old(self).tasks@.update(
            at as int,
            Supervised {
                forced: old(self).tasks@[at as int].forced || drop_requested(outcome),
                ..old(self).tasks@[at as int]
            },
        ));
    }

    /// What is reported when the grace period is over: one record for each execution, in
    /// the order in which they were found.
    pub fn timed_out(
        &self,
        progress: Vec<Progress>,
        callback_failures: Vec<CallbackFailure>,
        now: Instant,
    ) -> (snapshot: ShutdownReportSnapshot)
        requires
            progress.len() == self.tasks.len(),
        ensures
            snapshot.tasks.len() == self.tasks.len(),
            forall|i: int|
                0 <= i < self.tasks.len() ==> (#[trigger] snapshot.tasks@[i]) == progress_record(
                    self.tasks@[i],
                    progress@[i],
                ),
            snapshot.callback_failures == callback_failures,
            snapshot.worker_failures.len() == 0,
            snapshot.elapsed@ == if self.accepted_at@ <= now@ {
                (now@ - self.accepted_at@) as nat
            } else {
                0
            },
    {
        let ghost all = progress@;
        let mut rest = progress;
        let mut reversed: Vec<TaskShutdownProgressRecord> = Vec::new();
        while rest.len() > 0
            invariant
                rest.len() + reversed.len() == all.len(),
                all.len() == self.tasks.len(),
                forall|i: int| 0 <= i < rest.len() ==> #[trigger] rest@[i] == all[i],
                forall|i: int|
                    0 <= i < reversed.len() ==> (#[trigger] reversed@[i]) == progress_record(
                        self.tasks@[all.len() - 1 - i],
                        all[all.len() - 1 - i],
                    ),
            decreases rest.len(),
        {
            if let Some(item) = rest.pop() {
                let task = &self.tasks[rest.len()];
                let cleanup: CleanupProgress = match item.cleanup {
                    CleanupProgress::NotRequired => if item.terminal {
                        CleanupProgress::Finished(CleanupOutcome::NotRequired)
                    } else {
                        CleanupProgress::Pending { phase: CleanupPhase::WorkerJoin }
                    },
                    known => known,
                };
                reversed.push(
                    TaskShutdownProgressRecord {
                        execution_id: task.initial.execution_id,
                        snapshot_at_start: task.initial.clone(),
                        grace_deadline_exceeded: task.exceeded,
                        forced_cancellation_requested: task.forced,
                        final_exit: item.current.final_exit,
                        cleanup,
                    },
                );
            }
        }
        let ghost found = reversed@;
        let mut tasks: Vec<TaskShutdownProgressRecord> = Vec::new();
        while reversed.len() > 0
            invariant
                reversed.len() + tasks.len() == found.len(),
                found.len() == self.tasks.len(),
                all.len() == self.tasks.len(),
                forall|i: int| 0 <= i < reversed.len() ==> #[trigger] reversed@[i] == found[i],
                forall|i: int|
                    0 <= i < found.len() ==> (#[trigger] found[i]) == progress_record(
                        self.tasks@[all.len() - 1 - i],
                        all[all.len() - 1 - i],
                    ),
                forall|i: int|
                    0 <= i < tasks.len() ==> (#[trigger] tasks@[i]) == progress_record(
                        self.tasks@[i],
                        all[i],
                    ),
            decreases reversed.len(),
        {
            if let Some(record) = reversed.pop() {
                tasks.push(record);
            }
        }
        ShutdownReportSnapshot {
            tasks,
            callback_failures,
            worker_failures: Vec::new(),
            elapsed: now.saturating_duration_since(self.accepted_at),
        }
    }

    /// What is reported in the end: one record for each execution, in the order of their
    /// identities.
    pub fn finished(
        &self,
        endings: Vec<Ending>,
        callback_failures: Vec<CallbackFailure>,
        worker_failures: Vec<WorkerFailure>,
        now: Instant,
    ) -> (report: ShutdownReport)
        requires
            endings.len() == self.tasks.len(),
        ensures
            ascending(report.tasks@),
            exists|found: Seq<TaskShutdownRecord>| #[trigger]
                records_all(self.tasks@, endings@, found) && found.to_multiset()
                    == report.tasks@.to_multiset(),
            report.tasks.len() == self.tasks.len(),
            report.callback_failures == callback_failures,
            report.worker_failures == worker_failures,
            report.elapsed@ == if self.accepted_at@ <= now@ {
                (now@ - self.accepted_at@) as nat
            } else {
                0
            },
    {
        let ghost all = endings@;
        let mut rest = endings;
        let mut reversed: Vec<TaskShutdownRecord> = Vec::new();
        while rest.len() > 0
            invariant
                rest.len() + reversed.len() == all.len(),
                all.len() == self.tasks.len(),
                forall|i: int| 0 <= i < rest.len() ==> #[trigger] rest@[i] == all[i],
                forall|i: int|
                    0 <= i < reversed.len() ==> records(
                        self.tasks@[all.len() - 1 - i],
                        all[all.len() - 1 - i],
                        #[trigger] reversed@[i],
                    ),
            decreases rest.len(),
        {
            if let Some(ending) = rest.pop() {
                let task = &self.tasks[rest.len()];
                reversed.push(
                    TaskShutdownRecord {
                        execution_id: task.initial.execution_id,
                        snapshot_at_start: task.initial.clone(),
                        grace_deadline_exceeded: task.exceeded,
                        forced_cancellation_requested: task.forced,
                        final_exit: ending.final_exit,
                        cleanup: final_cleanup_outcome(ending.cleanup),
                    },
                );
            }
        }
        let ghost found = reversed@.reverse();
        proof {
            lemma_reversed_multiset(reversed@);
            assert forall|i: int| 0 <= i < all.len() implies records(
                self.tasks@[i],
                all[i],
                #[trigger] found[i],
            ) by {
                let k = all.len() - 1 - i;
                assert(found[i] == reversed@[k]);
            }
            assert(records_all(self.tasks@, all, found));
        }
        let tasks = in_order(reversed);
        ShutdownReport {
            tasks,
            callback_failures,
            worker_failures,
            elapsed: now.saturating_duration_since(self.accepted_at),
        }
    }
}

proof fn lemma_reversed_multiset<A>(s: Seq<A>)
    ensures
        s.reverse().to_multiset() == s.to_multiset(),
    decreases s.len(),
{
    broadcast use vstd::seq_lib::group_to_multiset_ensures;

    if s.len() > 0 {
        let rest = s.drop_last();
        lemma_reversed_multiset(rest);
        assert(s =~= rest.push(s.last()));
        assert(s.reverse() =~= rest.reverse().insert(0, s.last()));
        assert(s.reverse().to_multiset() =~= s.to_multiset());
    } else {
        assert(s.reverse() =~= s);
    }
}

/// Whether a report tells how an execution ended.
pub open spec fn reports(report: Seq<TaskShutdownRecord>, task: Supervised, ending: Ending) -> bool {
    exists|k: int| 0 <= k < report.len() && records(task, ending, #[trigger] report[k])
}

/// Whether a record is that of one of the executions.
pub open spec fn recorded(
    tasks: Seq<Supervised>,
    endings: Seq<Ending>,
    record: TaskShutdownRecord,
) -> bool {
    exists|i: int| 0 <= i < tasks.len() && records(#[trigger] tasks[i], endings[i], record)
}

/// The final report has a record for each execution that was there when the shutdown
/// began, and for no other.
pub proof fn lemma_report_covers_every_execution(
    tasks: Seq<Supervised>,
    endings: Seq<Ending>,
    found: Seq<TaskShutdownRecord>,
    report: Seq<TaskShutdownRecord>,
)
    requires
        records_all(tasks, endings, found),
        found.to_multiset() == report.to_multiset(),
    ensures
        report.len() == tasks.len(),
        forall|i: int|
            0 <= i < tasks.len() ==> reports(report, #[trigger] tasks[i], endings[i]),
        forall|k: int|
            0 <= k < report.len() ==> recorded(tasks, endings, #[trigger] report[k]),
{
    broadcast use vstd::seq_lib::group_to_multiset_ensures;

    vstd::seq_lib::to_multiset_len(found);
    vstd::seq_lib::to_multiset_len(report);
    assert forall|i: int| 0 <= i < tasks.len() implies reports(
        report,
        #[trigger] tasks[i],
        endings[i],
    ) by {
        assert(found.contains(found[i]));
        assert(report.to_multiset().count(found[i]) > 0);
        assert(report.contains(found[i]));
        let k = choose|k: int| 0 <= k < report.len() && report[k] == found[i];
        assert(records(tasks[i], endings[i], report[k]));
    }
    assert forall|k: int| 0 <= k < report.len() implies recorded(
        tasks,
        endings,
        #[trigger] report[k],
    ) by {
        assert(report.contains(report[k]));
        assert(found.to_multiset().count(report[k]) > 0);
        assert(found.contains(report[k]));
        let i = choose|i: int| 0 <= i < found.len() && found[i] == report[k];
        assert(records(tasks[i], endings[i], report[k]));
    }
}

/// A shutdown that cancels asks every execution to stop; one that drains spares exactly those
/// that end by themselves.
pub proof fn lemma_draining_spares_finite_work(kind: ExecutionKind)
    ensures
        stops(ShutdownMode::CancelAll, kind),
        stops(ShutdownMode::DrainFinite, kind) <==> kind != ExecutionKind::Finite,
{
}

/// A drop counts as asked for when the request was taken now or had been before, and not when
/// it was refused or the execution was over.
pub proof fn lemma_which_drops_are_asked_for(
    outcome: Result<ForcedCancellationOutcome, ForcedCancellationError>,
)
    ensures
        drop_requested(outcome) <==> (outcome == Ok::<_, ForcedCancellationError>(
            ForcedCancellationOutcome::Requested,
        ) || outcome == Ok::<_, ForcedCancellationError>(
            ForcedCancellationOutcome::AlreadyRequested,
        )),
{
}

/// A record is about the execution that was found at the start: it keeps that snapshot and
/// whether the grace period was exceeded and a drop was asked for, and tells how the
/// execution and its cleanup ended.
pub proof fn lemma_records_tell_the_ending(
    task: Supervised,
    ending: Ending,
    record: TaskShutdownRecord,
    progress: Progress,
)
    ensures
        records(task, ending, record) ==> {
            &&& record.execution_id == task.initial.execution_id
            &&& record.snapshot_at_start == task.initial
            &&& record.grace_deadline_exceeded == task.exceeded
            &&& record.forced_cancellation_requested == task.forced
            &&& record.final_exit == ending.final_exit
            &&& ending.cleanup matches CleanupProgress::Finished(outcome) ==> record.cleanup
                == outcome
        },
        ({
            let shown = progress_record(task, progress);
            &&& shown.execution_id == task.initial.execution_id
            &&& shown.snapshot_at_start == task.initial
            &&& shown.grace_deadline_exceeded == task.exceeded
            &&& shown.forced_cancellation_requested == task.forced
            &&& shown.final_exit == progress.current.final_exit
            &&& !(progress.cleanup is NotRequired) ==> shown.cleanup == progress.cleanup
        }),
{
}

/// A shutdown watches the executions that were there when it began, one for one.
pub proof fn lemma_what_is_watched(
    supervisor: ShutdownSupervisor,
    initial: Seq<TaskSnapshot>,
    i: int,
)
    requires
        supervisor.watches(initial),
        0 <= i < initial.len(),
    ensures
        supervisor.tasks.len() == initial.len(),
        supervisor.tasks@[i].initial == initial[i],
{
}

} // verus!
