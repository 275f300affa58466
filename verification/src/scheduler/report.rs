//! What a shutdown reports, and how it proceeds.

use crate::scheduler::types::{ShutdownPolicy, TaskRunId, TaskState};
use crate::text;
use crate::time::Duration;
use vstd::prelude::*;
use vstd::string::StringExecFns;

verus! {

/// How a shutdown counts a run.
#[derive(Clone, Copy, Debug, Eq, PartialEq, Structural)]
pub enum Fate {
    Completed,
    Failed,
    Cancelled,
    TimedOut,
    Panicked,
    Aborted,
    ExecutorStopped,
    Evicted,
    /// Not over.
    StillRunning,
}

/// How a shutdown counts a run in a state.
pub open spec fn fate(state: TaskState) -> Fate {
    match state {
        TaskState::Completed => Fate::Completed,
        TaskState::Failed => Fate::Failed,
        TaskState::RetriesExhausted => Fate::Failed,
        TaskState::ScheduleError => Fate::Failed,
        TaskState::ExecutorError => Fate::Failed,
        TaskState::SubmissionFailed => Fate::Failed,
        TaskState::Cancelled => Fate::Cancelled,
        TaskState::TimedOut => Fate::TimedOut,
        TaskState::Panicked => Fate::Panicked,
        TaskState::Aborted => Fate::Aborted,
        TaskState::ExecutorStopped => Fate::ExecutorStopped,
        TaskState::Evicted => Fate::Evicted,
        _ => Fate::StillRunning,
    }
}

fn fate_of(state: TaskState) -> (result: Fate)
    ensures
        result == fate(state),
{
    match state {
        TaskState::Completed => Fate::Completed,
        TaskState::Failed => Fate::Failed,
        TaskState::RetriesExhausted => Fate::Failed,
        TaskState::ScheduleError => Fate::Failed,
        TaskState::ExecutorError => Fate::Failed,
        TaskState::SubmissionFailed => Fate::Failed,
        TaskState::Cancelled => Fate::Cancelled,
        TaskState::TimedOut => Fate::TimedOut,
        TaskState::Panicked => Fate::Panicked,
        TaskState::Aborted => Fate::Aborted,
        TaskState::ExecutorStopped => Fate::ExecutorStopped,
        TaskState::Evicted => Fate::Evicted,
        _ => Fate::StillRunning,
    }
}

/// A run that is still running is one that is not over.
pub proof fn lemma_still_running_is_not_terminal(state: TaskState)
    ensures
        fate(state) == Fate::StillRunning <==> !state.terminal(),
{
}

/// How many of the first `n` runs share a fate.
pub open spec fn tally(runs: Seq<(TaskRunId, TaskState)>, of: Fate, n: int) -> nat
    decreases n,
{
    if n <= 0 {
        0
    } else if fate(runs[n - 1].1) == of {
        tally(runs, of, n - 1) + 1
    } else {
        tally(runs, of, n - 1)
    }
}

/// The runs among the first `n` that are not over.
pub open spec fn running_ids(runs: Seq<(TaskRunId, TaskState)>, n: int) -> Seq<TaskRunId>
    decreases n,
{
    if n <= 0 {
        seq![]
    } else if fate(runs[n - 1].1) == Fate::StillRunning {
        running_ids(runs, n - 1).push(runs[n - 1].0)
    } else {
        running_ids(runs, n - 1)
    }
}

/// Identities in ascending order.
pub open spec fn sorted(ids: Seq<TaskRunId>) -> bool {
    forall|i: int, j: int| 0 <= i <= j < ids.len() ==> ids[i].0 <= ids[j].0
}

fn insert_sorted(ids: &mut Vec<TaskRunId>, id: TaskRunId)
    requires
        sorted(old(ids)@),
    ensures
        sorted(final(ids)@),
        final(ids)@.to_multiset() == old(ids)@.to_multiset().insert(id),
        final(ids).len() == old(ids).len() + 1,
{
    let ghost before = ids@;
    let mut at: usize = ids.len();
    while at > 0 && ids[at - 1].0 > id.0
        invariant
            at <= ids.len(),
            ids@ == before,
            sorted(before),
            forall|k: int| at <= k < before.len() ==> (#[trigger] before[k]).0 > id.0,
        decreases at,
    {
        at = at - 1;
    }
    ids.insert(at, id);
    proof {
        broadcast use vstd::seq_lib::group_to_multiset_ensures;

        assert(ids@ =~= before.insert(at as int, id));
        assert forall|i: int, j: int| 0 <= i <= j < ids@.len() implies ids@[i].0 <= ids@[j].0 by {
            if i < at && j > at {
                assert(before[i].0 <= before[j - 1].0);
            }
        }
    }
}

/// What to do with a report that was published during a shutdown.
#[derive(Debug)]
pub enum ReportStep {
    /// It is the last one.
    Settled(SchedulerShutdownReport),
    /// Wait for the next one.
    Wait(SchedulerShutdownReport),
}

/// What became of the runs of a scheduler or group that shuts down.
#[derive(Clone, Debug, Eq, PartialEq)]
pub struct SchedulerShutdownReport {
    pub total: usize,
    pub completed: usize,
    pub failed: usize,
    pub cancelled: usize,
    pub timed_out: usize,
    pub panicked: usize,
    pub aborted: usize,
    pub executor_stopped: usize,
    pub evicted: usize,
    pub abort_requested: usize,
    pub still_running: Vec<TaskRunId>,
    pub grace_timed_out: bool,
    pub settled: bool,
}

impl SchedulerShutdownReport {
    /// Looks at a published report: it is the last one if it is settled, or, made to be
    /// settled, if no other can follow.
    pub fn wait_for_settled(self, published_to_the_end: bool) -> (step: ReportStep)
        ensures
            step == if self.settled || published_to_the_end {
                ReportStep::Settled(SchedulerShutdownReport { settled: true, ..self })
            } else {
                ReportStep::Wait(self)
            },
    {
        if self.settled || published_to_the_end {
            ReportStep::Settled(SchedulerShutdownReport { settled: true, ..self })
        } else {
            ReportStep::Wait(self)
        }
    }

    /// Counts the runs by their states.
    pub fn collect(
        runs: &Vec<(TaskRunId, TaskState)>,
        abort_requested: usize,
        grace_timed_out: bool,
        settled: bool,
    ) -> (report: Self)
        ensures
            report.total == runs.len(),
            report.completed == tally(runs@, Fate::Completed, runs.len() as int),
            report.failed == tally(runs@, Fate::Failed, runs.len() as int),
            report.cancelled == tally(runs@, Fate::Cancelled, runs.len() as int),
            report.timed_out == tally(runs@, Fate::TimedOut, runs.len() as int),
            report.panicked == tally(runs@, Fate::Panicked, runs.len() as int),
            report.aborted == tally(runs@, Fate::Aborted, runs.len() as int),
            report.executor_stopped == tally(runs@, Fate::ExecutorStopped, runs.len() as int),
            report.evicted == tally(runs@, Fate::Evicted, runs.len() as int),
            report.abort_requested == abort_requested,
            report.grace_timed_out == grace_timed_out,
            report.settled == settled,
            sorted(report.still_running@),
            report.still_running@.to_multiset() == running_ids(
                runs@,
                runs.len() as int,
            ).to_multiset(),
            report.still_running.len() == tally(runs@, Fate::StillRunning, runs.len() as int),
    {
        broadcast use vstd::seq_lib::group_to_multiset_ensures;

        let mut report = SchedulerShutdownReport {
            total: runs.len(),
            completed: 0,
            failed: 0,
            cancelled: 0,
            timed_out: 0,
            panicked: 0,
            aborted: 0,
            executor_stopped: 0,
            evicted: 0,
            abort_requested,
            still_running: Vec::new(),
            grace_timed_out,
            settled,
        };
        assert(report.still_running@ =~= running_ids(runs@, 0));
        let mut at: usize = 0;
        while at < runs.len()
            invariant
                at <= runs.len(),
                report.total == runs.len(),
            report.completed == tally(runs@, Fate::Completed, at as int),
            report.completed <= at,
            report.failed == tally(runs@, Fate::Failed, at as int),
            report.failed <= at,
            report.cancelled == tally(runs@, Fate::Cancelled, at as int),
            report.cancelled <= at,
            report.timed_out == tally(runs@, Fate::TimedOut, at as int),
            report.timed_out <= at,
            report.panicked == tally(runs@, Fate::Panicked, at as int),
            report.panicked <= at,
            report.aborted == tally(runs@, Fate::Aborted, at as int),
            report.aborted <= at,
            report.executor_stopped == tally(runs@, Fate::ExecutorStopped, at as int),
            report.executor_stopped <= at,
            report.evicted == tally(runs@, Fate::Evicted, at as int),
            report.evicted <= at,
                report.abort_requested == abort_requested,
                report.grace_timed_out == grace_timed_out,
                report.settled == settled,
                sorted(report.still_running@),
                report.still_running@.to_multiset() == running_ids(
                    runs@,
                    at as int,
                ).to_multiset(),
                report.still_running.len() == tally(runs@, Fate::StillRunning, at as int),
            decreases runs.len() - at,
        {
            broadcast use vstd::seq_lib::group_to_multiset_ensures;

            match fate_of(runs[at].1) {
                Fate::Completed => {
                    report.completed = report.completed + 1;
                },
                Fate::Failed => {
                    report.failed = report.failed + 1;
                },
                Fate::Cancelled => {
                    report.cancelled = report.cancelled + 1;
                },
                Fate::TimedOut => {
                    report.timed_out = report.timed_out + 1;
                },
                Fate::Panicked => {
                    report.panicked = report.panicked + 1;
                },
                Fate::Aborted => {
                    report.aborted = report.aborted + 1;
                },
                Fate::ExecutorStopped => {
                    report.executor_stopped = report.executor_stopped + 1;
                },
                Fate::Evicted => {
                    report.evicted = report.evicted + 1;
                },
                Fate::StillRunning => {
                    insert_sorted(&mut report.still_running, runs[at].0);
                },
            }
            at = at + 1;
        }
        report
    }

    /// The runs when the shutdown began.
    pub fn total(&self) -> (result: usize)
        ensures
            result == self.total,
    {
        self.total
    }

    /// Runs whose work returned a value.
    pub fn completed(&self) -> (result: usize)
        ensures
            result == self.completed,
    {
        self.completed
    }

    /// Runs that ended with an error.
    pub fn failed(&self) -> (result: usize)
        ensures
            result == self.failed,
    {
        self.failed
    }

    /// Runs that stopped on request.
    pub fn cancelled(&self) -> (result: usize)
        ensures
            result == self.cancelled,
    {
        self.cancelled
    }

    /// Runs whose deadline passed.
    pub fn timed_out(&self) -> (result: usize)
        ensures
            result == self.timed_out,
    {
        self.timed_out
    }

    /// Runs whose work panicked.
    pub fn panicked(&self) -> (result: usize)
        ensures
            result == self.panicked,
    {
        self.panicked
    }

    /// Runs that were aborted.
    pub fn aborted(&self) -> (result: usize)
        ensures
            result == self.aborted,
    {
        self.aborted
    }

    /// Runs that the end of the runtime stopped.
    pub fn executor_stopped(&self) -> (result: usize)
        ensures
            result == self.executor_stopped,
    {
        self.executor_stopped
    }

    /// Runs that a queue dropped.
    pub fn evicted(&self) -> (result: usize)
        ensures
            result == self.evicted,
    {
        self.evicted
    }

    /// Runs that were asked to abort.
    pub fn abort_requested(&self) -> (result: usize)
        ensures
            result == self.abort_requested,
    {
        self.abort_requested
    }

    /// The runs that are not over, in ascending order.
    pub fn still_running(&self) -> (result: &Vec<TaskRunId>)
        ensures
            *result == self.still_running,
    {
        &self.still_running
    }

    /// Whether the time to stop was used up.
    pub fn grace_timed_out(&self) -> (result: bool)
        ensures
            result == self.grace_timed_out,
    {
        self.grace_timed_out
    }

    /// Whether every run is over.
    pub fn is_complete(&self) -> (result: bool)
        ensures
            result == (self.still_running.len() == 0),
    {
        self.still_running.len() == 0
    }
}

/// Every run is counted once.
pub proof fn lemma_report_counts_every_run(runs: Seq<(TaskRunId, TaskState)>, n: int)
    requires
        0 <= n <= runs.len(),
    ensures
        tally(runs, Fate::Completed, n)
            + tally(runs, Fate::Failed, n)
            + tally(runs, Fate::Cancelled, n)
            + tally(runs, Fate::TimedOut, n)
            + tally(runs, Fate::Panicked, n)
            + tally(runs, Fate::Aborted, n)
            + tally(runs, Fate::ExecutorStopped, n)
            + tally(runs, Fate::Evicted, n)
            + tally(runs, Fate::StillRunning, n) == n,
    decreases n,
{
    if n > 0 {
        lemma_report_counts_every_run(runs, n - 1);
    }
}

/// A caller's own deadline passed before the shutdown settled.
#[derive(Clone, Debug, Eq, PartialEq)]
pub struct ShutdownWaitError {
    pub report: SchedulerShutdownReport,
}

impl ShutdownWaitError {
    /// The progress so far.
    pub fn report(&self) -> (report: &SchedulerShutdownReport)
        ensures
            *report == self.report,
    {
        &self.report
    }

    /// Human-readable description.
    pub fn message(&self) -> (message: String)
        ensures
            message@ == "shutdown observation deadline elapsed with "@ + text::decimal(
                self.report.still_running.len() as nat,
            ) + " task(s) still running"@,
    {
        let mut message = String::from_str("shutdown observation deadline elapsed with ");
        text::append_decimal(&mut message, self.report.still_running.len() as u64);
        message.append(" task(s) still running");
        message
    }
}

/// What the coordinator of a shutdown does next.
#[derive(Clone, Copy, Debug)]
pub enum ShutdownStep {
    /// Wait for the end of all runs, within the limit if there is one.
    Wait { limit: Option<Duration> },
    /// Ask every run to abort.
    RequestAborts,
    /// Drain events, publish a settled report, and go on.
    Report { abort_requested: usize, drain: Duration },
    /// Record the end, drain events, publish a settled report, and stop.
    Finish { abort_requested: usize, grace_timed_out: bool, drain: Duration },
}

/// Where the coordinator of a shutdown stands.
#[derive(Clone, Copy, Debug, Eq, PartialEq, Structural)]
pub enum ShutdownPhase {
    /// Waits for runs to stop on request.
    Grace,
    /// Asks runs to abort.
    Aborting,
    /// Waits for runs to abort.
    AbortWait,
    /// Told callers that runs did not stop.
    Reported,
    /// Waits for the end of all runs.
    Confirming,
    /// Over.
    Finished,
}

/// The coordinator of the shutdown of a scheduler or a group.
#[derive(Clone, Copy, Debug)]
pub struct ShutdownCoordinator {
    pub policy: ShutdownPolicy,
    pub phase: ShutdownPhase,
    pub abort_requested: usize,
    pub grace_timed_out: bool,
}

impl ShutdownCoordinator {
    /// The end with the counts so far.
    pub open spec fn finish(self) -> ShutdownStep {
        ShutdownStep::Finish {
            abort_requested: self.abort_requested,
            grace_timed_out: self.grace_timed_out,
            drain: self.policy.drain(),
        }
    }

    /// Runs have stopped late exactly when the time to stop is used up, and none is
    /// aborted before.
    pub open spec fn wf(&self) -> bool {
        &&& self.phase == ShutdownPhase::Grace ==> !self.grace_timed_out
        &&& self.phase != ShutdownPhase::Grace && self.phase != ShutdownPhase::Finished
            ==> self.grace_timed_out
        &&& !self.grace_timed_out ==> self.abort_requested == 0
        &&& self.policy.abort() is None ==> self.abort_requested == 0
    }

    /// Begins: runs have the policy's time to stop.
    pub fn begin(policy: ShutdownPolicy) -> (begun: (Self, ShutdownStep))
        ensures
            begun.0.wf(),
            begun.0 == (ShutdownCoordinator {
                policy,
                phase: ShutdownPhase::Grace,
                abort_requested: 0,
                grace_timed_out: false,
            }),
            begun.1 == (ShutdownStep::Wait { limit: Some(policy.grace()) }),
    {
        (
            ShutdownCoordinator {
                policy,
                phase: ShutdownPhase::Grace,
                abort_requested: 0,
                grace_timed_out: false,
            },
            ShutdownStep::Wait { limit: Some(policy.grace_period()) },
        )
    }

    fn report(&self) -> (step: ShutdownStep)
        ensures
            step == (ShutdownStep::Report {
                abort_requested: self.abort_requested,
                drain: self.policy.drain(),
            }),
    {
        ShutdownStep::Report {
            abort_requested: self.abort_requested,
            drain: self.policy.event_drain(),
        }
    }

    /// Goes on after a wait; `finished` says whether every run is over.
    pub fn waited(&mut self, finished: bool) -> (step: ShutdownStep)
        requires
            old(self).wf(),
            old(self).phase == ShutdownPhase::Grace || old(self).phase
                == ShutdownPhase::AbortWait || old(self).phase == ShutdownPhase::Confirming,
            old(self).phase == ShutdownPhase::Confirming ==> finished,
        ensures
            final(self).wf(),
            if finished {
                &&& step == old(self).finish()
                &&& *final(self) == (ShutdownCoordinator {
                    phase: ShutdownPhase::Finished,
                    ..*old(self)
                })
            } else if old(self).phase == ShutdownPhase::Grace && old(self).policy.abort() is Some {
                &&& step == ShutdownStep::RequestAborts
                &&& *final(self) == (ShutdownCoordinator {
                    phase: ShutdownPhase::Aborting,
                    grace_timed_out: true,
                    ..*old(self)
                })
            } else {
                &&& step == (ShutdownStep::Report {
                    abort_requested: old(self).abort_requested,
                    drain: old(self).policy.drain(),
                })
                &&& *final(self) == (ShutdownCoordinator {
                    phase: ShutdownPhase::Reported,
                    grace_timed_out: true,
                    ..*old(self)
                })
            },
    {
        if finished {
            let step = ShutdownStep::Finish {
                abort_requested: self.abort_requested,
                grace_timed_out: self.grace_timed_out,
                drain: self.policy.event_drain(),
            };
            self.phase = ShutdownPhase::Finished;
            return step;
        }
        self.grace_timed_out = true;
        if self.phase == ShutdownPhase::Grace && self.policy.abort_wait().is_some() {
            self.phase = ShutdownPhase::Aborting;
            return ShutdownStep::RequestAborts;
        }
        self.phase = ShutdownPhase::Reported;
        self.report()
    }

    /// Goes on after runs were asked to abort.
    pub fn aborts_requested(&mut self, count: usize) -> (step: ShutdownStep)
        requires
            old(self).wf(),
            old(self).phase == ShutdownPhase::Aborting,
            old(self).policy.abort() is Some,
        ensures
            final(self).wf(),
            *final(self) == (ShutdownCoordinator {
                phase: ShutdownPhase::AbortWait,
                abort_requested: count,
                ..*old(self)
            }),
            step == (ShutdownStep::Wait { limit: old(self).policy.abort() }),
    {
        self.abort_requested = count;
        self.phase = ShutdownPhase::AbortWait;
        ShutdownStep::Wait { limit: self.policy.abort_wait() }
    }

    /// Goes on after callers were told that runs did not stop in time.
    pub fn reported(&mut self) -> (step: ShutdownStep)
        requires
            old(self).wf(),
            old(self).phase == ShutdownPhase::Reported,
        ensures
            final(self).wf(),
            *final(self) == (ShutdownCoordinator {
                phase: ShutdownPhase::Confirming,
                ..*old(self)
            }),
            step == (ShutdownStep::Wait { limit: None }),
    {
        self.phase = ShutdownPhase::Confirming;
        ShutdownStep::Wait { limit: None }
    }

    /// What a coordinator that is dropped still does: unless it finished, every run ends
    /// as stopped by the runtime, and a settled report is published.
    pub fn dropped(self) -> (step: Option<ShutdownStep>)
        requires
            self.wf(),
        ensures
            step == if self.phase == ShutdownPhase::Finished {
                None
            } else {
                Some(self.finish())
            },
    {
        if self.phase == ShutdownPhase::Finished {
            return None;
        }
        Some(
            ShutdownStep::Finish {
                abort_requested: self.abort_requested,
                grace_timed_out: self.grace_timed_out,
                drain: self.policy.event_drain(),
            },
        )
    }
}

/// A run is counted by how it ended: each kind of result for itself, and every kind of error
/// as failed.
pub proof fn lemma_what_runs_are_counted_as(state: TaskState)
    ensures
        fate(state) == Fate::Completed <==> state is Completed,
        fate(state) == Fate::Failed <==> state is Failed || state is RetriesExhausted
            || state is ScheduleError || state is ExecutorError || state is SubmissionFailed,
        fate(state) == Fate::Cancelled <==> state is Cancelled,
        fate(state) == Fate::TimedOut <==> state is TimedOut,
        fate(state) == Fate::Panicked <==> state is Panicked,
        fate(state) == Fate::Aborted <==> state is Aborted,
        fate(state) == Fate::ExecutorStopped <==> state is ExecutorStopped,
        fate(state) == Fate::Evicted <==> state is Evicted,
        fate(state) == Fate::StillRunning <==> state is Queued || state is WaitingForPermit
            || state is Running || state is WaitingForRetry || state is WaitingForSchedule
            || state is Paused || state is CancelRequested,
{
}

/// A count grows by one for each run that is counted so, and by nothing for any other.
pub proof fn lemma_each_run_counts_once(runs: Seq<(TaskRunId, TaskState)>, of: Fate, n: int)
    requires
        0 <= n < runs.len(),
    ensures
        tally(runs, of, 0) == 0,
        fate(runs[n].1) == of ==> tally(runs, of, n + 1) == tally(runs, of, n) + 1,
        fate(runs[n].1) != of ==> tally(runs, of, n + 1) == tally(runs, of, n),
{
}

/// The runs that are reported as still running are exactly those that are not over.
pub proof fn lemma_which_runs_are_still_running(
    runs: Seq<(TaskRunId, TaskState)>,
    n: int,
    run_id: TaskRunId,
)
    requires
        0 <= n <= runs.len(),
    ensures
        running_ids(runs, n).contains(run_id) <==> exists|i: int|
            0 <= i < n && (#[trigger] runs[i]).0 == run_id && !runs[i].1.terminal(),
    decreases n,
{
    let ids = running_ids(runs, n);
    if n > 0 {
        lemma_which_runs_are_still_running(runs, n - 1, run_id);
        let before = running_ids(runs, n - 1);
        let last = runs[n - 1];
        if !last.1.terminal() {
            assert(ids == before.push(last.0));
            assert(ids[before.len() as int] == last.0);
            if ids.contains(run_id) && run_id != last.0 {
                let k = ids.index_of(run_id);
                assert(before[k] == run_id);
            }
            if before.contains(run_id) {
                let k = before.index_of(run_id);
                assert(ids[k] == run_id);
            }
            assert(runs[n - 1].0 == last.0);
        }
        if before.contains(run_id) {
            let i = choose|i: int|
                0 <= i < n - 1 && (#[trigger] runs[i]).0 == run_id && !runs[i].1.terminal();
            assert(runs[i].0 == run_id);
        }
    }
}

/// A shutdown ends with what it counted: how many runs it asked to abort and whether the time
/// to stop was used up.
pub proof fn lemma_shutdown_ends_with_its_counts(coordinator: ShutdownCoordinator)
    ensures
        coordinator.finish() == (ShutdownStep::Finish {
            abort_requested: coordinator.abort_requested,
            grace_timed_out: coordinator.grace_timed_out,
            drain: coordinator.policy.drain(),
        }),
{
}

/// In a report a smaller identity does not come after a larger one.
pub proof fn lemma_smaller_runs_come_first(ids: Seq<TaskRunId>, i: int, j: int)
    requires
        sorted(ids),
        0 <= i < ids.len(),
        0 <= j < ids.len(),
        ids[i].0 < ids[j].0,
    ensures
        i < j,
{
}

} // verus!
