//! The registered runs of a scheduler, and what is done to many of them at once.

use crate::observe::{Observability, TaskEvent, TaskEventKind};
use crate::scheduler::run::RunShared;
use crate::scheduler::types::{CancelReason, TaskRunId, TaskState};
use crate::time::Instant;
use vstd::prelude::*;

verus! {

/// Registered runs have different identities and are sound.
pub open spec fn runs_wf(runs: Seq<RunShared>) -> bool {
    &&& forall|i: int, j: int|
        0 <= i < j < runs.len() ==> (#[trigger] runs[i]).run_id != (#[trigger] runs[j]).run_id
    &&& forall|i: int| 0 <= i < runs.len() ==> (#[trigger] runs[i]).wf()
}

/// Whether a run is registered.
pub open spec fn has_run(runs: Seq<RunShared>, run_id: TaskRunId) -> bool {
    exists|i: int| 0 <= i < runs.len() && (#[trigger] runs[i]).run_id == run_id
}

/// The place of a registered run.
pub open spec fn run_place(runs: Seq<RunShared>, run_id: TaskRunId) -> int {
    choose|i: int| 0 <= i < runs.len() && (#[trigger] runs[i]).run_id == run_id
}

/// A run has one place.
pub proof fn lemma_run_place(runs: Seq<RunShared>, i: int)
    requires
        runs_wf(runs),
        0 <= i < runs.len(),
    ensures
        has_run(runs, runs[i].run_id),
        run_place(runs, runs[i].run_id) == i,
{
    assert(has_run(runs, runs[i].run_id));
    let k = run_place(runs, runs[i].run_id);
    if k < i {
        assert(runs[k].run_id != runs[i].run_id);
    } else if i < k {
        assert(runs[i].run_id != runs[k].run_id);
    }
}

/// Which runs are meant.
pub enum Selection<'a> {
    /// All of them.
    All,
    /// Those of one generation of a lane.
    Lane { name: &'a String, generation: u64 },
    /// Those of one generation of a group.
    Group { generation: u64 },
}

impl<'a> Selection<'a> {
    /// Whether a run is meant.
    pub open spec fn selects(self, run: RunShared) -> bool {
        match self {
            Selection::All => true,
            Selection::Lane { name, generation } => run.lane@ == name@ && run.lane_generation
                == generation,
            Selection::Group { generation } => run.group_generation == Some(generation),
        }
    }

    /// Whether a run is meant.
    pub fn is_selected(&self, run: &RunShared) -> (selected: bool)
        ensures
            selected == self.selects(*run),
    {
        match self {
            Selection::All => true,
            Selection::Lane { name, generation } => run.lane == **name && run.lane_generation
                == *generation,
            Selection::Group { generation } => match run.group_generation {
                Some(of) => of == *generation,
                None => false,
            },
        }
    }
}

/// How many of the first `n` runs have a property.
pub open spec fn count_of(runs: Seq<RunShared>, p: spec_fn(RunShared) -> bool, n: int) -> nat
    decreases n,
{
    if n <= 0 {
        0
    } else if p(runs[n - 1]) {
        count_of(runs, p, n - 1) + 1
    } else {
        count_of(runs, p, n - 1)
    }
}

/// No more runs have a property than there are.
pub proof fn lemma_count_bound(runs: Seq<RunShared>, p: spec_fn(RunShared) -> bool, n: int)
    requires
        0 <= n,
    ensures
        count_of(runs, p, n) <= n,
    decreases n,
{
    if n > 0 {
        lemma_count_bound(runs, p, n - 1);
    }
}

/// The counts after `times` events.
pub open spec fn published_times(observability: Observability, times: nat) -> Observability
    decreases times,
{
    if times == 0 {
        observability
    } else {
        published_times(observability, (times - 1) as nat).published()
    }
}

/// Events do not change when observation began.
pub proof fn lemma_published_times(observability: Observability, times: nat)
    ensures
        published_times(observability, times).started_at == observability.started_at,
        published_times(observability, times).sequence == if observability.sequence + times
            <= u64::MAX {
            (observability.sequence + times) as u64
        } else {
            u64::MAX
        },
    decreases times,
{
    if times > 0 {
        lemma_published_times(observability, (times - 1) as nat);
    }
}

/// Which runs a request to stop reaches first.
pub open spec fn stops<'a>(select: Selection<'a>) -> spec_fn(RunShared) -> bool {
    |run: RunShared| select.selects(run) && run.accepts_cancel()
}

/// `after` is the `n`th run after a request to stop those that are meant.
pub open spec fn stopped_run<'a>(
    runs: Seq<RunShared>,
    select: Selection<'a>,
    reason: CancelReason,
    observability: Observability,
    now: Instant,
    n: int,
    after: RunShared,
) -> bool {
    if stops(select)(runs[n]) {
        (RunShared { cancellation: runs[n].cancellation.cancelled(reason), ..runs[n] }).becomes(
            after,
            TaskState::CancelRequested,
            None,
            published_times(observability, count_of(runs, stops(select), n)),
            now,
        ) && after.wf()
    } else {
        after == runs[n]
    }
}

/// The events that a request to stop publishes for the first `n` runs.
pub open spec fn stop_events<'a>(
    runs: Seq<RunShared>,
    after: Seq<RunShared>,
    select: Selection<'a>,
    observability: Observability,
    n: int,
) -> Seq<TaskEvent>
    decreases n,
{
    if n <= 0 {
        seq![]
    } else {
        let before = stop_events(runs, after, select, observability, n - 1);
        if stops(select)(runs[n - 1]) && published_times(
            observability,
            count_of(runs, stops(select), n - 1),
        ).sequence < u64::MAX {
            before.push(after[n - 1].event(TaskEventKind::StateChanged))
        } else {
            before
        }
    }
}

proof fn lemma_stop_events_prefix<'a>(
    runs: Seq<RunShared>,
    after: Seq<RunShared>,
    later: Seq<RunShared>,
    select: Selection<'a>,
    observability: Observability,
    n: int,
)
    requires
        forall|i: int| 0 <= i < n ==> after[i] == later[i],
    ensures
        stop_events(runs, after, select, observability, n) == stop_events(
            runs,
            later,
            select,
            observability,
            n,
        ),
    decreases n,
{
    if n > 0 {
        lemma_stop_events_prefix(runs, after, later, select, observability, n - 1);
    }
}

/// The place of a run, if it is registered.
pub fn find_run(runs: &Vec<RunShared>, run_id: TaskRunId) -> (at: Option<usize>)
    ensures
        match at {
            Some(at) => at < runs.len() && runs@[at as int].run_id == run_id,
            None => !has_run(runs@, run_id),
        },
{
    let mut at: usize = 0;
    while at < runs.len()
        invariant
            at <= runs.len(),
            forall|k: int| 0 <= k < at ==> (#[trigger] runs@[k]).run_id != run_id,
        decreases runs.len() - at,
    {
        if runs[at].run_id == run_id {
            return Some(at);
        }
        at = at + 1;
    }
    None
}

/// Asks the runs that are meant to stop; counts those that were asked for the first time.
pub fn cancel_runs<'a>(
    runs: &mut Vec<RunShared>,
    select: &Selection<'a>,
    reason: CancelReason,
    observability: &mut Observability,
    now: Instant,
) -> (stopped: (usize, Vec<TaskEvent>))
    requires
        runs_wf(old(runs)@),
    ensures
        runs_wf(final(runs)@),
        final(runs).len() == old(runs).len(),
        stopped.0 == count_of(old(runs)@, stops(*select), old(runs).len() as int),
        *final(observability) == published_times(*old(observability), stopped.0 as nat),
        forall|i: int|
            0 <= i < old(runs).len() ==> stopped_run(
                old(runs)@,
                *select,
                reason,
                *old(observability),
                now,
                i,
                #[trigger] final(runs)@[i],
            ),
        stopped.1@ == stop_events(
            old(runs)@,
            final(runs)@,
            *select,
            *old(observability),
            old(runs).len() as int,
        ),
{
    let ghost before = runs@;
    let ghost observed = *observability;
    let mut count: usize = 0;
    let mut events: Vec<TaskEvent> = Vec::new();
    let mut at: usize = 0;
    while at < runs.len()
        invariant
            at <= runs.len(),
            runs.len() == before.len(),
            runs_wf(before),
            count == count_of(before, stops(*select), at as int),
            count <= at,
            *observability == published_times(observed, count as nat),
            forall|i: int|
                0 <= i < at ==> stopped_run(
                    before,
                    *select,
                    reason,
                    observed,
                    now,
                    i,
                    #[trigger] runs@[i],
                ),
            forall|i: int| at <= i < before.len() ==> #[trigger] runs@[i] == before[i],
            forall|i: int|
                0 <= i < before.len() ==> (#[trigger] runs@[i]).run_id == before[i].run_id,
            events@ == stop_events(before, runs@, *select, observed, at as int),
        decreases runs.len() - at,
    {
        let ghost earlier = runs@;
        assert(runs@[at as int] == before[at as int]);
        assert(before[at as int].wf());
        if select.is_selected(&runs[at]) {
            let (first, event) = runs[at].cancel(reason, observability, now);
            if first {
                count = count + 1;
            }
            if let Some(event) = event {
                events.push(event);
            }
        }
        proof {
            lemma_stop_events_prefix(before, earlier, runs@, *select, observed, at as int);
        }
        at = at + 1;
    }
    proof {
        assert forall|i: int, j: int| 0 <= i < j < runs@.len() implies (
        #[trigger] runs@[i]).run_id != (#[trigger] runs@[j]).run_id by {
            assert(before[i].run_id != before[j].run_id);
        }
        assert forall|i: int| 0 <= i < runs@.len() implies (#[trigger] runs@[i]).wf() by {
            assert(before[i].wf());
            assert(stopped_run(before, *select, reason, observed, now, i, runs@[i]));
        }
    }
    (count, events)
}

/// `after` is a run after a request to stop the run `run_id`.
pub open spec fn cancelled_run(
    before: RunShared,
    after: RunShared,
    run_id: TaskRunId,
    reason: CancelReason,
    observability: Observability,
    now: Instant,
) -> bool {
    if before.run_id == run_id && before.accepts_cancel() {
        &&& (RunShared {
            cancellation: before.cancellation.cancelled(reason),
            ..before
        }).becomes(after, TaskState::CancelRequested, None, observability, now)
        &&& after.wf()
    } else {
        after == before
    }
}

/// Whether a run would accept a request to stop.
pub open spec fn run_accepts(runs: Seq<RunShared>, run_id: TaskRunId) -> bool {
    exists|i: int|
        0 <= i < runs.len() && (#[trigger] runs[i]).run_id == run_id && runs[i].accepts_cancel()
}

/// Asks one run to stop; says whether it was asked for the first time.
pub fn cancel_run(
    runs: &mut Vec<RunShared>,
    run_id: TaskRunId,
    reason: CancelReason,
    observability: &mut Observability,
    now: Instant,
) -> (cancelled: (bool, Option<TaskEvent>))
    requires
        runs_wf(old(runs)@),
    ensures
        runs_wf(final(runs)@),
        final(runs).len() == old(runs).len(),
        cancelled.0 == run_accepts(old(runs)@, run_id),
        *final(observability) == if cancelled.0 {
            old(observability).published()
        } else {
            *old(observability)
        },
        forall|i: int|
            0 <= i < old(runs).len() ==> cancelled_run(
                old(runs)@[i],
                #[trigger] final(runs)@[i],
                run_id,
                reason,
                *old(observability),
                now,
            ),
        cancelled.1 is Some ==> exists|i: int|
            0 <= i < final(runs).len() && cancelled.1 == Some(
                (#[trigger] final(runs)@[i]).event(TaskEventKind::StateChanged),
            ) && final(runs)@[i].run_id == run_id,
        cancelled.1 is Some <==> cancelled.0 && old(observability).sequence < u64::MAX,
{
    let ghost before = runs@;
    match find_run(runs, run_id) {
        Some(at) => {
            assert(before[at as int].wf());
            let cancelled = runs[at].cancel(reason, observability, now);
            proof {
                assert forall|i: int| 0 <= i < before.len() && i != at implies before[i].run_id
                    != run_id by {
                    if i < at {
                        assert(before[i].run_id != before[at as int].run_id);
                    } else {
                        assert(before[at as int].run_id != before[i].run_id);
                    }
                }
                assert forall|i: int, j: int| 0 <= i < j < runs@.len() implies (
                #[trigger] runs@[i]).run_id != (#[trigger] runs@[j]).run_id by {
                    assert(before[i].run_id != before[j].run_id);
                }
                assert forall|i: int| 0 <= i < runs@.len() implies (#[trigger] runs@[i]).wf() by {
                    assert(before[i].wf());
                }
                if cancelled.0 {
                    assert(before[at as int].accepts_cancel());
                }
                assert(runs@[at as int].run_id == run_id);
            }
            cancelled
        },
        None => (false, None),
    }
}

/// Which runs are not over.
pub open spec fn is_active() -> spec_fn(RunShared) -> bool {
    |run: RunShared| !run.terminal
}

/// The states that a scheduler's snapshot counts as waiting to begin.
pub open spec fn is_queued() -> spec_fn(RunShared) -> bool {
    |run: RunShared|
        run.snapshot.state == TaskState::Queued || run.snapshot.state
            == TaskState::WaitingForPermit
}

/// The state that a scheduler's snapshot counts as running.
pub open spec fn is_running() -> spec_fn(RunShared) -> bool {
    |run: RunShared| run.snapshot.state == TaskState::Running
}

/// The states that a scheduler's snapshot counts as waiting.
pub open spec fn is_waiting() -> spec_fn(RunShared) -> bool {
    |run: RunShared|
        run.snapshot.state == TaskState::WaitingForRetry || run.snapshot.state
            == TaskState::WaitingForSchedule || run.snapshot.state == TaskState::Paused
}

/// The state that a scheduler's snapshot counts as asked to stop.
pub open spec fn is_cancel_requested() -> spec_fn(RunShared) -> bool {
    |run: RunShared| run.snapshot.state == TaskState::CancelRequested
}

/// How many runs are not over, and how many are queued, running, waiting and asked to stop.
pub struct RunCounts {
    pub active: usize,
    pub queued: usize,
    pub running: usize,
    pub waiting: usize,
    pub cancel_requested: usize,
}

/// Counts runs by their states.
pub fn count_runs(runs: &Vec<RunShared>) -> (counts: RunCounts)
    ensures
        counts.active == count_of(runs@, is_active(), runs.len() as int),
        counts.queued == count_of(runs@, is_queued(), runs.len() as int),
        counts.running == count_of(runs@, is_running(), runs.len() as int),
        counts.waiting == count_of(runs@, is_waiting(), runs.len() as int),
        counts.cancel_requested == count_of(runs@, is_cancel_requested(), runs.len() as int),
{
    let mut counts = RunCounts {
        active: 0,
        queued: 0,
        running: 0,
        waiting: 0,
        cancel_requested: 0,
    };
    let mut at: usize = 0;
    while at < runs.len()
        invariant
            at <= runs.len(),
            counts.active == count_of(runs@, is_active(), at as int),
            counts.queued == count_of(runs@, is_queued(), at as int),
            counts.running == count_of(runs@, is_running(), at as int),
            counts.waiting == count_of(runs@, is_waiting(), at as int),
            counts.cancel_requested == count_of(runs@, is_cancel_requested(), at as int),
            counts.active <= at,
            counts.queued <= at,
            counts.running <= at,
            counts.waiting <= at,
            counts.cancel_requested <= at,
        decreases runs.len() - at,
    {
        if !runs[at].terminal {
            counts.active = counts.active + 1;
        }
        match runs[at].snapshot.state {
            TaskState::Queued => {
                counts.queued = counts.queued + 1;
            },
            TaskState::WaitingForPermit => {
                counts.queued = counts.queued + 1;
            },
            TaskState::Running => {
                counts.running = counts.running + 1;
            },
            TaskState::WaitingForRetry => {
                counts.waiting = counts.waiting + 1;
            },
            TaskState::WaitingForSchedule => {
                counts.waiting = counts.waiting + 1;
            },
            TaskState::Paused => {
                counts.waiting = counts.waiting + 1;
            },
            TaskState::CancelRequested => {
                counts.cancel_requested = counts.cancel_requested + 1;
            },
            _ => {},
        }
        at = at + 1;
    }
    counts
}

/// Each registered run that is not over is counted once, by its state.
pub proof fn lemma_counts_partition(runs: Seq<RunShared>, n: int)
    requires
        runs_wf(runs),
        0 <= n <= runs.len(),
    ensures
        count_of(runs, is_queued(), n) + count_of(runs, is_running(), n) + count_of(
            runs,
            is_waiting(),
            n,
        ) + count_of(runs, is_cancel_requested(), n) == count_of(runs, is_active(), n),
    decreases n,
{
    if n > 0 {
        lemma_counts_partition(runs, n - 1);
        assert(runs[n - 1].wf());
    }
}

/// Which members of a group change when it is paused or resumed.
pub open spec fn scope_changes(generation: u64, paused: bool) -> spec_fn(RunShared) -> bool {
    |run: RunShared|
        run.group_generation == Some(generation) && !run.terminal && run.manual.scope_paused
            != paused
}

/// A run after its group was paused or resumed.
pub open spec fn scoped_run(run: RunShared, generation: u64, paused: bool) -> RunShared {
    if run.group_generation == Some(generation) && !run.terminal {
        RunShared {
            manual: crate::scheduler::run::ManualControl { scope_paused: paused, ..run.manual },
            ..run
        }
    } else {
        run
    }
}

/// Pauses or resumes the members of a group; counts those that changed.
pub fn set_scope_paused(runs: &mut Vec<RunShared>, generation: u64, paused: bool) -> (changed:
    usize)
    requires
        runs_wf(old(runs)@),
    ensures
        runs_wf(final(runs)@),
        final(runs).len() == old(runs).len(),
        changed == count_of(old(runs)@, scope_changes(generation, paused), old(runs).len() as int),
        forall|i: int|
            0 <= i < old(runs).len() ==> #[trigger] final(runs)@[i] == scoped_run(
                old(runs)@[i],
                generation,
                paused,
            ),
{
    let ghost before = runs@;
    let mut changed: usize = 0;
    let mut at: usize = 0;
    while at < runs.len()
        invariant
            at <= runs.len(),
            runs.len() == before.len(),
            runs_wf(before),
            changed == count_of(before, scope_changes(generation, paused), at as int),
            changed <= at,
            forall|i: int|
                0 <= i < at ==> #[trigger] runs@[i] == scoped_run(before[i], generation, paused),
            forall|i: int| at <= i < before.len() ==> #[trigger] runs@[i] == before[i],
        decreases runs.len() - at,
    {
        assert(runs@[at as int] == before[at as int]);
        assert(before[at as int].wf());
        let select = Selection::Group { generation };
        if select.is_selected(&runs[at]) {
            let result = if paused {
                runs[at].pause_scope()
            } else {
                runs[at].resume_scope()
            };
            if let Ok(true) = result {
                changed = changed + 1;
            }
        }
        at = at + 1;
    }
    proof {
        assert forall|i: int, j: int| 0 <= i < j < runs@.len() implies (
        #[trigger] runs@[i]).run_id != (#[trigger] runs@[j]).run_id by {
            assert(before[i].run_id != before[j].run_id);
        }
        assert forall|i: int| 0 <= i < runs@.len() implies (#[trigger] runs@[i]).wf() by {
            assert(before[i].wf());
        }
    }
    changed
}

/// A selection means all runs, those of one generation of a lane, or the members of one
/// generation of a group.
pub proof fn lemma_what_selections_mean<'a>(select: Selection<'a>, run: RunShared)
    ensures
        select is All ==> select.selects(run),
        select matches Selection::Lane { name, generation } ==> (select.selects(run) <==> run.lane@
            == name@ && run.lane_generation == generation),
        select matches Selection::Group { generation } ==> (select.selects(run)
            <==> run.group_generation == Some(generation)),
        stops(select)(run) <==> select.selects(run) && !run.terminal && run.cancellation.reason
            is None && !run.cancellation.outcome_claimed,
{
}

/// A count is that of the places at which the property holds: with its opposite it makes up
/// all places.
pub proof fn lemma_counts_count(
    runs: Seq<RunShared>,
    p: spec_fn(RunShared) -> bool,
    n: int,
)
    requires
        0 <= n <= runs.len(),
    ensures
        count_of(runs, p, n) + count_of(runs, |run: RunShared| !p(run), n) == n,
        (forall|i: int| 0 <= i < n ==> p(#[trigger] runs[i])) ==> count_of(runs, p, n) == n,
        (forall|i: int| 0 <= i < n ==> !p(#[trigger] runs[i])) ==> count_of(runs, p, n) == 0,
        n < runs.len() && p(runs[n]) ==> count_of(runs, p, n + 1) == count_of(runs, p, n) + 1,
        n < runs.len() && !p(runs[n]) ==> count_of(runs, p, n + 1) == count_of(runs, p, n),
    decreases n,
{
    if n > 0 {
        lemma_counts_count(runs, p, n - 1);
    }
}

/// A run that is meant and accepts it is asked to stop for that reason and shows it; any other
/// stays as it is.
pub proof fn lemma_stop_reaches_those_that_are_meant<'a>(
    runs: Seq<RunShared>,
    select: Selection<'a>,
    reason: CancelReason,
    observability: Observability,
    now: Instant,
    n: int,
    after: RunShared,
)
    requires
        0 <= n < runs.len(),
        stopped_run(runs, select, reason, observability, now, n, after),
    ensures
        select.selects(runs[n]) && !runs[n].terminal && runs[n].cancellation.reason is None
            && !runs[n].cancellation.outcome_claimed ==> {
            &&& after.cancellation.reason == Some(reason)
            &&& after.snapshot.state == TaskState::CancelRequested
            &&& after.snapshot.cancel_reason == Some(reason)
            &&& after.run_id == runs[n].run_id
            &&& after.manual == runs[n].manual
        },
        !select.selects(runs[n]) || runs[n].terminal || runs[n].cancellation.reason is Some
            || runs[n].cancellation.outcome_claimed ==> after == runs[n],
{
}

/// A request to stop one run reaches that run alone, if it accepts it.
pub proof fn lemma_stop_of_one_run(
    before: RunShared,
    after: RunShared,
    run_id: TaskRunId,
    reason: CancelReason,
    observability: Observability,
    now: Instant,
)
    requires
        cancelled_run(before, after, run_id, reason, observability, now),
    ensures
        before.run_id != run_id ==> after == before,
        before.run_id == run_id && !before.terminal && before.cancellation.reason is None
            && !before.cancellation.outcome_claimed ==> {
            &&& after.cancellation.reason == Some(reason)
            &&& after.snapshot.state == TaskState::CancelRequested
        },
        before.terminal || before.cancellation.reason is Some
            || before.cancellation.outcome_claimed ==> after == before,
{
}

/// The events of a request to stop: one for each run that was reached, as long as events can
/// be numbered, each showing that the run is asked to stop.
pub proof fn lemma_stop_publishes_each_run<'a>(
    runs: Seq<RunShared>,
    after: Seq<RunShared>,
    select: Selection<'a>,
    observability: Observability,
    n: int,
)
    requires
        0 <= n <= runs.len(),
        n <= after.len(),
        observability.sequence + count_of(runs, stops(select), n) <= u64::MAX,
    ensures
        stop_events(runs, after, select, observability, n).len() == count_of(
            runs,
            stops(select),
            n,
        ),
        forall|k: int|
            0 <= k < stop_events(runs, after, select, observability, n).len() ==> (
            #[trigger] stop_events(runs, after, select, observability, n)[k]).kind
                == TaskEventKind::StateChanged,
    decreases n,
{
    if n > 0 {
        lemma_stop_publishes_each_run(runs, after, select, observability, n - 1);
        let times = count_of(runs, stops(select), n - 1);
        if stops(select)(runs[n - 1]) {
            lemma_numbers_of_events(observability, times);
        }
    }
}

proof fn lemma_numbers_of_events(observability: Observability, times: nat)
    requires
        observability.sequence + times <= u64::MAX,
    ensures
        published_times(observability, times).sequence == observability.sequence + times,
    decreases times,
{
    if times > 0 {
        lemma_numbers_of_events(observability, (times - 1) as nat);
    }
}

/// Which states are counted as waiting to begin, running, waiting, or asked to stop.
pub proof fn lemma_which_states_are_counted(run: RunShared)
    ensures
        is_active()(run) <==> !run.terminal,
        is_queued()(run) <==> run.snapshot.state is Queued || run.snapshot.state
            is WaitingForPermit,
        is_running()(run) <==> run.snapshot.state is Running,
        is_waiting()(run) <==> run.snapshot.state is WaitingForRetry || run.snapshot.state
            is WaitingForSchedule || run.snapshot.state is Paused,
        is_cancel_requested()(run) <==> run.snapshot.state is CancelRequested,
{
}

/// A pause of a group reaches its members that are not over, and changes only whether the
/// group pauses them; a resumption takes it back.
pub proof fn lemma_pause_of_a_group(run: RunShared, generation: u64, paused: bool)
    ensures
        run.group_generation == Some(generation) && !run.terminal ==> {
            &&& scoped_run(run, generation, paused).manual.scope_paused == paused
            &&& scoped_run(run, generation, paused).manual.task_paused == run.manual.task_paused
            &&& scoped_run(run, generation, paused).manual.pending == run.manual.pending
            &&& scoped_run(run, generation, paused).snapshot == run.snapshot
            &&& scoped_run(scoped_run(run, generation, paused), generation, !paused)
                == scoped_run(run, generation, !paused)
            &&& scope_changes(generation, paused)(run) <==> run.manual.scope_paused != paused
        },
        run.group_generation != Some(generation) || run.terminal ==> scoped_run(
            run,
            generation,
            paused,
        ) == run && !scope_changes(generation, paused)(run),
{
}

} // verus!
