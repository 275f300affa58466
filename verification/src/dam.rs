//! The execution thread of tasks with a fixed retry strategy: its queue, its cancellation,
//! and the attempts of a task.

use crate::error::{BeaverError, BeaverResult, RuntimeError};
use crate::execution_core::JoinFailure;
use crate::task::Task;
use crate::time::Duration;
use vstd::prelude::*;

verus! {

/// The queue of an execution thread. Each task is stamped when it is enqueued; a
/// cancellation drops every task that was stamped before it.
#[derive(Debug)]
pub struct Dam {
    pub released: bool,
    /// Whether the channel to the worker is open.
    pub open: bool,
    /// The stamp of the next task.
    pub enqueue_seq: u64,
    /// Tasks stamped below this are dropped.
    pub cancel_watermark: u64,
    pub callback_failures: Vec<String>,
}

impl Dam {
    /// Nothing is dropped that is not enqueued yet, unless the thread was released.
    pub open spec fn wf(&self) -> bool {
        self.released || self.cancel_watermark <= self.enqueue_seq
    }

    /// Whether a task with this stamp is dropped.
    pub open spec fn drops(&self, seq: u64) -> bool {
        seq < self.cancel_watermark
    }

    /// An empty queue.
    pub fn new() -> (dam: Self)
        ensures
            dam.wf(),
            !dam.released,
            dam.open,
            dam.enqueue_seq == 0,
            dam.cancel_watermark == 0,
            dam.callback_failures@ == Seq::<String>::empty(),
    {
        Dam {
            released: false,
            open: true,
            enqueue_seq: 0,
            cancel_watermark: 0,
            callback_failures: Vec::new(),
        }
    }

    /// Stamps a task to be sent to the worker. A thread that was released takes none.
    pub fn enqueue(&mut self) -> (result: BeaverResult<u64>)
        ensures
            if old(self).released {
                &&& result == Err::<u64, BeaverError>(BeaverError::DamReleased)
                &&& *final(self) == *old(self)
            } else {
                &&& *final(self) == (Dam {
                    enqueue_seq: old(self).enqueue_seq.wrapping_add(1),
                    ..*old(self)
                })
                &&& result == if old(self).open {
                    Ok::<u64, BeaverError>(old(self).enqueue_seq)
                } else {
                    Err(BeaverError::DamReleased)
                }
            },
            old(self).wf() && old(self).enqueue_seq < u64::MAX ==> final(self).wf(),
    {
        if self.released {
            return Err(BeaverError::DamReleased);
        }
        let seq: u64 = self.enqueue_seq;
        self.enqueue_seq = self.enqueue_seq.wrapping_add(1);
        if self.open {
            Ok(seq)
        } else {
            Err(BeaverError::DamReleased)
        }
    }

    /// The result of an enqueued task: a full queue takes none.
    pub fn enqueued(sent: bool) -> (result: BeaverResult<()>)
        ensures
            result == if sent {
                Ok::<(), BeaverError>(())
            } else {
                Err(BeaverError::QueueFull)
            },
    {
        if sent {
            Ok(())
        } else {
            Err(BeaverError::QueueFull)
        }
    }

    /// Cancels every task that was stamped so far.
    pub fn cancel_all(&mut self)
        ensures
            *final(self) == (Dam {
                cancel_watermark: if old(self).cancel_watermark < old(self).enqueue_seq {
                    old(self).enqueue_seq
                } else {
                    old(self).cancel_watermark
                },
                ..*old(self)
            }),
            old(self).wf() ==> final(self).wf(),
    {
        if self.cancel_watermark < self.enqueue_seq {
            self.cancel_watermark = self.enqueue_seq;
        }
    }

    /// Takes no more tasks, and drops those that wait.
    pub fn release(&mut self)
        ensures
            *final(self) == (Dam {
                released: true,
                open: false,
                cancel_watermark: u64::MAX,
                ..*old(self)
            }),
            final(self).wf(),
    {
        self.released = true;
        self.cancel_watermark = u64::MAX;
        self.open = false;
    }

    /// Whether a task with this stamp is dropped.
    pub fn is_dropped(&self, seq: u64) -> (dropped: bool)
        ensures
            dropped == self.drops(seq),
    {
        seq < self.cancel_watermark
    }

    /// Records that a callback panicked.
    pub fn record_callback_failure(&mut self, source: &str, panic: &str)
        ensures
            *final(self) == (Dam { callback_failures: final(self).callback_failures, ..*old(self) }),
            final(self).callback_failures.len() == old(self).callback_failures.len() + 1,
            forall|i: int|
                0 <= i < old(self).callback_failures.len() ==> final(self).callback_failures@[i]
                    == old(self).callback_failures@[i],
            final(self).callback_failures@.last()@ == source@ + ": "@ + panic@,
    {
        let message = crate::text::join3(source, ": ", panic);
        self.callback_failures.push(message);
    }
}

/// A cancellation reaches exactly the tasks that were enqueued before it: those that wait
/// are dropped, those that come later are not.
pub proof fn lemma_cancellation_reaches_what_was_enqueued(before: Dam, after: Dam, seq: u64)
    requires
        before.wf(),
        !before.released,
        after == (Dam {
            cancel_watermark: if before.cancel_watermark < before.enqueue_seq {
                before.enqueue_seq
            } else {
                before.cancel_watermark
            },
            ..before
        }),
    ensures
        seq < before.enqueue_seq <==> after.drops(seq),
{
}

/// Once a thread was released, every task is dropped but for the one stamp that can no
/// longer be given out.
pub proof fn lemma_release_drops_everything(dam: Dam, seq: u64)
    requires
        dam.cancel_watermark == u64::MAX,
        seq < u64::MAX,
    ensures
        dam.drops(seq),
{
}

/// The cancellation of one run of a task, which its listener is told once.
#[derive(Clone, Copy, Debug, Eq, PartialEq, Structural)]
pub struct LegacyExecution {
    pub cancelled: bool,
    pub interrupt_notified: bool,
}

impl LegacyExecution {
    /// Not cancelled.
    pub fn new() -> (execution: Self)
        ensures
            execution == (LegacyExecution { cancelled: false, interrupt_notified: false }),
    {
        LegacyExecution { cancelled: false, interrupt_notified: false }
    }

    /// Whether the run was cancelled.
    pub fn is_cancelled(&self) -> (cancelled: bool)
        ensures
            cancelled == self.cancelled,
    {
        self.cancelled
    }

    /// Cancels the run; says whether it was cancelled for the first time. The task is marked
    /// as interrupted then.
    pub fn cancel<W>(&mut self, task: &mut Task<W>) -> (first: bool)
        ensures
            first == !old(self).cancelled,
            *final(self) == (LegacyExecution { cancelled: true, ..*old(self) }),
            *final(task) == if first {
                old(task).marked(true)
            } else {
                *old(task)
            },
    {
        let first: bool = !self.cancelled;
        self.cancelled = true;
        if first {
            task.set_interrupted(true);
        }
        first
    }

    /// Cancels the run; says whether it was cancelled for the first time, and whether the
    /// listener is to be told.
    pub fn notify_interrupt<W>(&mut self, task: &mut Task<W>) -> (told: (bool, bool))
        ensures
            told == (!old(self).cancelled, !old(self).interrupt_notified),
            *final(self) == (LegacyExecution { cancelled: true, interrupt_notified: true }),
            *final(task) == if !old(self).cancelled {
                old(task).marked(true)
            } else {
                *old(task)
            },
    {
        let first: bool = self.cancel(task);
        let tell: bool = !self.interrupt_notified;
        self.interrupt_notified = true;
        (first, tell)
    }
}

/// However a run is cancelled, its task is marked as interrupted from then on.
pub proof fn lemma_cancelled_task_is_interrupted<W>(task: Task<W>)
    ensures
        task.marked(true).was_interrupted(),
        task.marked(true).marked(true) == task.marked(true),
        task.marked(true).attempts() == task.attempts(),
        task.wf() ==> task.marked(true).wf(),
{
}

/// How a run of a task ends.
#[derive(Clone, Copy, Debug, Eq, PartialEq, Structural)]
pub enum LegacyEnd {
    /// It was cancelled.
    Interrupted,
    /// The work was done.
    Completed,
    /// Every attempt wants another one.
    Exhausted,
    /// There was nothing to do.
    Nothing,
}

/// What a run of a task does next.
#[derive(Clone, Copy, Debug)]
pub enum LegacyStep {
    /// Wait; a wait of zero only gives others a turn.
    Sleep { delay: Duration },
    /// Tell about attempt `current` of `total`.
    Progress { current: u32, total: u32 },
    /// Do the work.
    Execute,
    /// End.
    End(LegacyEnd),
}

/// A run of a task between two steps.
#[derive(Clone, Copy, Debug, Eq, PartialEq, Structural)]
pub struct LegacyRun {
    /// The index of the attempt.
    pub attempt: u64,
}

/// Whether the task makes an attempt with this index.
pub open spec fn makes_attempt<W>(task: Task<W>, attempt: nat) -> bool {
    task.attempts() matches Some(total) ==> attempt < total
}

/// Whether `step` begins the attempt with this index.
pub open spec fn begins<W>(task: Task<W>, attempt: nat, cancelled: bool, step: LegacyStep) -> bool {
    if !makes_attempt(task, attempt) {
        step == LegacyStep::End(LegacyEnd::Nothing)
    } else if cancelled {
        step == LegacyStep::End(LegacyEnd::Interrupted)
    } else {
        match task {
            Task::TimeInterval(task) => {
                &&& step matches LegacyStep::Sleep { delay }
                &&& delay@ == task.intervals@[attempt as int] * 1_000_000
            },
            Task::RangeInterval(task) => if attempt == 0 {
                step == LegacyStep::Execute
            } else {
                &&& step matches LegacyStep::Sleep { delay }
                &&& delay@ == task.intervals.delay(attempt - 1) * 1_000_000
            },
            Task::FixedCount(task) => step == if task.progress is Some {
                LegacyStep::Progress { current: (attempt + 1) as u32, total: task.count }
            } else {
                LegacyStep::Execute
            },
            Task::Periodic(_) => step == LegacyStep::Execute,
        }
    }
}

impl LegacyRun {
    /// The run is in an attempt that the task makes.
    pub open spec fn wf<W>(&self, task: Task<W>) -> bool {
        &&& task.wf()
        &&& task.attempts() matches Some(total) ==> total <= u64::MAX
    }

    /// Begins the run: a periodic task may wait first.
    pub fn start<W>(task: &Task<W>, cancelled: bool) -> (started: (Self, LegacyStep))
        requires
            task.wf(),
            task.attempts() matches Some(total) ==> total <= u64::MAX,
        ensures
            started.0.attempt == 0,
            started.0.wf(*task),
            if *task is Periodic && task->Periodic_0.initial_delay {
                started.1 == (LegacyStep::Sleep { delay: task->Periodic_0.interval })
            } else {
                begins(*task, 0, cancelled, started.1)
            },
    {
        let run = LegacyRun { attempt: 0 };
        if let Task::Periodic(periodic) = task {
            if periodic.initial_delay {
                return (run, LegacyStep::Sleep { delay: periodic.interval });
            }
        }
        let step = run.begin(task, cancelled);
        (run, step)
    }

    fn begin<W>(&self, task: &Task<W>, cancelled: bool) -> (step: LegacyStep)
        requires
            self.wf(*task),
        ensures
            begins(*task, self.attempt as nat, cancelled, step),
    {
        match task {
            Task::TimeInterval(task) => {
                if self.attempt >= task.intervals.len() as u64 {
                    return LegacyStep::End(LegacyEnd::Nothing);
                }
                if cancelled {
                    return LegacyStep::End(LegacyEnd::Interrupted);
                }
                let index: usize = self.attempt as usize;
                LegacyStep::Sleep { delay: Duration::from_millis(task.intervals[index]) }
            },
            Task::RangeInterval(task) => {
                if self.attempt >= task.total_retries as u64 {
                    return LegacyStep::End(LegacyEnd::Nothing);
                }
                if cancelled {
                    return LegacyStep::End(LegacyEnd::Interrupted);
                }
                if self.attempt == 0 {
                    return LegacyStep::Execute;
                }
                let index: usize = (self.attempt - 1) as usize;
                match task.interval_millis(index) {
                    Some(millis) => LegacyStep::Sleep { delay: Duration::from_millis(millis) },
                    None => {
                        assert(false);
                        LegacyStep::Execute
                    },
                }
            },
            Task::FixedCount(task) => {
                if self.attempt >= task.count as u64 {
                    return LegacyStep::End(LegacyEnd::Nothing);
                }
                if cancelled {
                    return LegacyStep::End(LegacyEnd::Interrupted);
                }
                if task.progress.is_some() {
                    LegacyStep::Progress {
                        current: (self.attempt + 1) as u32,
                        total: task.count,
                    }
                } else {
                    LegacyStep::Execute
                }
            },
            Task::Periodic(_) => {
                if cancelled {
                    return LegacyStep::End(LegacyEnd::Interrupted);
                }
                LegacyStep::Execute
            },
        }
    }

    /// Goes on after a wait or a progress report.
    pub fn ready(cancelled: bool) -> (step: LegacyStep)
        ensures
            step == if cancelled {
                LegacyStep::End(LegacyEnd::Interrupted)
            } else {
                LegacyStep::Execute
            },
    {
        if cancelled {
            LegacyStep::End(LegacyEnd::Interrupted)
        } else {
            LegacyStep::Execute
        }
    }

    /// Goes on after the work returned.
    pub fn executed<W>(&mut self, task: &Task<W>, need_retry: bool, cancelled: bool) -> (step:
        LegacyStep)
        requires
            old(self).wf(*task),
            makes_attempt(*task, old(self).attempt as nat),
        ensures
            final(self).wf(*task),
            if cancelled {
                &&& step == LegacyStep::End(LegacyEnd::Interrupted)
                &&& *final(self) == *old(self)
            } else if !need_retry {
                &&& step == LegacyStep::End(LegacyEnd::Completed)
                &&& *final(self) == *old(self)
            } else if *task is Periodic {
                &&& step == (LegacyStep::Sleep { delay: task->Periodic_0.interval })
                &&& *final(self) == *old(self)
            } else if old(self).attempt + 1 == task.attempts()->0 {
                &&& step == LegacyStep::End(LegacyEnd::Exhausted)
                &&& *final(self) == *old(self)
            } else {
                &&& final(self).attempt == old(self).attempt + 1
                &&& makes_attempt(*task, final(self).attempt as nat)
                &&& begins(*task, final(self).attempt as nat, false, step)
            },
    {
        if cancelled {
            return LegacyStep::End(LegacyEnd::Interrupted);
        }
        if !need_retry {
            return LegacyStep::End(LegacyEnd::Completed);
        }
        let total: u64 = match task {
            Task::Periodic(periodic) => {
                return LegacyStep::Sleep { delay: periodic.interval };
            },
            Task::TimeInterval(task) => task.intervals.len() as u64,
            Task::RangeInterval(task) => task.total_retries as u64,
            Task::FixedCount(task) => task.count as u64,
        };
        if self.attempt + 1 == total {
            return LegacyStep::End(LegacyEnd::Exhausted);
        }
        self.attempt = self.attempt + 1;
        self.begin(task, false)
    }
}

/// What the worker does when the run of a task came back.
#[derive(Debug)]
pub enum WorkerStep {
    /// Take the next task.
    Next,
    /// Tell the listener of a failure; then wait and run the task again, or take the next
    /// one.
    Failed { error: RuntimeError, restart: Option<Duration> },
}

/// A panic is told to the listener. A periodic task that was not cancelled heals: it runs
/// again after its interval.
pub fn run_returned<W>(
    task: &Task<W>,
    cancelled: bool,
    result: Result<(), JoinFailure>,
) -> (step: WorkerStep)
    ensures
        match result {
            Err(JoinFailure::Panicked { message: Some(message) }) => step == (WorkerStep::Failed {
                error: RuntimeError::TaskExecutionFailed(message),
                restart: match *task {
                    Task::Periodic(periodic) => if cancelled {
                        None
                    } else {
                        Some(periodic.interval)
                    },
                    _ => None,
                },
            }),
            _ => step == WorkerStep::Next,
        },
{
    match result {
        Err(JoinFailure::Panicked { message: Some(message) }) => {
            let restart: Option<Duration> = match task {
                Task::Periodic(periodic) => if cancelled {
                    None
                } else {
                    Some(periodic.interval)
                },
                _ => None,
            };
            WorkerStep::Failed { error: RuntimeError::TaskExecutionFailed(message), restart }
        },
        _ => WorkerStep::Next,
    }
}

/// What the listener of a run is told at its end, if anything.
pub fn end_error(end: LegacyEnd) -> (error: Option<RuntimeError>)
    ensures
        error == if end == LegacyEnd::Exhausted {
            Some(RuntimeError::RetriesExhausted)
        } else {
            None
        },
{
    match end {
        LegacyEnd::Exhausted => Some(RuntimeError::RetriesExhausted),
        _ => None,
    }
}

/// A task is dropped exactly if it was stamped before the last cancellation. A task that is
/// enqueued after it gets a stamp that is not.
pub proof fn lemma_which_tasks_are_dropped(dam: Dam, seq: u64)
    ensures
        dam.drops(seq) <==> seq < dam.cancel_watermark,
        dam.wf() && !dam.released ==> !dam.drops(dam.enqueue_seq),
{
}

/// The attempts of a task: one for each interval, as many as were asked for, or without end.
pub proof fn lemma_which_attempts_are_made<W>(task: Task<W>, attempt: nat)
    ensures
        task matches Task::TimeInterval(timed) ==> (makes_attempt(task, attempt) <==> attempt
            < timed.intervals.len()),
        task matches Task::RangeInterval(ranged) ==> (makes_attempt(task, attempt) <==> attempt
            < ranged.total_retries),
        task matches Task::FixedCount(counted) ==> (makes_attempt(task, attempt) <==> attempt
            < counted.count),
        task is Periodic ==> makes_attempt(task, attempt),
{
}

/// How an attempt begins: after its own interval, at once where it is the first one of
/// ranges, after the delay of the retry before it else, with a report where one is wanted,
/// or at once. A cancellation ends the run instead, and past the last attempt there is
/// nothing to do.
pub proof fn lemma_how_attempts_begin<W>(
    task: Task<W>,
    attempt: nat,
    cancelled: bool,
    step: LegacyStep,
)
    requires
        begins(task, attempt, cancelled, step),
    ensures
        makes_attempt(task, attempt) && cancelled ==> step == LegacyStep::End(
            LegacyEnd::Interrupted,
        ),
        !makes_attempt(task, attempt) ==> step == LegacyStep::End(LegacyEnd::Nothing),
        makes_attempt(task, attempt) && !cancelled ==> {
            &&& task matches Task::TimeInterval(timed) ==> {
                &&& step matches LegacyStep::Sleep { delay }
                &&& delay@ == timed.intervals@[attempt as int] * 1_000_000
            }
            &&& task matches Task::RangeInterval(ranged) ==> {
                &&& attempt == 0 ==> step is Execute
                &&& attempt > 0 ==> {
                    &&& step matches LegacyStep::Sleep { delay }
                    &&& delay@ == ranged.intervals.delay(attempt - 1) * 1_000_000
                }
            }
            &&& task matches Task::FixedCount(counted) ==> {
                &&& counted.progress is None ==> step is Execute
                &&& counted.progress is Some ==> {
                    &&& step matches LegacyStep::Progress { current, total }
                    &&& current == attempt + 1
                    &&& total == counted.count
                }
            }
            &&& task is Periodic ==> step is Execute
        },
        step is Execute || step is Sleep || step is Progress ==> !cancelled && makes_attempt(
            task,
            attempt,
        ),
{
}

} // verus!
