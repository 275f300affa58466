//! Tasks with a fixed retry strategy.

use crate::fixed_count_task::FixedCountTask;
use crate::ids::{is_random_uuid, random_uuid};
use crate::listener::WorkListener;
use crate::periodic_task::PeriodicTask;
use crate::range_interval_task::RangeIntervalTask;
use std::sync::Arc;
use vstd::prelude::*;

verus! {

/// The identity of a task.
#[derive(Clone, Copy, Debug, Eq, PartialEq, Structural)]
pub struct TaskId(pub u128);

impl TaskId {
    /// A random identity.
    pub fn new() -> (id: Self)
        ensures
            is_random_uuid(id.0),
    {
        TaskId(random_uuid())
    }
}

/// A task that waits before each of its attempts.
pub struct TimeIntervalTask<W> {
    pub id: TaskId,
    pub work: W,
    /// The wait before each attempt, in milliseconds.
    pub intervals: Vec<u64>,
    pub tag: Option<String>,
    pub listener: Option<Arc<dyn WorkListener>>,
    /// Whether the task was interrupted.
    pub interrupted: bool,
}

/// A task.
pub enum Task<W> {
    TimeInterval(TimeIntervalTask<W>),
    RangeInterval(RangeIntervalTask<W>),
    FixedCount(FixedCountTask<W>),
    Periodic(PeriodicTask<W>),
}

impl<W> Task<W> {
    /// The delays of a range interval task are sound.
    pub open spec fn wf(&self) -> bool {
        self matches Task::RangeInterval(task) ==> task.wf()
    }

    /// Whether the task was interrupted.
    pub open spec fn was_interrupted(&self) -> bool {
        match *self {
            Task::TimeInterval(task) => task.interrupted,
            Task::RangeInterval(task) => task.interrupted,
            Task::FixedCount(task) => task.interrupted,
            Task::Periodic(task) => task.interrupted,
        }
    }

    /// The task with another mark of interruption.
    pub open spec fn marked(self, interrupted: bool) -> Task<W> {
        match self {
            Task::TimeInterval(task) => Task::TimeInterval(
                TimeIntervalTask { interrupted, ..task },
            ),
            Task::RangeInterval(task) => Task::RangeInterval(
                RangeIntervalTask { interrupted, ..task },
            ),
            Task::FixedCount(task) => Task::FixedCount(FixedCountTask { interrupted, ..task }),
            Task::Periodic(task) => Task::Periodic(PeriodicTask { interrupted, ..task }),
        }
    }

    /// Whether the task was interrupted, in any of its runs.
    pub fn interrupted(&self) -> (interrupted: bool)
        ensures
            interrupted == self.was_interrupted(),
    {
        match self {
            Task::TimeInterval(task) => task.interrupted,
            Task::RangeInterval(task) => task.interrupted,
            Task::FixedCount(task) => task.interrupted,
            Task::Periodic(task) => task.interrupted,
        }
    }

    /// Marks the task as interrupted, or as not.
    pub fn set_interrupted(&mut self, interrupted: bool)
        ensures
            *final(self) == old(self).marked(interrupted),
            final(self).was_interrupted() == interrupted,
            old(self).wf() ==> final(self).wf(),
            final(self).attempts() == old(self).attempts(),
    {
        match self {
            Task::TimeInterval(task) => {
                task.interrupted = interrupted;
            },
            Task::RangeInterval(task) => {
                task.interrupted = interrupted;
            },
            Task::FixedCount(task) => {
                task.interrupted = interrupted;
            },
            Task::Periodic(task) => {
                task.interrupted = interrupted;
            },
        }
    }

    /// How many attempts the task makes at most; a periodic task has no bound.
    pub open spec fn attempts(&self) -> Option<nat> {
        match *self {
            Task::TimeInterval(task) => Some(task.intervals.len() as nat),
            Task::RangeInterval(task) => Some(task.total_retries as nat),
            Task::FixedCount(task) => Some(task.count as nat),
            Task::Periodic(_) => None,
        }
    }
}

/// A mark of interruption changes nothing else of a task, and is what the task then shows;
/// of two marks the second counts.
pub proof fn lemma_marks_change_nothing_else<W>(task: Task<W>, interrupted: bool, again: bool)
    ensures
        task.marked(interrupted).was_interrupted() == interrupted,
        task.marked(interrupted).marked(again) == task.marked(again),
        task.marked(task.was_interrupted()) == task,
        task matches Task::TimeInterval(timed) ==> (task.was_interrupted() <==> timed.interrupted),
        task matches Task::RangeInterval(ranged) ==> (task.was_interrupted()
            <==> ranged.interrupted),
        task matches Task::FixedCount(counted) ==> (task.was_interrupted()
            <==> counted.interrupted),
        task matches Task::Periodic(periodic) ==> (task.was_interrupted()
            <==> periodic.interrupted),
        task matches Task::TimeInterval(timed) ==> task.attempts() == Some(
            timed.intervals@.len(),
        ),
        task is Periodic <==> task.attempts() is None,
{
}

} // verus!
