//! Tasks that repeat at an interval until they are done or interrupted.

use crate::error::{BeaverError, BeaverResult};
use crate::ids::is_random_uuid;
use crate::listener::WorkListener;
use crate::task::{Task, TaskId};
use crate::time::Duration;
use std::sync::Arc;
use vstd::prelude::*;

verus! {

/// A task that repeats.
pub struct PeriodicTask<W> {
    pub id: TaskId,
    pub work: W,
    /// The wait between two attempts.
    pub interval: Duration,
    /// Whether the first attempt waits too.
    pub initial_delay: bool,
    pub tag: Option<String>,
    pub listener: Option<Arc<dyn WorkListener>>,
    /// Whether the task was interrupted.
    pub interrupted: bool,
}

/// Builds a task that repeats.
pub struct PeriodicBuilder<W> {
    pub work: Option<W>,
    pub interval: Duration,
    pub initial_delay: bool,
    pub tag: Option<String>,
    pub listener: Option<Arc<dyn WorkListener>>,
}

impl<W> PeriodicBuilder<W> {
    /// There is work: then every build succeeds.
    pub open spec fn wf(&self) -> bool {
        self.work is Some
    }

    /// Without an interval; the first attempt does not wait.
    pub fn new(work: W) -> (builder: Self)
        ensures
            builder.wf(),
            builder.work == Some(work),
            builder.interval@ == 0,
            !builder.initial_delay,
            builder.tag is None,
            builder.listener is None,
    {
        PeriodicBuilder {
            work: Some(work),
            interval: Duration::zero(),
            initial_delay: false,
            tag: None,
            listener: None,
        }
    }

    /// Sets the interval.
    pub fn interval(self, duration: Duration) -> (builder: Self)
        ensures
            builder == (PeriodicBuilder { interval: duration, ..self }),
            self.wf() ==> builder.wf(),
    {
        PeriodicBuilder { interval: duration, ..self }
    }

    /// Sets whether the first attempt waits for one interval.
    pub fn initial_delay(self, delay: bool) -> (builder: Self)
        ensures
            builder == (PeriodicBuilder { initial_delay: delay, ..self }),
            self.wf() ==> builder.wf(),
    {
        PeriodicBuilder { initial_delay: delay, ..self }
    }

    /// Sets the tag.
    pub fn tag(self, tag: String) -> (builder: Self)
        ensures
            builder == (PeriodicBuilder { tag: Some(tag), ..self }),
            self.wf() ==> builder.wf(),
    {
        PeriodicBuilder { tag: Some(tag), ..self }
    }

    /// Sets who is told about the end.
    pub fn listener(self, listener: Arc<dyn WorkListener>) -> (builder: Self)
        ensures
            builder.listener is Some,
            builder.listener->0 == listener,
            builder == (PeriodicBuilder { listener: builder.listener, ..self }),
            self.wf() ==> builder.wf(),
    {
        let listener = Some(listener);
        PeriodicBuilder { listener, ..self }
    }

    /// The task; work is required.
    pub fn build(self) -> (result: BeaverResult<Arc<Task<W>>>)
        ensures
            self.wf() ==> result is Ok,
            match self.work {
                None => result matches Err(BeaverError::BuilderMissingField(field)) && field@
                    == "work"@,
                Some(work) => {
                    &&& result matches Ok(task)
                    &&& *task matches Task::Periodic(built)
                    &&& is_random_uuid(built.id.0)
                    &&& built == (PeriodicTask {
                        id: built.id,
                        work,
                        interval: self.interval,
                        initial_delay: self.initial_delay,
                        tag: self.tag,
                        listener: self.listener,
                        interrupted: false,
                    })
                },
            },
    {
        match self.work {
            None => Err(BeaverError::BuilderMissingField("work")),
            Some(work) => Ok(
                Arc::new(
                    Task::Periodic(
                        PeriodicTask {
                            id: TaskId::new(),
                            work,
                            interval: self.interval,
                            initial_delay: self.initial_delay,
                            tag: self.tag,
                            listener: self.listener,
                            interrupted: false,
                        },
                    ),
                ),
            ),
        }
    }
}

} // verus!
