//! Tasks that make a fixed number of attempts.

use crate::error::{BeaverError, BeaverResult};
use crate::ids::is_random_uuid;
use crate::listener::{FixedCountProgress, WorkListener};
use crate::task::{Task, TaskId};
use std::sync::Arc;
use vstd::prelude::*;

verus! {

/// A task that makes at most `count` attempts.
pub struct FixedCountTask<W> {
    pub id: TaskId,
    pub work: W,
    pub count: u32,
    pub tag: Option<String>,
    pub progress: Option<Arc<dyn FixedCountProgress>>,
    pub listener: Option<Arc<dyn WorkListener>>,
    /// Whether the task was interrupted.
    pub interrupted: bool,
}

/// Builds a task that makes a fixed number of attempts.
pub struct FixedCountBuilder<W> {
    pub work: Option<W>,
    pub count: u32,
    pub tag: Option<String>,
    pub progress: Option<Arc<dyn FixedCountProgress>>,
    pub listener: Option<Arc<dyn WorkListener>>,
}

impl<W> FixedCountBuilder<W> {
    /// There is work, and at least one attempt at it: then every build succeeds.
    pub open spec fn wf(&self) -> bool {
        self.work is Some && self.count >= 1
    }

    /// Three attempts.
    pub fn new(work: W) -> (builder: Self)
        ensures
            builder.wf(),
            builder.work == Some(work),
            builder.count == 3,
            builder.tag is None,
            builder.progress is None,
            builder.listener is None,
    {
        FixedCountBuilder { work: Some(work), count: 3, tag: None, progress: None, listener: None }
    }

    /// Sets how many attempts are made at most; at least one is.
    pub fn count(self, n: u32) -> (builder: Self)
        ensures
            builder == (FixedCountBuilder {
                count: if n < 1 {
                    1
                } else {
                    n
                },
                ..self
            }),
            self.wf() ==> builder.wf(),
    {
        let count: u32 = if n < 1 {
            1
        } else {
            n
        };
        FixedCountBuilder { count, ..self }
    }

    /// Sets the tag.
    pub fn tag(self, tag: String) -> (builder: Self)
        ensures
            builder == (FixedCountBuilder { tag: Some(tag), ..self }),
            self.wf() ==> builder.wf(),
    {
        FixedCountBuilder { tag: Some(tag), ..self }
    }

    /// Sets what is called before each attempt.
    pub fn progress(self, progress: Arc<dyn FixedCountProgress>) -> (builder: Self)
        ensures
            builder.progress is Some,
            builder.progress->0 == progress,
            builder == (FixedCountBuilder { progress: builder.progress, ..self }),
            self.wf() ==> builder.wf(),
    {
        let progress = Some(progress);
        FixedCountBuilder { progress, ..self }
    }

    /// Sets who is told about the end.
    pub fn listener(self, listener: Arc<dyn WorkListener>) -> (builder: Self)
        ensures
            builder.listener is Some,
            builder.listener->0 == listener,
            builder == (FixedCountBuilder { listener: builder.listener, ..self }),
            self.wf() ==> builder.wf(),
    {
        let listener = Some(listener);
        FixedCountBuilder { listener, ..self }
    }

    /// The task; work is required.
    pub fn build(self) -> (result: BeaverResult<Arc<Task<W>>>)
        ensures
            self.wf() ==> result is Ok,
            match self.work {
                None => result matches Err(BeaverError::BuilderMissingField(field)) && field@
                    == "work"@,
                Some(work) => {
                    &&& result matches Ok(task)
                    &&& *task matches Task::FixedCount(built)
                    &&& is_random_uuid(built.id.0)
                    &&& self.wf() ==> built.count >= 1
                    &&& built == (FixedCountTask {
                        id: built.id,
                        work,
                        count: self.count,
                        tag: self.tag,
                        progress: self.progress,
                        listener: self.listener,
                        interrupted: false,
                    })
                },
            },
    {
        match self.work {
            None => Err(BeaverError::BuilderMissingField("work")),
            Some(work) => Ok(
                Arc::new(
                    Task::FixedCount(
                        FixedCountTask {
                            id: TaskId::new(),
                            work,
                            count: self.count,
                            tag: self.tag,
                            progress: self.progress,
                            listener: self.listener,
                            interrupted: false,
                        },
                    ),
                ),
            ),
        }
    }
}

} // verus!
