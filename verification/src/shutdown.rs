//! Progress of cleanup after an execution ended its work, and how a shutdown is configured.

use crate::text;
use crate::time::Duration;
use vstd::prelude::*;
use vstd::string::StringExecFns;

verus! {

/// What cleanup waits for.
#[derive(Clone, Copy, Debug, Eq, PartialEq, Structural)]
#[non_exhaustive]
pub enum CleanupPhase {
    /// Child tasks that the execution tracks.
    TrackedChildren,
    /// The worker that runs the execution.
    WorkerJoin,
}

impl CleanupPhase {
    /// The name of the phase.
    pub open spec fn name_spec(self) -> Seq<char> {
        match self {
            CleanupPhase::TrackedChildren => "TrackedChildren"@,
            CleanupPhase::WorkerJoin => "WorkerJoin"@,
        }
    }

    /// The name of the phase.
    pub fn name(self) -> (name: &'static str)
        ensures
            name@ == self.name_spec(),
            match self {
                CleanupPhase::TrackedChildren => name@ == "TrackedChildren"@,
                CleanupPhase::WorkerJoin => name@ == "WorkerJoin"@,
            },
    {
        match self {
            CleanupPhase::TrackedChildren => "TrackedChildren",
            CleanupPhase::WorkerJoin => "WorkerJoin",
        }
    }
}

/// How cleanup ended.
#[derive(Debug)]
#[non_exhaustive]
pub enum CleanupOutcome {
    /// There was nothing to clean up.
    NotRequired,
    /// Everything was cleaned up.
    Completed,
    /// Cleanup failed.
    Failed(String),
    /// The work was dropped.
    ForcedCancelled {
        /// Whether the drop was confirmed.
        confirmed: bool,
    },
}

impl CleanupOutcome {
    /// Whether the outcome is a failure, which a later success must not hide.
    pub open spec fn is_failure(&self) -> bool {
        self is Failed || self is ForcedCancelled
    }
}

impl Clone for CleanupOutcome {
    fn clone(&self) -> (copy: Self)
        ensures
            copy == *self,
    {
        match self {
            CleanupOutcome::NotRequired => CleanupOutcome::NotRequired,
            CleanupOutcome::Completed => CleanupOutcome::Completed,
            CleanupOutcome::Failed(message) => CleanupOutcome::Failed(message.clone()),
            CleanupOutcome::ForcedCancelled { confirmed } => {
                CleanupOutcome::ForcedCancelled { confirmed: *confirmed }
            },
        }
    }
}

/// Where cleanup stands.
#[derive(Debug)]
#[non_exhaustive]
pub enum CleanupProgress {
    /// There is nothing to clean up.
    NotRequired,
    /// Cleanup waits.
    Pending {
        /// For this.
        phase: CleanupPhase,
    },
    /// Cleanup is over.
    Finished(CleanupOutcome),
}

impl Clone for CleanupProgress {
    fn clone(&self) -> (copy: Self)
        ensures
            copy == *self,
    {
        match self {
            CleanupProgress::NotRequired => CleanupProgress::NotRequired,
            CleanupProgress::Pending { phase } => CleanupProgress::Pending { phase: *phase },
            CleanupProgress::Finished(outcome) => CleanupProgress::Finished(outcome.clone()),
        }
    }
}

impl CleanupProgress {
    /// Whether cleanup ended in failure.
    pub open spec fn failed(&self) -> bool {
        self matches CleanupProgress::Finished(outcome) && outcome.is_failure()
    }

    /// The progress when cleanup starts to wait; a failure stays.
    pub open spec fn begun(self, phase: CleanupPhase) -> CleanupProgress {
        if self.failed() {
            self
        } else {
            CleanupProgress::Pending { phase }
        }
    }

    /// The progress when cleanup ends; a failure is not hidden by a success.
    pub open spec fn finished(self, outcome: CleanupOutcome) -> CleanupProgress {
        if self.failed() && !outcome.is_failure() {
            self
        } else {
            CleanupProgress::Finished(outcome)
        }
    }

    /// The progress when cleanup starts to wait; a failure stays.
    pub fn begin(self, phase: CleanupPhase) -> (progress: CleanupProgress)
        ensures
            progress == self.begun(phase),
    {
        match self {
            CleanupProgress::Finished(CleanupOutcome::Failed(message)) => {
                CleanupProgress::Finished(CleanupOutcome::Failed(message))
            },
            CleanupProgress::Finished(CleanupOutcome::ForcedCancelled { confirmed }) => {
                CleanupProgress::Finished(CleanupOutcome::ForcedCancelled { confirmed })
            },
            _ => CleanupProgress::Pending { phase },
        }
    }

    /// The progress when cleanup ends; a failure is not hidden by a success.
    pub fn finish(self, outcome: CleanupOutcome) -> (progress: CleanupProgress)
        ensures
            progress == self.finished(outcome),
    {
        let success: bool = match &outcome {
            CleanupOutcome::Completed => true,
            CleanupOutcome::NotRequired => true,
            _ => false,
        };
        match self {
            CleanupProgress::Finished(CleanupOutcome::Failed(message)) => {
                if success {
                    CleanupProgress::Finished(CleanupOutcome::Failed(message))
                } else {
                    CleanupProgress::Finished(outcome)
                }
            },
            CleanupProgress::Finished(CleanupOutcome::ForcedCancelled { confirmed }) => {
                if success {
                    CleanupProgress::Finished(CleanupOutcome::ForcedCancelled { confirmed })
                } else {
                    CleanupProgress::Finished(outcome)
                }
            },
            _ => CleanupProgress::Finished(outcome),
        }
    }
}

/// How cleanup ended, once nothing is waited for any more: what still waits failed.
pub fn final_cleanup_outcome(progress: CleanupProgress) -> (outcome: CleanupOutcome)
    ensures
        final_outcome(progress, outcome),
{
    match progress {
        CleanupProgress::NotRequired => CleanupOutcome::NotRequired,
        CleanupProgress::Finished(outcome) => outcome,
        CleanupProgress::Pending { phase } => {
            CleanupOutcome::Failed(text::join2("cleanup remained pending in phase ", phase.name()))
        },
    }
}

/// Which work a shutdown asks to stop.
#[derive(Clone, Copy, Debug, Eq, PartialEq, Structural)]
#[non_exhaustive]
pub enum ShutdownMode {
    /// All of it.
    CancelAll,
    /// Work that would not end by itself.
    DrainFinite,
}

/// What a shutdown does when its grace period is over.
#[derive(Clone, Copy, Debug, Eq, PartialEq, Structural)]
#[non_exhaustive]
pub enum ShutdownTimeoutAction {
    /// There is no end to the grace period.
    Wait,
    /// It reports what did not stop.
    Report,
    /// It reports what did not stop, and drops the work that allows it.
    AbortAllowed,
}

/// How an executor shuts down.
#[derive(Clone, Copy, Debug, Eq, PartialEq, Structural)]
pub struct ShutdownOptions {
    pub mode: ShutdownMode,
    pub timeout_action: ShutdownTimeoutAction,
    pub grace_period: Duration,
}

/// How the cleanup of an execution is reported before it is known to be over.
pub open spec fn reported_cleanup(cleanup: CleanupProgress, terminal: bool) -> CleanupProgress {
    match cleanup {
        CleanupProgress::NotRequired => if terminal {
            CleanupProgress::Finished(CleanupOutcome::NotRequired)
        } else {
            CleanupProgress::Pending { phase: CleanupPhase::WorkerJoin }
        },
        _ => cleanup,
    }
}

/// How the cleanup of an execution ends, once nothing is waited for any more.
pub open spec fn final_outcome(progress: CleanupProgress, outcome: CleanupOutcome) -> bool {
    match progress {
        CleanupProgress::NotRequired => outcome is NotRequired,
        CleanupProgress::Finished(finished) => outcome == finished,
        CleanupProgress::Pending { phase } => {
            &&& outcome is Failed
            &&& outcome->Failed_0@ == "cleanup remained pending in phase "@ + phase.name_spec()
        },
    }
}

/// Once cleanup failed it stays failed, whatever it waits for and however it ends.
pub proof fn lemma_cleanup_failure_is_kept(
    progress: CleanupProgress,
    phase: CleanupPhase,
    outcome: CleanupOutcome,
)
    requires
        progress.failed(),
    ensures
        progress.begun(phase).failed(),
        progress.finished(outcome).failed(),
        !outcome.is_failure() ==> progress.finished(outcome) == progress,
{
}

/// Only a failure outlasts what comes after it: cleanup that failed or was cut short stays
/// so unless another failure comes, and any other progress gives way.
pub proof fn lemma_only_failures_outlast(
    progress: CleanupProgress,
    phase: CleanupPhase,
    outcome: CleanupOutcome,
)
    ensures
        progress.failed() <==> progress matches CleanupProgress::Finished(CleanupOutcome::Failed(_))
            || progress matches CleanupProgress::Finished(CleanupOutcome::ForcedCancelled { .. }),
        !(progress is Finished) ==> progress.begun(phase) == (CleanupProgress::Pending { phase }),
        progress == CleanupProgress::Finished(CleanupOutcome::Completed) ==> progress.begun(phase)
            == (CleanupProgress::Pending { phase }),
        !(progress is Finished) ==> progress.finished(outcome) == CleanupProgress::Finished(
            outcome,
        ),
        progress == CleanupProgress::Finished(CleanupOutcome::Completed) ==> progress.finished(
            outcome,
        ) == CleanupProgress::Finished(outcome),
        outcome is Failed || outcome is ForcedCancelled ==> progress.finished(outcome)
            == CleanupProgress::Finished(outcome),
        progress matches CleanupProgress::Finished(CleanupOutcome::Failed(_)) ==> progress.begun(
            phase,
        ) == progress && progress.finished(CleanupOutcome::Completed) == progress,
        progress matches CleanupProgress::Finished(CleanupOutcome::ForcedCancelled { .. })
            ==> progress.begun(phase) == progress && progress.finished(CleanupOutcome::Completed)
            == progress,
{
}

/// Cleanup that is over ends as it ended; where nothing is to be cleaned up nothing was; what
/// still waits failed, and the text says in which phase.
pub proof fn lemma_waiting_cleanup_fails(progress: CleanupProgress, outcome: CleanupOutcome)
    requires
        final_outcome(progress, outcome),
    ensures
        progress matches CleanupProgress::Finished(finished) ==> outcome == finished,
        progress is NotRequired ==> outcome is NotRequired,
        progress == (CleanupProgress::Pending { phase: CleanupPhase::TrackedChildren }) ==> {
            &&& outcome matches CleanupOutcome::Failed(message)
            &&& message@ == "cleanup remained pending in phase "@ + "TrackedChildren"@
        },
        progress == (CleanupProgress::Pending { phase: CleanupPhase::WorkerJoin }) ==> {
            &&& outcome matches CleanupOutcome::Failed(message)
            &&& message@ == "cleanup remained pending in phase "@ + "WorkerJoin"@
        },
{
}

/// Before it is known to be over, cleanup is reported as it stands; an execution that needs
/// none is done if it ended, and else waits for its worker.
pub proof fn lemma_cleanup_is_reported_as_it_stands(cleanup: CleanupProgress, terminal: bool)
    ensures
        !(cleanup is NotRequired) ==> reported_cleanup(cleanup, terminal) == cleanup,
        cleanup is NotRequired && terminal ==> reported_cleanup(cleanup, terminal)
            == CleanupProgress::Finished(CleanupOutcome::NotRequired),
        cleanup is NotRequired && !terminal ==> reported_cleanup(cleanup, terminal) == (
        CleanupProgress::Pending { phase: CleanupPhase::WorkerJoin }),
{
}

} // verus!
