use busybeaver::beaver::{
    destroy_result, Beaver, Creation, Lifecycle, ShutdownError, ShutdownOutcome, ShutdownRequest,
};
use busybeaver::dam::{
    end_error, run_returned, Dam, LegacyEnd, LegacyExecution, LegacyRun, LegacyStep, WorkerStep,
};
use busybeaver::error::{BeaverError, RuntimeError};
use busybeaver::execution::{
    CancelReason, ExecutionKind, ForcedCancellationError, ForcedCancellationOutcome,
    TaskExitSummary, TaskSnapshot, TaskState,
};
use busybeaver::execution_core::{ExecutionCore, JoinFailure};
use busybeaver::fixed_count_task::FixedCountBuilder;
use busybeaver::ids::{ExecutionId, LaneId, ScopeId, TaskSpecId};
use busybeaver::lane::{LaneConfig, LaneStats};
use busybeaver::observation::{LaneSnapshot, ResourceLimits};
use busybeaver::periodic_task::PeriodicBuilder;
use busybeaver::scheduler::types::{JobId, TaskRunId};
use busybeaver::shutdown::{
    CleanupOutcome, CleanupPhase, CleanupProgress, ShutdownMode, ShutdownOptions,
    ShutdownTimeoutAction,
};
use busybeaver::supervisor::{
    Ending, GraceWait, Progress, ShutdownSupervisor, WorkerFailure,
};
use busybeaver::task::{Task, TaskId, TimeIntervalTask};
use busybeaver::time::{Duration, Instant};
use std::sync::Arc;

fn at(secs: u64) -> Instant {
    Instant::after_origin(Duration::from_secs(secs))
}

fn beaver() -> Beaver {
    Beaver::new("executor".to_string(), 4, true).unwrap_or_else(|_| panic!("the buffer is valid"))
}

fn options(mode: ShutdownMode, timeout_action: ShutdownTimeoutAction) -> ShutdownOptions {
    ShutdownOptions {
        mode,
        timeout_action,
        grace_period: Duration::from_secs(5),
    }
}

#[test]
fn repeated_shutdown_reuses_the_winning_process_without_new_allocations() {
    let mut beaver = Beaver::new("shutdown-process-reuse".to_string(), 4, true)
        .unwrap_or_else(|_| panic!("the buffer is valid"));
    let wanted = options(ShutdownMode::CancelAll, ShutdownTimeoutAction::Report);
    assert!(
        matches!(beaver.shutdown(wanted, at(0)), Ok(ShutdownRequest::Begin)),
        "repeated shutdown created more than one private shutdown process"
    );
    assert!(
        matches!(beaver.shutdown(wanted, at(1)), Ok(ShutdownRequest::Existing)),
        "repeated shutdown did not return the winning shutdown handle"
    );
    let other = options(ShutdownMode::DrainFinite, ShutdownTimeoutAction::Report);
    assert!(matches!(
        beaver.shutdown(other, at(1)),
        Err(ShutdownError::ConfigConflict { effective_options }) if effective_options == wanted
    ));
    assert!(matches!(
        beaver.destroy(other, at(1)),
        Ok(ShutdownRequest::Existing)
    ));
    beaver.stopped();
    assert!(matches!(
        beaver.shutdown(other, at(1)),
        Ok(ShutdownRequest::Existing)
    ));
    assert_eq!(beaver.lifecycle, Lifecycle::Stopped);
}

#[test]
fn grace_periods_must_end() {
    let mut beaver = beaver();
    let endless = ShutdownOptions {
        grace_period: Duration::max(),
        ..options(ShutdownMode::CancelAll, ShutdownTimeoutAction::Wait)
    };
    assert!(matches!(
        beaver.shutdown(endless, at(1)),
        Err(ShutdownError::InvalidGracePeriod)
    ));
    assert!(matches!(
        beaver.destroy(endless, at(1)),
        Err(BeaverError::WorkerFailed(message)) if message == "shutdown grace period overflowed"
    ));
    assert!(beaver.check_running().is_ok());
}

#[test]
fn executors_are_validated() {
    let build = |buffer: usize, limits: ResourceLimits, runtime: bool| {
        Beaver::builder("default".to_string(), buffer)
            .resource_limits(limits)
            .build(runtime)
            .err()
    };
    let limits = ResourceLimits::default();
    assert!(build(1, limits, true).is_none());
    assert!(matches!(
        build(1, limits, false),
        Some(BeaverError::RuntimeUnavailable)
    ));
    assert!(matches!(
        build(0, limits, true),
        Some(BeaverError::InvalidLaneCapacity)
    ));
    assert!(build(tokio::sync::Semaphore::MAX_PERMITS, limits, true).is_none());
    assert!(matches!(
        build(tokio::sync::Semaphore::MAX_PERMITS + 1, limits, true),
        Some(BeaverError::InvalidLaneCapacity)
    ));
    let none = ResourceLimits {
        max_lanes: 0,
        ..limits
    };
    assert!(matches!(
        build(0, none, true),
        Some(BeaverError::InvalidResourceLimit { field: "max_lanes" })
    ));
}

#[test]
fn lanes_scopes_and_slots_are_found_again() {
    let limits = ResourceLimits {
        max_lanes: 2,
        max_scopes: 1,
        max_slots: 1,
        ..ResourceLimits::default()
    };
    let mut beaver = Beaver::builder("default".to_string(), 4)
        .resource_limits(limits)
        .build(true)
        .unwrap_or_else(|_| panic!("the limits are valid"));
    let config = || LaneConfig::new("lane".to_string()).capacity(8);
    let (lane, created) = beaver.create_lane(config()).unwrap();
    assert_eq!(created, Creation::Created);
    assert_eq!(
        beaver.create_lane(config()).unwrap(),
        (lane, Creation::Existing)
    );
    assert!(matches!(
        beaver.create_lane(config().capacity(9)),
        Err(BeaverError::LaneConfigConflict { name }) if name == "lane"
    ));
    let (other, _) = beaver
        .create_lane(LaneConfig::new("other".to_string()))
        .unwrap();
    assert!(matches!(
        beaver.create_lane(LaneConfig::new("third".to_string())),
        Err(BeaverError::ResourceLimitExceeded { resource: "lanes" })
    ));

    assert_eq!(
        beaver.create_scope("scope".to_string(), lane).unwrap(),
        Creation::Created
    );
    assert_eq!(
        beaver.create_scope("scope".to_string(), lane).unwrap(),
        Creation::Existing
    );
    assert!(matches!(
        beaver.create_scope("scope".to_string(), other),
        Err(BeaverError::ScopeConfigConflict { .. })
    ));
    assert!(matches!(
        beaver.create_scope("more".to_string(), lane),
        Err(BeaverError::ResourceLimitExceeded { resource: "scopes" })
    ));
    beaver.scope_released(&"scope".to_string());
    assert!(beaver.create_scope("more".to_string(), lane).is_ok());

    assert_eq!(
        beaver.create_task_slot("slot".to_string(), lane).unwrap(),
        Creation::Created
    );
    assert!(matches!(
        beaver.create_task_slot("slot".to_string(), other),
        Err(BeaverError::SlotConfigConflict { .. })
    ));
    assert!(matches!(
        beaver.create_task_slot("more".to_string(), lane),
        Err(BeaverError::ResourceLimitExceeded {
            resource: "task slots"
        })
    ));
    beaver.slot_released(&"slot".to_string());
    assert!(beaver.slots.len() == 0);

    let stats = || LaneStats {
        queued_live: 0,
        running: 0,
        available_queue_capacity: 1,
        waiting_producers: 0,
        blocked_by_ordering_key: 0,
        ready_by_priority: [0; 8],
    };
    let lanes = [5, 3, 4]
        .into_iter()
        .map(|id| LaneSnapshot {
            lane_id: LaneId(id),
            name: id.to_string(),
            stats: stats(),
        })
        .collect();
    let active = [9, 7, 8]
        .into_iter()
        .map(|id| snapshot(id, ExecutionKind::Finite, TaskState::Queued))
        .collect();
    let snapshot = beaver.snapshot(active, Vec::new(), lanes, 2);
    let active: Vec<u128> = snapshot.active.iter().map(|task| task.execution_id.0).collect();
    assert_eq!(active, vec![7, 8, 9]);
    let order: Vec<u128> = snapshot.lanes.iter().map(|lane| lane.lane_id.0).collect();
    assert_eq!(order, vec![3, 4, 5]);
    assert_eq!(snapshot.scope_count, 1);
    assert_eq!(snapshot.slot_count, 0);

    let wanted = options(ShutdownMode::CancelAll, ShutdownTimeoutAction::Wait);
    assert!(beaver.shutdown(wanted, at(0)).is_ok());
    assert!(matches!(
        beaver.create_lane(config()),
        Err(BeaverError::ExecutorShuttingDown)
    ));
    assert!(matches!(
        beaver.create_scope("scope".to_string(), lane),
        Err(BeaverError::ExecutorShuttingDown)
    ));
    assert!(matches!(
        beaver.check_running(),
        Err(BeaverError::ExecutorShuttingDown)
    ));
}

#[test]
fn threads_are_cancelled_by_residence() {
    let mut beaver = beaver();
    assert!(beaver.enqueue().is_ok());
    for (name, resident) in [("a", false), ("b", true), ("c", false)] {
        assert_eq!(
            beaver
                .enqueue_on_new_thread(name.to_string(), resident)
                .unwrap(),
            Creation::Created
        );
    }
    assert_eq!(
        beaver.enqueue_on_new_thread("c".to_string(), true).unwrap(),
        Creation::Existing
    );
    assert_eq!(beaver.cancel_non_long_resident(), vec!["a".to_string()]);
    assert_eq!(beaver.named.len(), 2);
    assert!(beaver.release_thread_resource_by_name(&"b".to_string()));
    assert!(!beaver.release_thread_resource_by_name(&"b".to_string()));
    assert_eq!(beaver.cancel_all(), vec!["c".to_string()]);
    let wanted = options(ShutdownMode::CancelAll, ShutdownTimeoutAction::Wait);
    assert!(beaver.shutdown(wanted, at(0)).is_ok());
    let (default, named) = beaver.take_threads();
    assert!(default && named.is_empty());
    assert!(matches!(
        beaver.enqueue(),
        Err(BeaverError::ExecutorShuttingDown)
    ));
}

fn snapshot(id: u128, kind: ExecutionKind, state: TaskState) -> TaskSnapshot {
    TaskSnapshot {
        execution_id: ExecutionId(id),
        task_spec_id: TaskSpecId(1),
        state,
        stop_cause: None,
        final_exit: None,
        kind,
        lane_id: None,
        scope_id: None,
        scope_generation: None,
    }
}

#[test]
fn the_supervisor_stops_waits_forces_and_reports() {
    let running = TaskState::Running { attempt: 1 };
    let initial = vec![
        snapshot(9, ExecutionKind::Finite, running.clone()),
        snapshot(4, ExecutionKind::Service, running.clone()),
        snapshot(6, ExecutionKind::Recurring, running.clone()),
    ];
    let draining = ShutdownSupervisor::new(
        options(ShutdownMode::DrainFinite, ShutdownTimeoutAction::Wait),
        at(10),
        at(15),
        &initial,
    );
    let plan = draining.plan();
    assert!(!plan.cancel_lanes);
    assert_eq!(plan.cancel, vec![false, true, true]);
    assert_eq!(draining.wait(true), GraceWait::Unlimited);

    let mut supervisor = ShutdownSupervisor::new(
        options(ShutdownMode::CancelAll, ShutdownTimeoutAction::AbortAllowed),
        at(10),
        at(15),
        &initial,
    );
    assert_eq!(supervisor.plan().cancel, vec![true, true, true]);
    assert_eq!(supervisor.wait(true), GraceWait::Until(at(15)));
    assert_eq!(supervisor.wait(false), GraceWait::TimerUnavailable);
    let force = supervisor.grace_over(&vec![true, false, true]);
    assert_eq!(force, vec![true, false, true]);
    supervisor.forced(0, Ok(ForcedCancellationOutcome::Requested));
    supervisor.forced(2, Err(ForcedCancellationError::NotAllowed));
    let progress = vec![
        Progress {
            current: snapshot(9, ExecutionKind::Finite, running),
            terminal: false,
            cleanup: CleanupProgress::NotRequired,
        },
        Progress {
            current: snapshot(4, ExecutionKind::Service, TaskState::Completed),
            terminal: true,
            cleanup: CleanupProgress::NotRequired,
        },
        Progress {
            current: snapshot(6, ExecutionKind::Recurring, TaskState::Queued),
            terminal: false,
            cleanup: CleanupProgress::Pending {
                phase: CleanupPhase::TrackedChildren,
            },
        },
    ];
    let timed_out = supervisor.timed_out(progress, Vec::new(), at(16));
    assert_eq!(timed_out.elapsed, Duration::from_secs(6));
    assert!(timed_out.tasks[0].grace_deadline_exceeded);
    assert!(timed_out.tasks[0].forced_cancellation_requested);
    assert!(matches!(
        timed_out.tasks[0].cleanup,
        CleanupProgress::Pending {
            phase: CleanupPhase::WorkerJoin
        }
    ));
    assert!(!timed_out.tasks[1].grace_deadline_exceeded);
    assert!(matches!(
        timed_out.tasks[1].cleanup,
        CleanupProgress::Finished(CleanupOutcome::NotRequired)
    ));
    assert!(!timed_out.tasks[2].forced_cancellation_requested);

    let ending = |cleanup| Ending {
        final_exit: TaskExitSummary::Completed,
        cleanup,
    };
    let report = supervisor.finished(
        vec![
            ending(CleanupProgress::NotRequired),
            ending(CleanupProgress::Finished(CleanupOutcome::Completed)),
            ending(CleanupProgress::Pending {
                phase: CleanupPhase::WorkerJoin,
            }),
        ],
        Vec::new(),
        Vec::new(),
        at(20),
    );
    let order: Vec<u128> = report.tasks.iter().map(|task| task.execution_id.0).collect();
    assert_eq!(order, vec![4, 6, 9]);
    assert!(matches!(
        report.tasks[0].cleanup,
        CleanupOutcome::Completed
    ));
    assert!(matches!(
        &report.tasks[1].cleanup,
        CleanupOutcome::Failed(message)
            if message == "cleanup remained pending in phase WorkerJoin"
    ));
    assert!(report.tasks[2].forced_cancellation_requested);
    assert_eq!(report.elapsed, Duration::from_secs(10));
}

#[test]
fn destroying_reports_the_first_failure() {
    let failure = |message: &str| WorkerFailure {
        message: message.to_string(),
    };
    assert!(destroy_result(ShutdownOutcome::Stopped {
        worker_failures: Vec::new()
    })
    .is_ok());
    assert!(matches!(
        destroy_result(ShutdownOutcome::Stopped {
            worker_failures: vec![failure("one"), failure("two")]
        }),
        Err(BeaverError::WorkerFailed(message)) if message == "one"
    ));
    assert!(matches!(
        destroy_result(ShutdownOutcome::TimedOut),
        Err(BeaverError::ShutdownTimedOut)
    ));
    assert!(matches!(
        destroy_result(ShutdownOutcome::Failed("gone".to_string())),
        Err(BeaverError::WorkerFailed(message)) if message == "gone"
    ));
}

#[test]
fn a_dam_drops_what_was_enqueued_before() {
    let mut dam = Dam::new();
    let first = dam.enqueue().unwrap();
    let second = dam.enqueue().unwrap();
    assert!(!dam.is_dropped(first));
    dam.cancel_all();
    assert!(dam.is_dropped(first) && dam.is_dropped(second));
    let third = dam.enqueue().unwrap();
    assert!(!dam.is_dropped(third));
    assert!(Dam::enqueued(true).is_ok());
    assert!(matches!(Dam::enqueued(false), Err(BeaverError::QueueFull)));
    dam.release();
    assert!(dam.is_dropped(third));
    assert!(matches!(dam.enqueue(), Err(BeaverError::DamReleased)));

    let mut task = Arc::into_inner(FixedCountBuilder::new(()).build().unwrap()).unwrap();
    assert!(!task.interrupted());
    let mut execution = LegacyExecution::new();
    assert!(execution.cancel(&mut task));
    assert!(task.interrupted());
    task.set_interrupted(false);
    assert!(!execution.cancel(&mut task));
    assert!(!task.interrupted());
    assert!(execution.is_cancelled());
    assert_eq!(execution.notify_interrupt(&mut task), (false, true));
    assert_eq!(execution.notify_interrupt(&mut task), (false, false));
    let mut another = LegacyExecution::new();
    assert_eq!(another.notify_interrupt(&mut task), (true, true));
    assert!(task.interrupted());
}

#[test]
fn tasks_run_their_attempts() {
    let interval = Task::TimeInterval(TimeIntervalTask {
        id: TaskId::new(),
        work: (),
        intervals: vec![0, 250],
        tag: None,
        listener: None,
        interrupted: false,
    });
    let (mut run, step) = LegacyRun::start(&interval, false);
    assert!(matches!(step, LegacyStep::Sleep { delay } if delay.is_zero()));
    assert!(matches!(LegacyRun::ready(false), LegacyStep::Execute));
    assert!(matches!(
        LegacyRun::ready(true),
        LegacyStep::End(LegacyEnd::Interrupted)
    ));
    assert!(matches!(
        run.executed(&interval, true, false),
        LegacyStep::Sleep { delay } if delay == Duration::from_millis(250)
    ));
    assert!(matches!(
        run.executed(&interval, true, false),
        LegacyStep::End(LegacyEnd::Exhausted)
    ));
    assert!(matches!(
        end_error(LegacyEnd::Exhausted),
        Some(RuntimeError::RetriesExhausted)
    ));
    assert!(end_error(LegacyEnd::Completed).is_none());

    let counted = FixedCountBuilder::new(()).count(2).build().unwrap();
    let (mut run, step) = LegacyRun::start(&counted, false);
    assert!(matches!(step, LegacyStep::Execute));
    assert!(matches!(
        run.executed(&counted, false, false),
        LegacyStep::End(LegacyEnd::Completed)
    ));
    let periodic = PeriodicBuilder::new(())
        .interval(Duration::from_secs(3))
        .initial_delay(true)
        .build()
        .unwrap();
    let (_, step) = LegacyRun::start(&periodic, false);
    assert!(matches!(step, LegacyStep::Sleep { delay } if delay == Duration::from_secs(3)));
    let panicked = || {
        Err(JoinFailure::Panicked {
            message: Some("boom".to_string()),
        })
    };
    assert!(matches!(
        run_returned(&periodic, false, panicked()),
        WorkerStep::Failed {
            error: RuntimeError::TaskExecutionFailed(_),
            restart: Some(_)
        }
    ));
    assert!(matches!(
        run_returned(&counted, false, panicked()),
        WorkerStep::Failed { restart: None, .. }
    ));
    assert!(matches!(
        run_returned(&counted, false, Ok(())),
        WorkerStep::Next
    ));
}

#[test]
fn identities_are_random_uuids() {
    let spec = TaskSpecId::new();
    assert_ne!(spec, TaskSpecId::new());
    assert_eq!(spec.as_uuid().as_u128(), spec.0);
    assert_eq!(spec.as_uuid().get_version_num(), 4);
    let execution = ExecutionId::new();
    assert_eq!(execution.as_uuid().as_u128(), execution.0);
    let run = TaskRunId::new();
    assert_eq!(run.as_uuid().as_u128(), run.0);
    assert_eq!(LaneId(7).as_uuid(), uuid::Uuid::from_u128(7));
    assert_eq!(ScopeId(8).as_uuid(), uuid::Uuid::from_u128(8));
    assert_eq!(JobId(9).as_uuid(), uuid::Uuid::from_u128(9));
    assert_eq!(
        LaneId(0x0123_4567_89ab_cdef_fedc_ba98_7654_3210).text(),
        "01234567-89ab-cdef-fedc-ba9876543210"
    );
    assert_eq!(execution.text(), execution.as_uuid().to_string());
    assert_eq!(JobId(7).text(), "00000000-0000-0000-0000-000000000007");
}

#[test]
fn errors_have_codes_and_texts() {
    assert_eq!(BeaverError::LockPoisoned.code(), "BB-LOCK-POISONED");
    assert!(BeaverError::LaneConfigConflict {
        name: "lane".to_string()
    }
    .message()
    .contains("lane"));
    assert!(BeaverError::RangeIntervalRangesExceedTotal {
        total: 12,
        ranges_count: 34
    }
    .message()
    .contains("34"));
    let failed = RuntimeError::TaskExecutionFailed("boom".to_string());
    assert!(failed.message().contains("boom"));
    assert_ne!(failed.code(), RuntimeError::RetriesExhausted.code());
    let mut execution = ExecutionCore::new(ExecutionId(1), TaskSpecId(1), None, Vec::new());
    execution.cancel(CancelReason::UserRequested);
    assert!(matches!(
        execution.snapshot().state,
        TaskState::Stopping { .. }
    ));
}
