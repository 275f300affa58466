use busybeaver::execution::{
    panic_exit, AbortPolicy, CancelReason, CancelRequestOutcome, Cancelled, ExecutionWaitError,
    ExecutorStopReason, ForcedCancellationError, ForcedCancellationOutcome, JoinResultError,
    PanicSource, SpawnChildError, StopCauseSummary, TaskExit, TaskExitSummary, TaskFailure,
    TaskSelector, TaskSpec, TaskState,
};
use busybeaver::error::BeaverError;
use busybeaver::execution_core::{
    finish_named, finish_operation, wait_checked, BodyOutcome, ExecutionCore, JoinFailure,
    ResultCell,
};
use busybeaver::ids::{ExecutionId, LaneId, ScopeId, TaskSpecId};
use busybeaver::observation::{EventSubscribeError, ResourceLimits};
use busybeaver::registry::{batch_report, ActiveExecution, ExecutionRegistry};
use busybeaver::shutdown::{final_cleanup_outcome, CleanupOutcome, CleanupPhase, CleanupProgress};
use busybeaver::time::{Duration, Instant};

fn fresh(id: u128) -> ExecutionCore {
    ExecutionCore::new(ExecutionId(id), TaskSpecId(1), None, Vec::new())
}

fn at(secs: u64) -> Instant {
    Instant::after_origin(Duration::from_secs(secs))
}

#[test]
fn direct_stop_cause_matches_snapshot_for_cancel_and_deadline() {
    let mut cancelled = fresh(1);
    cancelled.cancel(CancelReason::Other("direct-stop-cause".to_string()));
    assert!(
        matches!(
            (&cancelled.stop_cause, &cancelled.snapshot().stop_cause),
            (
                Some(StopCauseSummary::Cancel(CancelReason::Other(direct))),
                Some(StopCauseSummary::Cancel(CancelReason::Other(shown)))
            ) if direct == "direct-stop-cause" && shown == direct
        ),
        "direct cancel cause differed from snapshot"
    );

    let mut late = fresh(2);
    late.deadline();
    assert!(
        matches!(late.stop_cause, Some(StopCauseSummary::Deadline))
            && matches!(late.snapshot().stop_cause, Some(StopCauseSummary::Deadline)),
        "direct deadline cause differed from snapshot"
    );
}

#[test]
fn zero_subscriber_skips_execution_snapshot_construction() {
    let mut registry = ExecutionRegistry::new_with_limits(ResourceLimits::default());
    assert!(!registry.should_capture_event_snapshot(false));
    assert!(registry.should_capture_event_snapshot(true));
    registry.subscribe().unwrap();
    assert!(registry.should_capture_event_snapshot(false));
    registry.unsubscribe();
    assert!(!registry.should_capture_event_snapshot(false));
}

#[test]
fn the_first_cause_is_kept_and_wins() {
    let mut execution = fresh(1);
    let mut result = ResultCell::<u8, ()>::new();
    assert!(execution.claim_start());
    assert!(matches!(
        execution.cancel(CancelReason::Replaced).outcome,
        CancelRequestOutcome::Requested
    ));
    assert!(matches!(
        execution.cancel(CancelReason::UserRequested).outcome,
        CancelRequestOutcome::AlreadyStopping
    ));
    assert!(execution.commit(&mut result, TaskExit::Completed(5)));
    assert!(!execution.commit(&mut result, TaskExit::Completed(6)));
    assert!(matches!(
        execution.cancel(CancelReason::UserRequested).outcome,
        CancelRequestOutcome::AlreadyTerminal
    ));
    assert!(matches!(
        execution.try_join(&mut result),
        Ok(Some(TaskExit::Cancelled {
            reason: CancelReason::Replaced
        }))
    ));
    assert!(matches!(
        execution.try_join(&mut result),
        Err(JoinResultError::AlreadyTaken)
    ));
    assert!(execution.snapshot().state.is_terminal());
}

#[test]
fn bodies_end_executions() {
    let end = |body: BodyOutcome<Result<u8, &'static str>>, forced: bool| {
        let mut execution = fresh(1);
        execution.forced_cancellation_requested = forced;
        let mut result = ResultCell::new();
        assert!(execution.try_join(&mut result).unwrap().is_none());
        assert!(finish_operation(
            &mut execution,
            &mut result,
            body,
            PanicSource::WorkFuture
        ));
        result.take().unwrap()
    };
    assert!(matches!(
        end(BodyOutcome::Returned(Ok(4)), false),
        TaskExit::Completed(4)
    ));
    assert!(matches!(
        end(BodyOutcome::Returned(Err("no")), false),
        TaskExit::Failed(TaskFailure::Operation { error: "no" })
    ));
    assert!(matches!(
        end(BodyOutcome::NotStarted, false),
        TaskExit::ExecutorStopped {
            reason: ExecutorStopReason::RunnerCancelled
        }
    ));
    assert!(matches!(
        end(
            BodyOutcome::FactoryPanicked {
                message: "boom".to_string()
            },
            false
        ),
        TaskExit::Panicked {
            source: PanicSource::Factory,
            ..
        }
    ));
    assert!(matches!(
        end(BodyOutcome::Failed(JoinFailure::Cancelled), true),
        TaskExit::Aborted {
            preceding_stop: None
        }
    ));
    assert!(matches!(
        end(BodyOutcome::Failed(JoinFailure::Cancelled), false),
        TaskExit::ExecutorStopped {
            reason: ExecutorStopReason::RuntimeUnavailable
        }
    ));
    assert!(matches!(
        end(
            BodyOutcome::Failed(JoinFailure::Panicked { message: None }),
            false
        ),
        TaskExit::ExecutorStopped {
            reason: ExecutorStopReason::InternalInvariantViolation
        }
    ));
    let mut named = fresh(2);
    let mut result = ResultCell::<u8, ()>::new();
    assert!(finish_named(
        &mut named,
        &mut result,
        BodyOutcome::Returned(TaskExit::Completed(7))
    ));
    assert!(matches!(result.take(), Some(TaskExit::Completed(7))));
}

#[test]
fn a_missing_timer_is_not_a_panic() {
    let message = "there is no reactor running, must be called from the context of a Tokio 1.x runtime";
    assert!(matches!(
        panic_exit::<(), ()>(PanicSource::WorkFuture, message.to_string()),
        TaskExit::Failed(TaskFailure::TimerUnavailable)
    ));
    assert!(matches!(
        panic_exit::<(), ()>(PanicSource::Child, "other".to_string()),
        TaskExit::Panicked {
            source: PanicSource::Child,
            ..
        }
    ));
}

#[test]
fn children_belong_to_attempts() {
    let mut parent = fresh(1);
    parent.check_child_admission(1, Some(1)).unwrap();
    parent.track_child(1, ExecutionId(10));
    assert!(matches!(
        parent.check_child_admission(1, Some(1)),
        Err(SpawnChildError::LimitReached { maximum: 1 })
    ));
    assert!(matches!(
        parent.check_child_admission(2, None),
        Err(SpawnChildError::ParentClosing)
    ));
    assert_eq!(parent.close_attempt_children(1), vec![ExecutionId(10)]);
    parent.begin_attempt(2);
    parent.check_child_admission(2, None).unwrap();
    parent.track_child(2, ExecutionId(11));
    assert_eq!(parent.close_children(), vec![ExecutionId(11)]);
    assert!(matches!(
        parent.check_child_admission(2, None),
        Err(SpawnChildError::ParentClosing)
    ));
}

#[test]
fn an_execution_does_not_wait_for_itself_or_its_parents() {
    let child = ExecutionCore::new(
        ExecutionId(2),
        TaskSpecId(1),
        None,
        vec![ExecutionId(1)],
    );
    for target in [ExecutionId(1), ExecutionId(2)] {
        assert!(matches!(
            wait_checked(&child.execution_path, target),
            Err(ExecutionWaitError::WouldJoin { current, target: found })
                if current == ExecutionId(2) && found == target
        ));
    }
    assert!(wait_checked(&child.execution_path, ExecutionId(3)).is_ok());
    let error = wait_checked(&child.execution_path, ExecutionId(1)).unwrap_err();
    assert_eq!(
        error.message(),
        "execution 00000000-0000-0000-0000-000000000002 cannot wait for itself or ancestor \
         execution 00000000-0000-0000-0000-000000000001"
    );
}

#[test]
fn sleep_and_resume_follow_the_execution() {
    let mut execution = fresh(1);
    execution.claim_start();
    assert_eq!(execution.sleep(1, Duration::from_secs(5), at(10)), Ok(at(15)));
    assert!(matches!(
        execution.snapshot().state,
        TaskState::Sleeping { attempt: 1, .. }
    ));
    assert_eq!(execution.woken(1), Ok(()));
    assert!(matches!(
        execution.snapshot().state,
        TaskState::Running { attempt: 1 }
    ));
    assert_eq!(execution.sleep(1, Duration::max(), at(10)), Err(Cancelled));
    assert_eq!(execution.resumed_after(0), Ok(None));
    execution.notify_resumed();
    assert_eq!(execution.resumed_after(0), Ok(Some(1)));
    execution.cancel(CancelReason::UserRequested);
    assert!(execution.is_cancelled());
    assert_eq!(execution.resumed_after(1), Err(Cancelled));
    assert_eq!(execution.sleep(1, Duration::zero(), at(10)), Err(Cancelled));
    assert_eq!(execution.woken(1), Err(Cancelled));
}

#[test]
fn work_is_dropped_only_where_that_is_allowed() {
    let mut execution = fresh(1);
    assert!(matches!(
        execution.request_forced_cancellation(),
        Err(ForcedCancellationError::NotAllowed)
    ));
    execution.abort_policy = AbortPolicy::Allowed;
    assert!(matches!(
        execution.request_forced_cancellation(),
        Err(ForcedCancellationError::NoTrackedFuture)
    ));
    execution.abort_handle = true;
    assert!(matches!(
        execution.request_forced_cancellation(),
        Ok(ForcedCancellationOutcome::Requested)
    ));
    assert!(matches!(
        execution.request_forced_cancellation(),
        Ok(ForcedCancellationOutcome::AlreadyRequested)
    ));
}

#[test]
fn failed_cleanup_is_not_hidden() {
    let failed = CleanupProgress::NotRequired
        .begin(CleanupPhase::WorkerJoin)
        .finish(CleanupOutcome::Failed("lost".to_string()));
    let kept = failed
        .begin(CleanupPhase::TrackedChildren)
        .finish(CleanupOutcome::Completed);
    assert!(matches!(
        final_cleanup_outcome(kept),
        CleanupOutcome::Failed(message) if message == "lost"
    ));
    assert!(matches!(
        final_cleanup_outcome(CleanupProgress::Pending {
            phase: CleanupPhase::TrackedChildren
        }),
        CleanupOutcome::Failed(message)
            if message == "cleanup remained pending in phase TrackedChildren"
    ));
}

fn active(id: u128, tag: Option<&str>, lane: Option<u128>) -> ActiveExecution {
    ActiveExecution {
        execution_id: ExecutionId(id),
        task_spec_id: TaskSpecId(id / 10),
        tag: tag.map(str::to_string),
        lane_id: lane.map(LaneId),
        scope_id: Some(ScopeId(id % 2)),
    }
}

#[test]
fn the_registry_selects_and_forgets() {
    let limits = ResourceLimits {
        max_active_executions: 3,
        terminal_history_capacity: 2,
        terminal_history_ttl: Some(Duration::from_secs(10)),
        max_event_subscribers: 1,
        ..ResourceLimits::default()
    };
    let mut registry = ExecutionRegistry::new_with_limits(limits);
    registry.register(active(12, Some("blue"), Some(7))).unwrap();
    registry.register(active(11, None, Some(7))).unwrap();
    registry.register(active(25, Some("blue"), None)).unwrap();
    assert!(matches!(
        registry.register(active(26, None, None)),
        Err(BeaverError::ResourceLimitExceeded { .. })
    ));
    let ids = |selector| -> Vec<u128> {
        registry
            .select_controls(&selector)
            .into_iter()
            .map(|id| id.0)
            .collect()
    };
    assert_eq!(ids(TaskSelector::Tag("blue")), vec![12, 25]);
    assert_eq!(ids(TaskSelector::Lane(LaneId(7))), vec![11, 12]);
    assert_eq!(ids(TaskSelector::Spec(TaskSpecId(2))), vec![25]);
    assert_eq!(ids(TaskSelector::Scope(ScopeId(1))), vec![11, 25]);
    assert_eq!(ids(TaskSelector::Execution(ExecutionId(11))), vec![11]);
    assert!(ids(TaskSelector::Execution(ExecutionId(99))).is_empty());

    registry.finish(ExecutionId(12), TaskExitSummary::Completed, at(1));
    registry.finish(ExecutionId(11), TaskExitSummary::Failed, at(2));
    registry.finish(ExecutionId(25), TaskExitSummary::Completed, at(9));
    assert!(registry.summary(ExecutionId(12), at(9)).is_none());
    assert!(registry.summary(ExecutionId(11), at(9)).unwrap().is_failed());
    let history = registry.history(at(13));
    assert_eq!(history.len(), 1);
    assert_eq!(history[0].execution_id, ExecutionId(25));

    registry.subscribe().unwrap();
    assert!(matches!(
        registry.subscribe(),
        Err(EventSubscribeError::SubscriberLimitReached)
    ));
    let report = batch_report(
        &vec![ExecutionId(1), ExecutionId(2)],
        &vec![
            CancelRequestOutcome::Requested,
            CancelRequestOutcome::AlreadyTerminal,
        ],
    );
    assert_eq!(report.records.len(), 2);
    assert_eq!(report.records[1].execution_id, ExecutionId(2));
}

#[test]
fn resource_limits_name_the_first_zero() {
    assert!(ResourceLimits::default().validate().is_ok());
    let limits = ResourceLimits {
        max_lanes: 0,
        max_slots: 0,
        ..ResourceLimits::default()
    };
    assert_eq!(limits.validate().unwrap_err().field, "max_lanes");
}

#[test]
fn a_definition_describes_its_executions() {
    let spec = TaskSpec::new("factory")
        .tag("tagged".to_string())
        .abort_policy(AbortPolicy::Allowed);
    assert_eq!(*spec.factory, "factory");
    let again = spec.clone();
    assert_eq!(again.id(), spec.id());
    assert_ne!(TaskSpec::new("factory").id(), spec.id());
    assert_eq!(
        TaskSpec::new("factory").abort_policy,
        AbortPolicy::CooperativeOnly
    );
    let execution = ExecutionCore::of_spec(ExecutionId(7), &again);
    assert_eq!(execution.task_spec_id, spec.id());
    assert_eq!(execution.tag, Some("tagged".to_string()));
    assert_eq!(execution.abort_policy, AbortPolicy::Allowed);
    assert_eq!(execution.execution_path, vec![ExecutionId(7)]);
}

#[test]
fn a_stopped_execution_keeps_its_children_and_its_place() {
    let mut execution = fresh(1);
    execution.registered = true;
    execution.queued_cancel_hook = true;
    execution.track_child(1, ExecutionId(2));
    let request = execution.cancel(CancelReason::Replaced);
    assert!(request.leave_queue);
    assert_eq!(request.children, vec![ExecutionId(2)]);
    assert!(execution.registered);
    assert!(!execution.queued_cancel_hook);
    assert_eq!(execution.children.children.len(), 1);
    let late = execution.deadline();
    assert_eq!(late.outcome, CancelRequestOutcome::AlreadyStopping);
    assert!(!late.leave_queue && late.children.is_empty());
    let mut result: ResultCell<(), ()> = ResultCell::new();
    assert!(finish_operation(
        &mut execution,
        &mut result,
        BodyOutcome::Returned(Ok(())),
        PanicSource::WorkFuture
    ));
    assert!(execution.registered);
    assert_eq!(execution.children.children.len(), 1);
}
