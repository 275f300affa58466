use busybeaver::observe::{EventRecvError, HookDelivery, Observability, Received, TaskEventKind};
use busybeaver::schedule::{FirstRun, RetryExhaustedAction, Schedule, TaskControl};
use busybeaver::scheduler::execute::{AttemptOutput, JobExecution, JobStep, RetrySettings};
use busybeaver::scheduler::jobs::{Job, JobKind, ReusableJob, ScheduledJob, StartedJob};
use busybeaver::scheduler::keyed::KeyedCommitError;
use busybeaver::scheduler::keys::{KeyRegistryState, ReserveKeyError};
use busybeaver::scheduler::report::{
    ReportStep, SchedulerShutdownReport, ShutdownCoordinator, ShutdownStep,
};
use busybeaver::scheduler::run::{
    Cancellation, ManualControl, RunMetadata, RunShared, TrackedChildren,
};
use busybeaver::scheduler::state::{CommitError, Scheduler, SlotOutcome};
use busybeaver::scheduler::types::{
    CancelReason, ExecutorErrorCode, GroupError, GroupState, JobId, KeyStatus, KeyedSubmitError,
    LaneConfig, LaneError, SchedulerBuildError, ShutdownPolicy, SubmissionFailure, TaskCommandError, TaskRunId, TaskState, TaskTerminal,
    TimeoutScope, TriggerOutcome, TriggerPolicy, TriggerPolicyError, TrySubmitError,
};
use busybeaver::scheduler::waits::{
    attempt_limit, permit_wait, permit_woken, ControlledDelay, DelayStep, DelayWake, PermitWake,
    SleepEnd, WaitError,
};
use busybeaver::time::{Duration, Instant};
use std::sync::Arc;

type PlainJob = Job<&'static str, &'static str, ()>;

fn at(secs: u64) -> Instant {
    Instant::after_origin(Duration::from_secs(secs))
}

fn secs(secs: u64) -> Duration {
    Duration::from_secs(secs)
}

fn scheduler() -> Scheduler {
    match Scheduler::builder().build(true, at(0)) {
        Ok(scheduler) => scheduler,
        Err(_) => panic!("the default configuration is valid"),
    }
}

fn job() -> PlainJob {
    Job::once("body")
}

fn run(id: u128) -> RunShared {
    RunShared::new(
        RunMetadata {
            run_id: TaskRunId(id),
            job_id: JobId(1),
            key_generation: None,
            lane: "default".to_string(),
            lane_generation: 1,
            group_generation: None,
        },
        None,
    )
}

#[test]
fn consumed_one_shot_job_returns_executor_error_instead_of_panicking() {
    let mut job = job();
    assert!(matches!(job.kind.start(), Ok(StartedJob::Once("body"))));
    assert!(matches!(
        job.kind.start(),
        Err(ExecutorErrorCode::JobAlreadyConsumed)
    ));
    assert_eq!(ExecutorErrorCode::JobAlreadyConsumed.as_str(), "BB-EXEC-001");

    let (mut execution, _) = JobExecution::<()>::begin::<()>(
        None,
        None,
        RetryExhaustedAction::Stop,
        at(0),
    );
    let mut cancellation = Cancellation::new();
    assert!(matches!(
        execution.started::<()>(
            Err(ExecutorErrorCode::JobAlreadyConsumed),
            &mut cancellation,
            at(0)
        ),
        JobStep::End(TaskTerminal::ExecutorError {
            code: ExecutorErrorCode::JobAlreadyConsumed
        })
    ));
}

#[test]
fn missing_schedule_cursor_returns_executor_error_instead_of_panicking() {
    let (mut execution, _) = JobExecution::<()>::begin::<()>(
        None,
        None,
        RetryExhaustedAction::Stop,
        at(0),
    );
    let mut cancellation = Cancellation::new();
    execution.unpaused::<()>(Ok(()), &mut cancellation);
    execution.queue_acquired::<()>(Ok(()), &mut cancellation);
    execution.lane_acquired::<()>(Ok(()), &mut cancellation);
    execution.global_acquired::<()>(Ok(()), false, &mut cancellation);
    let step = execution.attempt_done::<()>(
        AttemptOutput::Control(TaskControl::Continue),
        &mut cancellation,
        at(0),
    );
    assert!(matches!(
        step,
        JobStep::End(TaskTerminal::ExecutorError {
            code: ExecutorErrorCode::ScheduleCursorMissing
        })
    ));
    assert_eq!(
        ExecutorErrorCode::ScheduleCursorMissing.as_str(),
        "BB-EXEC-002"
    );
}

#[test]
fn missing_completion_sender_is_logged_without_panicking() {
    let mut observability = Observability::new(at(0));
    let mut run = run(1);
    run.settle_without_owner(&mut observability, at(1));
    assert_eq!(run.snapshot().state(), TaskState::ExecutorError);
    assert_eq!(
        ExecutorErrorCode::CompletionAlreadyPublished.as_str(),
        "BB-EXEC-003"
    );
    let (terminal, _) = run.receive_terminal::<(), ()>(None, &mut observability, at(2));
    assert!(matches!(
        terminal,
        TaskTerminal::ExecutorError {
            code: ExecutorErrorCode::CompletionAlreadyPublished
        }
    ));

    let mut scheduler = scheduler();
    assert!(scheduler
        .try_submit(job(), SlotOutcome::Acquired, None, TaskRunId(1), at(0))
        .is_ok());
    assert_eq!(scheduler.active_task_count(), 1);
    assert!(scheduler.remove_run_registrations(TaskRunId(1)).is_some());
    assert_eq!(scheduler.active_task_count(), 0);
}

#[test]
fn completion_claim_wins_later_cancellation() {
    let mut cancellation = Cancellation::new();
    assert_eq!(cancellation.claim_outcome(), None);
    assert!(!cancellation.cancel(CancelReason::User));
    assert_eq!(cancellation.reason(), None);
}

#[test]
fn cancellation_claim_wins_later_completion() {
    let mut cancellation = Cancellation::new();
    assert!(cancellation.cancel(CancelReason::Shutdown));
    assert_eq!(cancellation.claim_outcome(), Some(CancelReason::Shutdown));
}

#[test]
fn non_terminal_transition_cannot_regress_terminal_snapshot() {
    let mut observability = Observability::new(at(0));
    let mut shared = run(1);
    assert!(
        shared
            .publish_terminal(TaskState::Completed, &mut observability, at(0))
            .0
    );

    shared.transition(TaskState::Running, &mut observability, at(0));

    assert_eq!(shared.snapshot().state(), TaskState::Completed);
}

#[test]
fn lane_generation_exhaustion_is_explicit_and_does_not_insert() {
    let mut scheduler = scheduler();
    scheduler.next_lane_generation = u64::MAX;

    assert!(matches!(
        scheduler.ensure_lane("overflow".to_string(), LaneConfig::default()),
        Err(LaneError::GenerationExhausted)
    ));
    assert_eq!(scheduler.lane_generation(&"overflow".to_string()), None);
}

#[test]
fn key_generation_exhaustion_is_explicit_and_does_not_reserve() {
    let mut scheduler = scheduler();
    scheduler
        .keys
        .generations
        .insert("overflow".to_string(), u64::MAX);

    assert!(matches!(
        scheduler.start_if_absent(
            "overflow".to_string(),
            job(),
            SlotOutcome::Acquired,
            TaskRunId(1),
            at(0)
        ),
        Err(KeyedCommitError::Refused(
            KeyedSubmitError::GenerationExhausted(_)
        ))
    ));
    assert_eq!(scheduler.key_status(&"overflow".to_string()), None);
}

#[test]
fn completed_tracked_children_are_removed_before_parent_finishes() {
    let mut children = TrackedChildren::new();
    for id in 0..64 {
        assert!(matches!(children.admits(id), Ok(true)));
        children.register(id);
        children.completed(id);
    }
    assert_eq!(children.handles.len(), 0);
    children.register(99);
    assert_eq!(children.close_and_abort(), vec![99]);
    assert!(children.admits(100).is_err());
}

#[test]
fn unpolled_aborted_children_are_removed_before_parent_finishes() {
    let mut children = TrackedChildren::new();
    for id in 0..64 {
        assert!(
            matches!(children.admits(id), Ok(true)),
            "open context accepts child"
        );
        children.register(id);
        assert!(matches!(children.admits(id), Ok(false)));
        children.completed(id);
    }
    assert_eq!(children.handles.len(), 0);
}

#[test]
fn stopped_runtime_does_not_deadlock_tracked_child_registration() {
    let mut children = TrackedChildren::new();
    assert!(matches!(children.admits(7), Ok(true)));
    children.completed(7);
    children.register(7);
    children.completed(7);
    assert_eq!(
        children.handles.len(),
        0,
        "a stopped runtime must neither panic nor deadlock child registration"
    );
}

#[test]
fn observation_sequence_exhaustion_is_explicit_and_never_wraps() {
    let mut observation = Observability::new(at(0));
    observation.sequence = u64::MAX - 1;

    assert_eq!(observation.observe(at(1)).0, u64::MAX);
    assert_eq!(observation.observation_failures(), 0);
    assert_eq!(observation.observe(at(1)).0, u64::MAX);
    assert_eq!(observation.observation_failures(), 1);
    assert_eq!(observation.sequence, u64::MAX);
}

#[test]
fn events_are_delivered_counted_and_received() {
    let mut observation = Observability::new(at(10));
    let mut run = run(1);
    let event = run
        .publish_submitted(&mut observation, at(12))
        .expect("there is room for another event");
    assert_eq!(event.kind(), TaskEventKind::Submitted);
    assert_eq!(event.sequence(), 1);
    assert_eq!(event.observed_at(), secs(2));
    assert_eq!(event.lane(), "default");
    observation.hook_delivered(HookDelivery::Sent);
    assert!(!observation.is_drained());
    observation.hook_returned(false);
    assert!(observation.is_drained());
    observation.hook_delivered(HookDelivery::Full);
    assert_eq!(observation.dropped_deliveries(), 1);
    assert!(observation.receive(Received::Lagged(4)).is_none());
    assert_eq!(observation.dropped_deliveries(), 5);
    assert!(matches!(
        observation.receive(Received::Closed),
        Some(Err(EventRecvError))
    ));
    assert!(matches!(
        observation.receive(Received::Event(event)),
        Some(Ok(Some(_)))
    ));
}

#[test]
fn submission_errors_have_their_inputs() {
    let mut scheduler = scheduler();
    let submit = |scheduler: &mut Scheduler, job: PlainJob, slot: SlotOutcome, id: u128| {
        scheduler
            .try_submit(job, slot, None, TaskRunId(id), at(0))
            .err()
    };
    assert!(submit(&mut scheduler, job(), SlotOutcome::Acquired, 1).is_none());
    assert!(matches!(
        submit(&mut scheduler, job(), SlotOutcome::Acquired, 1),
        Some(CommitError::IdentityTaken(_))
    ));
    assert!(matches!(
        submit(&mut scheduler, job(), SlotOutcome::NoPermits, 2),
        Some(CommitError::Refused(TrySubmitError::Full(_)))
    ));
    assert!(matches!(
        submit(
            &mut scheduler,
            job().on_lane("nowhere".to_string()),
            SlotOutcome::Acquired,
            2
        ),
        Some(CommitError::Refused(TrySubmitError::LaneNotFound(_)))
    ));
    let (count, events) = scheduler
        .close_lane(&"default".to_string(), at(1))
        .unwrap_or_else(|_| panic!("the default lane is there"));
    assert_eq!(count, 1);
    assert_eq!(events.len(), 1);
    assert!(matches!(
        submit(&mut scheduler, job(), SlotOutcome::Acquired, 2),
        Some(CommitError::Refused(TrySubmitError::Closed(_)))
    ));
    let started = scheduler.start_shutdown(at(2));
    assert!(matches!(started, Some((runs, _)) if runs == vec![TaskRunId(1)]));
    assert!(scheduler.start_shutdown(at(3)).is_none());
    assert!(matches!(
        submit(&mut scheduler, job(), SlotOutcome::Acquired, 2),
        Some(CommitError::Refused(TrySubmitError::ShuttingDown(_)))
    ));
    assert!(matches!(
        scheduler.submission_failure(),
        Some(SubmissionFailure::ShuttingDown)
    ));
    scheduler.mark_terminated();
    assert!(matches!(
        scheduler.submission_failure(),
        Some(SubmissionFailure::Closed)
    ));
}

#[test]
fn lanes_are_created_closed_and_deleted() {
    let mut scheduler = scheduler();
    let name = "extra".to_string();
    let config = LaneConfig::new(4, 2).unwrap_or_else(|_| panic!("the limits are valid"));
    assert!(scheduler.ensure_lane(name.clone(), config).is_ok());
    assert!(scheduler.ensure_lane(name.clone(), config).is_ok());
    assert_eq!(scheduler.lane_generation(&name), Some(2));
    assert!(matches!(
        scheduler.ensure_lane(name.clone(), LaneConfig::default()),
        Err(LaneError::ConfigConflict { .. })
    ));
    assert!(matches!(
        scheduler.delete_lane(&name, false),
        Err(LaneError::StillOpen { generation: 2, .. })
    ));
    assert!(scheduler.close_lane(&name, at(1)).is_ok());
    assert!(matches!(
        scheduler.delete_lane(&name, true),
        Err(LaneError::Busy { .. })
    ));
    assert!(matches!(scheduler.delete_lane(&name, false), Ok(2)));
    assert!(matches!(
        scheduler.close_lane(&name, at(1)),
        Err(LaneError::NotFound { .. })
    ));
    assert!(matches!(
        LaneConfig::new(0, 1),
        Err(LaneError::InvalidCapacity { capacity: 0, .. })
    ));
    let maximum = match LaneConfig::new(1, 0) {
        Err(LaneError::InvalidConcurrency {
            concurrency: 0,
            maximum,
        }) => maximum,
        _ => panic!("a lane runs something"),
    };
    assert_eq!(maximum, tokio::sync::Semaphore::MAX_PERMITS);
}

#[test]
fn schedulers_are_validated() {
    assert!(matches!(
        Scheduler::builder().build(false, at(0)),
        Err(SchedulerBuildError::RuntimeUnavailable)
    ));
    assert!(matches!(
        Scheduler::builder().global_concurrency(0).build(true, at(0)),
        Err(SchedulerBuildError::InvalidGlobalConcurrency { concurrency: 0, maximum })
            if maximum == tokio::sync::Semaphore::MAX_PERMITS
    ));
    assert!(matches!(
        Scheduler::builder()
            .event_capacity(1_048_577)
            .build(true, at(0)),
        Err(SchedulerBuildError::InvalidEventCapacity {
            capacity: 1_048_577,
            maximum: 1_048_576
        })
    ));
    let configured = Scheduler::builder();
    assert_eq!(configured.global_concurrency, 1024);
    assert_eq!(configured.event_capacity, 256);
    assert_eq!(configured.default_lane, LaneConfig::default());
    assert_eq!(configured.shutdown_policy, ShutdownPolicy::graceful(secs(5)));
    let mut scheduler = scheduler();
    let snapshot = scheduler.snapshot(at(1));
    assert_eq!(snapshot.active_tasks(), 0);
    assert_eq!(snapshot.lanes(), 1);
    assert!(!snapshot.is_shutting_down());
}

#[test]
fn groups_pause_stop_and_end() {
    let mut scheduler = scheduler();
    let group = scheduler
        .create_group("group".to_string())
        .unwrap_or_else(|_| panic!("the name is free"));
    assert!(matches!(
        scheduler.create_group("group".to_string()),
        Err(GroupError::NameInUse { generation: 1, .. })
    ));
    assert!(group
        .try_submit(&mut scheduler, job(), SlotOutcome::Acquired, TaskRunId(1), at(0))
        .is_ok());
    assert!(scheduler
        .try_submit(job(), SlotOutcome::Acquired, None, TaskRunId(2), at(0))
        .is_ok());
    assert_eq!(group.active_task_count(&scheduler), 1);
    assert_eq!(group.pause(&mut scheduler), 1);
    assert!(group.is_paused(&scheduler));
    assert!(scheduler.runs[0].manual.is_paused());
    assert!(!scheduler.runs[1].manual.is_paused());
    assert_eq!(group.resume(&mut scheduler), 1);
    let (members, _) = group
        .start_shutdown(&mut scheduler, at(1))
        .expect("the shutdown begins once");
    assert_eq!(members, vec![TaskRunId(1)]);
    assert_eq!(group.state(&scheduler), GroupState::Closing);
    assert_eq!(
        scheduler.runs[0].cancellation.reason(),
        Some(CancelReason::GroupShutdown)
    );
    assert_eq!(scheduler.runs[1].cancellation.reason(), None);
    scheduler.remove_run_registrations(TaskRunId(1));
    group.mark_terminated(&mut scheduler);
    assert_eq!(group.state(&scheduler), GroupState::Terminated);
}

#[test]
fn keys_are_held_by_one_run() {
    let mut scheduler = scheduler();
    let key = "key".to_string();
    let start = |scheduler: &mut Scheduler, id: u128| {
        scheduler.start_if_absent(
            "key".to_string(),
            job(),
            SlotOutcome::Acquired,
            TaskRunId(id),
            at(0),
        )
    };
    assert!(start(&mut scheduler, 1).is_ok());
    assert_eq!(
        scheduler.key_status(&key),
        Some(KeyStatus {
            generation: 1,
            run_id: Some(TaskRunId(1)),
            replacing: false
        })
    );
    assert!(matches!(
        start(&mut scheduler, 2),
        Err(KeyedCommitError::Refused(KeyedSubmitError::Occupied { .. }))
    ));
    assert!(scheduler.stop(&key, at(1)).0);
    assert_eq!(
        scheduler.runs[0].cancellation.reason(),
        Some(CancelReason::User)
    );
    assert!(!scheduler.cancel(TaskRunId(1), CancelReason::User, at(1)).0);
    scheduler.remove_run_registrations(TaskRunId(1));
    assert_eq!(scheduler.key_status(&key), None);
    assert!(start(&mut scheduler, 3).is_ok());
    assert_eq!(
        scheduler.key_status(&key).map(|status| status.generation()),
        Some(2)
    );
}

#[test]
fn a_reservation_is_kept_released_or_superseded() {
    let mut keys = KeyRegistryState::new();
    let key = "key".to_string();
    let reservation = match keys.reserve_key(key.clone(), false, false) {
        Ok(reservation) => reservation,
        Err(_) => panic!("the key is free"),
    };
    assert!(keys.is_active(&reservation));
    assert!(matches!(
        keys.reserve_key(key.clone(), false, false),
        Err(ReserveKeyError::Busy(_))
    ));
    keys.release(reservation, false);
    assert!(keys.key_status(&key, false).is_none());
    let again = match keys.reserve_key(key.clone(), false, false) {
        Ok(reservation) => reservation,
        Err(_) => panic!("the key is free again"),
    };
    assert_eq!(again.generation, 2);
    assert!(matches!(keys.stop_key(&key, false), Some(None)));
    assert!(!keys.is_active(&again));
    let mut run = run(5);
    assert!(!keys.commit(again, &mut run));
    assert!(run.key_registration.is_none());
}

#[test]
fn keys_do_not_touch_each_other_and_come_back() {
    let mut keys = KeyRegistryState::new();
    let (left, right) = ("left".to_string(), "right".to_string());
    let mut holder = run(1);
    let reservation = match keys.reserve_key(left.clone(), false, false) {
        Ok(reservation) => reservation,
        Err(_) => panic!("the key is free"),
    };
    assert!(keys.commit(reservation, &mut holder));
    let before = keys.key_status(&left, false);
    assert_eq!(before.and_then(KeyStatus::run_id), Some(TaskRunId(1)));
    assert!(keys.reserve_key(right.clone(), false, false).is_ok());
    assert_eq!(keys.key_status(&left, false), before);

    let replacing = match keys.reserve_key(left.clone(), true, false) {
        Ok(reservation) => reservation,
        Err(_) => panic!("a running job can be replaced"),
    };
    assert_eq!(replacing.previous, Some((1, TaskRunId(1))));
    assert!(keys
        .key_status(&left, false)
        .is_some_and(KeyStatus::is_replacing));
    keys.release(replacing, false);
    assert_eq!(keys.key_status(&left, false), before);
    assert_eq!(keys.next_generation(&left), Some(3));
    assert_eq!(keys.next_generation(&right), Some(2));
}

#[test]
fn triggers_follow_their_policy() {
    assert!(matches!(
        TriggerPolicy::queue_all(0),
        Err(TriggerPolicyError::ZeroCapacity)
    ));
    let policy = TriggerPolicy::queue_all(2).unwrap_or_else(|_| panic!("two is a capacity"));
    let mut control = ManualControl::new(Some(policy));
    assert!(matches!(
        ManualControl::new(None).run_now(TaskState::Queued),
        Err(TaskCommandError::NotScheduled)
    ));
    let mut observability = Observability::new(at(0));
    let mut ended = run(1);
    ended.publish_terminal(TaskState::Completed, &mut observability, at(0));
    assert!(matches!(
        ended.run_now(false),
        Err(TaskCommandError::Terminal)
    ));
    assert!(matches!(ended.pause(), Err(TaskCommandError::Terminal)));
    assert!(control.run_now(TaskState::WaitingForSchedule).is_ok());
    assert!(control.take_trigger());
    assert!(!control.take_trigger());
    assert!(control.pause_task());
    assert!(!control.pause_task());
    assert!(matches!(
        control.run_now(TaskState::WaitingForSchedule),
        Ok(TriggerOutcome::Paused)
    ));
    assert!(control.resume_task());
    assert!(control.take_trigger());
    assert!(!control.take_trigger());
}

#[test]
fn a_job_runs_retries_and_ends() {
    let retry = RetrySettings {
        max_attempts: 2,
        max_elapsed: Some(secs(100)),
        attempt_timeout: Some(secs(7)),
    };
    let (mut execution, step) = JobExecution::<&str>::begin::<u8>(
        None,
        Some(retry),
        RetryExhaustedAction::Stop,
        at(10),
    );
    assert!(matches!(
        step,
        JobStep::Unpause { deadline: Some(deadline) } if deadline == at(110)
    ));
    let mut cancellation = Cancellation::new();
    assert!(matches!(
        execution.unpaused::<u8>(Ok(()), &mut cancellation),
        JobStep::AcquireLane { .. } | JobStep::AcquireQueue { .. }
    ));
    execution.lane_acquired::<u8>(Ok(()), &mut cancellation);
    assert!(matches!(
        execution.global_acquired::<u8>(Ok(()), false, &mut cancellation),
        JobStep::Start { attempt: 1, .. }
    ));
    assert!(matches!(
        execution.started::<u8>(Ok(()), &mut cancellation, at(20)),
        JobStep::Run { limit: Some((end, TimeoutScope::Attempt)) } if end == at(27)
    ));
    assert!(matches!(
        execution.attempt_done::<u8>(AttemptOutput::Error("no"), &mut cancellation, at(21)),
        JobStep::AskRetry
    ));
    assert!(matches!(
        execution.retry_decided::<u8>(true, &mut cancellation, at(21)),
        JobStep::AskDelay { .. }
    ));
    assert!(matches!(
        execution.delay_decided::<u8>(secs(3)),
        JobStep::Delay { delay, state: TaskState::WaitingForRetry, .. } if delay == secs(3)
    ));
    execution.retry_waited::<u8>(Ok(()), &mut cancellation);
    execution.unpaused::<u8>(Ok(()), &mut cancellation);
    execution.queue_acquired::<u8>(Ok(()), &mut cancellation);
    execution.lane_acquired::<u8>(Ok(()), &mut cancellation);
    assert!(matches!(
        execution.global_acquired::<u8>(Ok(()), false, &mut cancellation),
        JobStep::Start { attempt: 2, .. }
    ));
    let step = execution.attempt_done::<u8>(AttemptOutput::Error("last"), &mut cancellation, at(30));
    let step = match step {
        JobStep::AskRetry => execution.retry_decided::<u8>(true, &mut cancellation, at(30)),
        step => step,
    };
    assert!(matches!(
        step,
        JobStep::End(TaskTerminal::RetriesExhausted {
            attempts: 2,
            last_error: "last"
        })
    ));
}

#[test]
fn a_scheduled_job_comes_again() {
    let schedule = Schedule::fixed_delay(secs(10), FirstRun::After(secs(2)), at(0))
        .unwrap_or_else(|_| panic!("the interval is valid"));
    let (mut execution, step) = JobExecution::<()>::begin::<u8>(
        Some(&schedule),
        None,
        RetryExhaustedAction::Stop,
        at(0),
    );
    assert!(matches!(
        step,
        JobStep::Delay { delay, state: TaskState::WaitingForSchedule, allow_trigger: true, .. }
            if delay == secs(2)
    ));
    let mut cancellation = Cancellation::new();
    execution.first_delay_done::<u8>(Ok(()), at(2));
    execution.unpaused::<u8>(Ok(()), &mut cancellation);
    execution.lane_acquired::<u8>(Ok(()), &mut cancellation);
    execution.global_acquired::<u8>(Ok(()), false, &mut cancellation);
    assert!(matches!(
        execution.attempt_done::<u8>(
            AttemptOutput::Control(TaskControl::Continue),
            &mut cancellation,
            at(3)
        ),
        JobStep::Delay { delay, .. } if delay == secs(10)
    ));
    execution.schedule_waited::<u8>(Ok(()), at(13));
    execution.unpaused::<u8>(Ok(()), &mut cancellation);
    execution.queue_acquired::<u8>(Ok(()), &mut cancellation);
    execution.lane_acquired::<u8>(Ok(()), &mut cancellation);
    execution.global_acquired::<u8>(Ok(()), false, &mut cancellation);
    assert!(matches!(
        execution.attempt_done::<u8>(
            AttemptOutput::Control(TaskControl::Complete(9)),
            &mut cancellation,
            at(14)
        ),
        JobStep::End(TaskTerminal::Completed(9))
    ));
}

#[test]
fn jobs_are_configured_and_shared() {
    let reusable = ReusableJob::<_, ()>::new(Arc::new("factory"))
        .on_lane("lane".to_string())
        .with_key("key".to_string());
    let job: PlainJob = reusable.instantiate();
    assert_eq!(job.id(), reusable.id());
    assert_eq!(job.lane, "lane");
    assert_eq!(job.key.as_deref(), Some("key"));
    assert!(matches!(job.kind, JobKind::Repeat(_)));
    let schedule = Schedule::dynamic(FirstRun::Immediate, at(0))
        .unwrap_or_else(|_| panic!("the first run is valid"));
    let scheduled = ScheduledJob::<_, ()>::new(schedule, Arc::new("factory"))
        .trigger_policy(TriggerPolicy::CoalesceOne);
    let mut job: PlainJob = scheduled.instantiate();
    assert!(matches!(
        job.kind.trigger_policy(),
        Some(TriggerPolicy::CoalesceOne)
    ));
    assert!(matches!(job.kind.start(), Ok(StartedJob::Factory)));
}

#[test]
fn waits_end_for_their_reasons() {
    assert!(permit_wait(false, Some(at(5)), at(4)).is_none());
    assert!(matches!(
        permit_wait(true, None, at(4)),
        Some(WaitError::Paused)
    ));
    assert!(matches!(
        permit_wait(false, Some(at(5)), at(5)),
        Some(WaitError::TimedOut)
    ));
    assert!(matches!(permit_woken(PermitWake::Acquired), Some(Ok(()))));
    assert!(matches!(
        permit_woken(PermitWake::Deadline),
        Some(Err(WaitError::TimedOut))
    ));
    assert!(matches!(
        permit_woken(PermitWake::Closed),
        Some(Err(WaitError::Closed))
    ));
    assert!(matches!(
        permit_woken(PermitWake::Cancelled(CancelReason::User)),
        Some(Err(WaitError::Cancelled(CancelReason::User)))
    ));
    assert!(matches!(
        attempt_limit(Some(secs(5)), Some(at(8)), at(1)),
        Some((end, TimeoutScope::Attempt)) if end == at(6)
    ));
    assert!(matches!(
        attempt_limit(Some(secs(50)), Some(at(8)), at(1)),
        Some((end, TimeoutScope::TotalElapsed)) if end == at(8)
    ));
    assert!(attempt_limit(None, None, at(1)).is_none());

    let mut run = run(1);
    let mut observability = Observability::new(at(0));
    let delay = ControlledDelay::begin(
        secs(5),
        None,
        None,
        TaskState::WaitingForRetry,
        false,
        at(1),
    )
    .unwrap_or_else(|_| panic!("nothing stops the delay"));
    assert!(matches!(
        delay.step(&mut run, &mut observability, at(1)),
        DelayStep::Sleep { until, end: SleepEnd::Delay, .. } if until == at(6)
    ));
    assert!(matches!(
        delay.woken(DelayWake::Slept(SleepEnd::Delay), &mut run),
        Some(Ok(()))
    ));
    assert!(matches!(
        ControlledDelay::begin(
            secs(5),
            Some(CancelReason::User),
            None,
            TaskState::WaitingForRetry,
            false,
            at(1)
        ),
        Err(WaitError::Cancelled(CancelReason::User))
    ));
}

#[test]
fn a_shutdown_waits_aborts_and_reports() {
    let (mut graceful, step) = ShutdownCoordinator::begin(ShutdownPolicy::graceful(secs(5)));
    assert!(matches!(step, ShutdownStep::Wait { limit: Some(limit) } if limit == secs(5)));
    assert!(matches!(
        graceful.waited(true),
        ShutdownStep::Finish { abort_requested: 0, grace_timed_out: false, .. }
    ));
    let policy = ShutdownPolicy::graceful_then_abort(secs(5), secs(2));
    let (mut aborting, _) = ShutdownCoordinator::begin(policy);
    assert!(matches!(
        aborting.waited(false),
        ShutdownStep::RequestAborts
    ));
    assert!(matches!(
        aborting.aborts_requested(3),
        ShutdownStep::Wait { limit: Some(limit) } if limit == secs(2)
    ));
    let report = SchedulerShutdownReport::collect(
        &vec![
            (TaskRunId(9), TaskState::Running),
            (TaskRunId(1), TaskState::Completed),
            (TaskRunId(3), TaskState::Queued),
            (TaskRunId(2), TaskState::Cancelled),
        ],
        3,
        true,
        false,
    );
    assert_eq!(report.total(), 4);
    assert_eq!(report.completed(), 1);
    assert_eq!(report.cancelled(), 1);
    assert_eq!(report.still_running(), &vec![TaskRunId(3), TaskRunId(9)]);
    assert!(!report.is_complete());
    assert_eq!(report.abort_requested(), 3);
    let report = match report.wait_for_settled(false) {
        ReportStep::Wait(report) => report,
        ReportStep::Settled(_) => panic!("runs are still there"),
    };
    assert!(matches!(
        report.wait_for_settled(true),
        ReportStep::Settled(report) if report.settled
    ));
}
