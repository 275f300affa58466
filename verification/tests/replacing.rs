use busybeaver::observe::TaskEventKind;
use busybeaver::schedule::{FirstRun, RetryExhaustedAction, Schedule};
use busybeaver::scheduler::execute::{AttemptOutput, JobExecution, JobStep};
use busybeaver::scheduler::jobs::{Job, ScheduledJob};
use busybeaver::scheduler::keyed::KeyedCommitError;
use busybeaver::scheduler::replace::{HeldReplacement, ReplaceStep};
use busybeaver::scheduler::state::{Scheduler, SlotOutcome, SlotStep, Submitted, TaskGroup};
use busybeaver::scheduler::types::{
    Backpressure, CancelReason, GroupState, KeyStatus, KeyedSubmitError, LaneConfig, ReplaceError,
    ReplacePolicy, ReplaceTimeoutAction, SubmissionFailure, TaskCommandError, TaskRunId,
    TaskState, TaskTerminal, TriggerOutcome, TrySubmitError,
};
use busybeaver::scheduler::run::Cancellation;
use busybeaver::scheduler::waits::{pause_woken, ControlledDelay, DelayStep, PauseWake, WaitError};
use busybeaver::time::{Duration, Instant};
use std::sync::Arc;

type PlainJob = Job<&'static str, &'static str, ()>;
type PlainStep = ReplaceStep<&'static str, &'static str, ()>;
type PlainHeld = HeldReplacement<&'static str, &'static str, ()>;

fn at(secs: u64) -> Instant {
    Instant::after_origin(Duration::from_secs(secs))
}

fn secs(secs: u64) -> Duration {
    Duration::from_secs(secs)
}

fn scheduler() -> Scheduler {
    match Scheduler::builder().build(true, at(0)) {
        Ok(scheduler) => scheduler,
        Err(_) => panic!("the default configuration is valid"),
    }
}

fn job() -> PlainJob {
    Job::once("body")
}

fn key() -> String {
    "key".to_string()
}

fn group(scheduler: &mut Scheduler, name: &str) -> TaskGroup {
    scheduler
        .create_group(name.to_string())
        .unwrap_or_else(|_| panic!("the name is free"))
}

fn hold(scheduler: &mut Scheduler, id: u128) {
    assert!(scheduler
        .start_if_absent(key(), job(), SlotOutcome::Acquired, TaskRunId(id), at(0))
        .is_ok());
}

fn replace(
    scheduler: &mut Scheduler,
    policy: ReplacePolicy,
    caller: Option<TaskRunId>,
) -> PlainStep {
    match scheduler.begin_replace(None, key(), job(), policy, caller) {
        Ok(replacement) => scheduler.replace_slot(replacement, SlotOutcome::Acquired, at(1)),
        Err(_) => panic!("the lane takes work"),
    }
}

fn awaited(step: PlainStep) -> (PlainHeld, TaskRunId, Option<Duration>, bool) {
    match step {
        ReplaceStep::AwaitEnd {
            held,
            run_id,
            limit,
            abort,
            ..
        } => (held, run_id, limit, abort),
        _ => panic!("the replacement waits for the previous run"),
    }
}

fn confirmed(action: ReplaceTimeoutAction) -> ReplacePolicy {
    ReplacePolicy::after_confirmed_stop(secs(5), action)
}

#[test]
fn a_replacement_waits_and_takes_the_key() {
    let mut scheduler = scheduler();
    hold(&mut scheduler, 1);
    let step = replace(&mut scheduler, confirmed(ReplaceTimeoutAction::Fail), None);
    let (held, run_id, limit, abort) = awaited(step);
    assert_eq!((run_id, limit, abort), (TaskRunId(1), Some(secs(5)), false));
    assert_eq!(
        scheduler.runs[0].cancellation.reason(),
        Some(CancelReason::Replaced)
    );
    assert!(scheduler
        .key_status(&key())
        .is_some_and(KeyStatus::is_replacing));
    let settled = scheduler.settle::<(), ()>(TaskRunId(1), Ok(TaskTerminal::Completed(())), at(2));
    assert!(settled.is_some());
    let held = match scheduler.replace_waited(held) {
        ReplaceStep::Submit { held, .. } => held,
        _ => panic!("the previous run is over"),
    };
    let held = match scheduler.replace_submit(held, TaskRunId(1), at(2)) {
        ReplaceStep::Submit { held, .. } => held,
        _ => panic!("the identity is in use"),
    };
    match scheduler.replace_submit(held, TaskRunId(2), at(2)) {
        ReplaceStep::Registered {
            job,
            group,
            reservation,
            event,
        } => {
            assert_eq!(job.key_generation, Some(2));
            assert!(event.is_some_and(|event| event.kind() == TaskEventKind::Submitted));
            let (kept, cancelled) =
                scheduler.replace_registered(group, reservation, TaskRunId(2), at(2));
            assert!(kept && cancelled.is_none());
        }
        _ => panic!("the new run is registered"),
    }
    assert_eq!(
        scheduler.key_status(&key()),
        Some(KeyStatus {
            generation: 2,
            run_id: Some(TaskRunId(2)),
            replacing: false
        })
    );
}

#[test]
fn a_replacement_that_times_out_gives_the_key_back() {
    let abort = ReplaceTimeoutAction::Abort {
        confirmation_timeout: secs(1),
    };
    for (action, aborts) in [(ReplaceTimeoutAction::Fail, false), (abort, true)] {
        let mut scheduler = scheduler();
        hold(&mut scheduler, 1);
        assert!(scheduler.set_abortable(TaskRunId(1)));
        let (mut held, ..) = awaited(replace(&mut scheduler, confirmed(action), None));
        if aborts {
            let (waiting, run_id, limit, abort) = awaited(scheduler.replace_waited(held));
            assert_eq!((run_id, limit, abort), (TaskRunId(1), Some(secs(1)), true));
            assert!(scheduler.runs[0].abort_requested);
            assert!(!scheduler.request_abort(TaskRunId(1)));
            held = waiting;
        }
        assert!(matches!(
            scheduler.replace_waited(held),
            ReplaceStep::Failed(ReplaceError::TimedOut { previous, .. })
                if previous.generation() == 1 && previous.run_id() == Some(TaskRunId(1))
        ));
        assert_eq!(
            scheduler.key_status(&key()).and_then(KeyStatus::run_id),
            Some(TaskRunId(1))
        );
    }
    let mut scheduler = scheduler();
    hold(&mut scheduler, 1);
    let policy = confirmed(ReplaceTimeoutAction::ContinueWait);
    let (held, ..) = awaited(replace(&mut scheduler, policy, None));
    let (_, _, limit, abort) = awaited(scheduler.replace_waited(held));
    assert_eq!((limit, abort), (None, false));
}

#[test]
fn replacements_are_refused_for_their_reasons() {
    let mut scheduler = scheduler();
    let group = group(&mut scheduler, "group");
    assert!(group.start_shutdown(&mut scheduler, at(0)).is_some());
    let policy = confirmed(ReplaceTimeoutAction::Fail);
    let nowhere = job().on_lane("nowhere".to_string());
    assert!(matches!(
        scheduler.begin_replace(Some(group.generation()), key(), nowhere, policy, None),
        Err(ReplaceError::Submit(TrySubmitError::Closed(_)))
    ));
    let nowhere = job().on_lane("nowhere".to_string());
    assert!(matches!(
        scheduler.begin_replace(None, key(), nowhere, policy, None),
        Err(ReplaceError::Submit(TrySubmitError::LaneNotFound(_)))
    ));
    hold(&mut scheduler, 1);
    assert!(matches!(
        replace(&mut scheduler, policy, Some(TaskRunId(1))),
        ReplaceStep::Failed(ReplaceError::SelfReplacementRequiresOverlap(_))
    ));
    assert_eq!(
        scheduler.key_status(&key()).map(|status| status.generation()),
        Some(1)
    );
    let overlap = ReplacePolicy::allow_overlap();
    let held = match replace(&mut scheduler, overlap, Some(TaskRunId(1))) {
        ReplaceStep::Submit { held, .. } => held,
        _ => panic!("both may run for a while"),
    };
    assert!(matches!(
        replace(&mut scheduler, policy, None),
        ReplaceStep::Failed(ReplaceError::Busy { .. })
    ));
    assert!(scheduler.stop(&key(), at(1)).0);
    assert!(matches!(
        scheduler.replace_submit(held, TaskRunId(2), at(2)),
        ReplaceStep::Failed(ReplaceError::Superseded(_))
    ));
    assert_eq!(scheduler.key_status(&key()), None);
}

#[test]
fn a_run_that_lost_its_key_is_stopped() {
    let mut scheduler = scheduler();
    hold(&mut scheduler, 1);
    let overlap = ReplacePolicy::allow_overlap();
    let held = match replace(&mut scheduler, overlap, None) {
        ReplaceStep::Submit { held, .. } => held,
        _ => panic!("both may run for a while"),
    };
    let (group, reservation) = match scheduler.replace_submit(held, TaskRunId(2), at(1)) {
        ReplaceStep::Registered {
            group, reservation, ..
        } => (group, reservation),
        _ => panic!("the new run is registered"),
    };
    assert!(scheduler.stop(&key(), at(1)).0);
    let (kept, event) = scheduler.replace_registered(group, reservation, TaskRunId(2), at(2));
    assert!(!kept);
    assert!(event.is_some());
    assert_eq!(
        scheduler.runs[1].cancellation.reason(),
        Some(CancelReason::User)
    );
}

#[test]
fn a_full_lane_makes_a_submission_wait_or_refuses_it() {
    let waits = LaneConfig::default();
    let rejects = waits.backpressure(Backpressure::Reject);
    let scheduler_waits = scheduler();
    assert_eq!(
        scheduler_waits.slot_step(waits, SlotOutcome::NoPermits),
        SlotStep::Wait
    );
    assert_eq!(
        scheduler_waits.slot_step(rejects, SlotOutcome::NoPermits),
        SlotStep::Refuse(SubmissionFailure::Full)
    );
    assert_eq!(
        scheduler_waits.slot_step(rejects, SlotOutcome::Acquired),
        SlotStep::Commit
    );
    let mut scheduler = scheduler();
    let submission = match scheduler.begin_submit(job(), None) {
        Ok(submission) => submission,
        Err(_) => panic!("the lane takes work"),
    };
    let waiting = match scheduler.submit(submission, SlotOutcome::NoPermits, TaskRunId(1), at(0)) {
        Ok(Submitted::Waits(waiting)) => waiting,
        _ => panic!("the lane waits"),
    };
    assert_eq!(scheduler.active_task_count(), 0);
    assert!(matches!(
        scheduler.submit(waiting, SlotOutcome::Acquired, TaskRunId(1), at(0)),
        Ok(Submitted::Accepted(_, Some(_)))
    ));
    let submission = match scheduler.begin_submit(job(), None) {
        Ok(submission) => submission,
        Err(_) => panic!("the lane takes work"),
    };
    let submission = match scheduler.submit(submission, SlotOutcome::Acquired, TaskRunId(1), at(0))
    {
        Ok(Submitted::IdentityTaken(submission)) => submission,
        _ => panic!("the identity is in use"),
    };
    assert!(scheduler.start_shutdown(at(1)).is_some());
    assert!(matches!(
        scheduler.submit(submission, SlotOutcome::Closed, TaskRunId(2), at(1)),
        Err(TrySubmitError::ShuttingDown(_))
    ));
}

#[test]
fn a_request_to_a_paused_run_is_kept() {
    let mut scheduler = scheduler();
    let schedule = Schedule::fixed_delay(secs(60), FirstRun::After(secs(60)), at(0))
        .unwrap_or_else(|_| panic!("a minute is an interval"));
    let scheduled: PlainJob = ScheduledJob::new(schedule, Arc::new("factory")).instantiate();
    let id = TaskRunId(1);
    assert!(scheduler
        .try_submit(scheduled, SlotOutcome::Acquired, None, id, at(0))
        .is_ok());
    assert!(scheduler
        .transition(id, TaskState::WaitingForSchedule, at(0))
        .is_some());
    assert_eq!(scheduler.pause(id), Ok(true));
    assert_eq!(scheduler.run_now(id), Ok(TriggerOutcome::Paused));
    assert_eq!(scheduler.runs[0].manual.pending, 1);
    assert_eq!(scheduler.run_now(id), Ok(TriggerOutcome::Paused));
    assert_eq!(scheduler.runs[0].manual.pending, 1);
    let wait = ControlledDelay::begin(
        secs(60),
        None,
        None,
        TaskState::WaitingForSchedule,
        true,
        at(0),
    )
    .unwrap_or_else(|_| panic!("nothing asked the run to stop"));
    assert!(matches!(
        scheduler.delay_step(id, &wait, at(1)),
        Some(DelayStep::Paused { .. })
    ));
    assert_eq!(scheduler.resume(id), Ok(true));
    assert!(matches!(
        scheduler.delay_step(id, &wait, at(2)),
        Some(DelayStep::Done(Ok(())))
    ));
    assert_eq!(scheduler.runs[0].manual.pending, 0);
}

#[test]
fn commands_reach_one_run_and_mind_its_group() {
    let mut scheduler = scheduler();
    let group = group(&mut scheduler, "group");
    let id = TaskRunId(1);
    assert!(group
        .try_submit(&mut scheduler, job(), SlotOutcome::Acquired, id, at(0))
        .is_ok());
    assert_eq!(group.pause(&mut scheduler), 1);
    assert_eq!(scheduler.resume(id), Err(TaskCommandError::ScopePaused));
    assert_eq!(scheduler.run_now(id), Ok(TriggerOutcome::Paused));
    assert_eq!(group.resume(&mut scheduler), 1);
    assert_eq!(scheduler.run_now(id), Err(TaskCommandError::NotScheduled));
    assert_eq!(
        scheduler.pause(TaskRunId(9)),
        Err(TaskCommandError::Terminal)
    );
    assert!(group.waits_on_itself(&scheduler, Some(id)));
    assert!(!group.waits_on_itself(&scheduler, None));
    assert!(!group.waits_on_itself(&scheduler, Some(TaskRunId(9))));
    let settled = scheduler.settle::<u8, ()>(id, Ok(TaskTerminal::Completed(3)), at(1));
    assert!(matches!(settled, Some((TaskTerminal::Completed(3), Some(_)))));
    assert_eq!(scheduler.active_task_count(), 0);
    assert_eq!(group.active_task_count(&scheduler), 0);
    assert_eq!(scheduler.snapshot(at(1)).active_tasks(), 0);
    assert_eq!(scheduler.pause(id), Err(TaskCommandError::Terminal));
    let received = scheduler.receive_terminal::<u8, ()>(id, None, at(2));
    assert!(matches!(
        received,
        Some((TaskTerminal::ExecutorStopped, None))
    ));
    assert!(scheduler.remove_run_registrations(id).is_some());
    assert!(!scheduler.set_abortable(id));
}

#[test]
fn a_superseded_group_keeps_what_it_was() {
    let mut scheduler = scheduler();
    let first = group(&mut scheduler, "group");
    assert_eq!(first.pause(&mut scheduler), 0);
    assert!(first.start_shutdown(&mut scheduler, at(0)).is_some());
    first.mark_terminated(&mut scheduler);
    let second = group(&mut scheduler, "group");
    assert_eq!((first.generation(), second.generation()), (1, 2));
    assert!(first.is_paused(&scheduler));
    assert!(!second.is_paused(&scheduler));
    assert_eq!(first.state(&scheduler), GroupState::Terminated);
    assert_eq!(second.state(&scheduler), GroupState::Open);
    assert!(first.start_shutdown(&mut scheduler, at(1)).is_none());
    assert_eq!(scheduler.snapshot(at(1)).groups(), 1);
    assert!(matches!(
        first.start_if_absent(
            &mut scheduler,
            key(),
            job(),
            SlotOutcome::NoPermits,
            TaskRunId(1),
            at(1)
        ),
        Err(KeyedCommitError::Refused(KeyedSubmitError::Submit(TrySubmitError::Full(job))))
            if job.key == Some(key()) && job.key_generation == Some(1)
    ));
    assert!(second
        .start_if_absent(
            &mut scheduler,
            key(),
            job(),
            SlotOutcome::Acquired,
            TaskRunId(1),
            at(1)
        )
        .is_ok());
    assert_eq!(first.key_status(&mut scheduler, &key()), None);
    assert!(second.key_status(&mut scheduler, &key()).is_some());
}

#[test]
fn an_identity_in_use_costs_no_key_generation() {
    let mut scheduler = scheduler();
    assert!(scheduler
        .try_submit(job(), SlotOutcome::Acquired, None, TaskRunId(1), at(0))
        .is_ok());
    assert!(matches!(
        scheduler.start_if_absent(key(), job(), SlotOutcome::Acquired, TaskRunId(1), at(0)),
        Err(KeyedCommitError::IdentityTaken(job)) if job.key.is_none()
    ));
    let started =
        scheduler.start_if_absent(key(), job(), SlotOutcome::Acquired, TaskRunId(2), at(0));
    match started {
        Ok((job, event)) => {
            assert_eq!(job.key_generation, Some(1));
            assert!(event.is_some_and(|event| event.kind() == TaskEventKind::Submitted));
        }
        Err(_) => panic!("the key is free"),
    }
}

#[test]
fn a_wait_for_the_end_of_a_pause_ends_for_its_reasons() {
    assert!(matches!(
        pause_woken(PauseWake::Cancelled(CancelReason::Replaced)),
        Some(Err(WaitError::Cancelled(CancelReason::Replaced)))
    ));
    assert!(matches!(
        pause_woken(PauseWake::Deadline),
        Some(Err(WaitError::TimedOut))
    ));
    assert!(pause_woken(PauseWake::PauseChanged).is_none());
    let (mut execution, _) =
        JobExecution::<()>::begin::<()>(None, None, RetryExhaustedAction::Stop, at(0));
    let mut cancellation = Cancellation::new();
    assert!(matches!(
        execution.unpaused::<()>(
            Err(WaitError::Cancelled(CancelReason::Replaced)),
            &mut cancellation
        ),
        JobStep::End(TaskTerminal::Cancelled {
            reason: CancelReason::Replaced
        })
    ));
    assert!(!execution.has_slot);
}

#[test]
fn permits_are_held_within_an_attempt_only() {
    let mut scheduler = scheduler();
    let id = TaskRunId(1);
    assert!(scheduler
        .try_submit(job(), SlotOutcome::Acquired, None, id, at(0))
        .is_ok());
    let (mut execution, _) =
        JobExecution::<()>::begin::<u8>(None, None, RetryExhaustedAction::Stop, at(0));
    let mut cancellation = Cancellation::new();
    let held = |execution: &JobExecution<()>| {
        (execution.has_slot, execution.has_lane, execution.has_global)
    };
    assert_eq!(held(&execution), (true, false, false));
    execution.unpaused::<u8>(Ok(()), &mut cancellation);
    execution.lane_acquired::<u8>(Ok(()), &mut cancellation);
    assert_eq!(held(&execution), (true, true, false));
    assert_eq!(scheduler.pause(id), Ok(true));
    assert!(matches!(
        scheduler.start_attempt::<u8, ()>(id, &mut execution, Ok(()), at(1)),
        Some((JobStep::Unpause { .. }, None))
    ));
    assert_eq!(held(&execution), (false, false, false));
    assert_eq!(scheduler.resume(id), Ok(true));
    execution.unpaused::<u8>(Ok(()), &mut cancellation);
    execution.queue_acquired::<u8>(Ok(()), &mut cancellation);
    execution.lane_acquired::<u8>(Ok(()), &mut cancellation);
    assert!(matches!(
        scheduler.start_attempt::<u8, ()>(id, &mut execution, Ok(()), at(2)),
        Some((JobStep::Start { .. }, Some(_)))
    ));
    assert_eq!(held(&execution), (false, true, true));
    assert_eq!(scheduler.runs[0].snapshot().state(), TaskState::Running);
    assert!(matches!(
        execution.started::<u8>(Ok(()), &mut cancellation, at(2)),
        JobStep::Run { limit: None }
    ));
    assert_eq!(held(&execution), (false, true, true));
    assert!(matches!(
        execution.attempt_done(AttemptOutput::Value(3u8), &mut cancellation, at(3)),
        JobStep::End(TaskTerminal::Completed(3))
    ));
    assert_eq!(held(&execution), (false, false, false));
    assert!(scheduler
        .start_attempt::<u8, ()>(TaskRunId(9), &mut execution, Ok(()), at(3))
        .is_none());
}

#[test]
fn a_superseded_group_is_forgotten_without_members() {
    let mut scheduler = scheduler();
    let first = group(&mut scheduler, "group");
    assert!(first
        .try_submit(&mut scheduler, job(), SlotOutcome::Acquired, TaskRunId(1), at(0))
        .is_ok());
    assert!(!scheduler.forget_group(first.generation()));
    assert!(first.start_shutdown(&mut scheduler, at(1)).is_some());
    first.mark_terminated(&mut scheduler);
    let second = group(&mut scheduler, "group");
    assert!(!scheduler.forget_group(first.generation()));
    assert!(scheduler.remove_run_registrations(TaskRunId(1)).is_some());
    assert!(scheduler.forget_group(first.generation()));
    assert!(!scheduler.forget_group(first.generation()));
    assert!(!scheduler.forget_group(second.generation()));
    assert_eq!(first.state(&scheduler), GroupState::Terminated);
    assert_eq!(second.state(&scheduler), GroupState::Open);
}
