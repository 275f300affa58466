use busybeaver::execution::{
    CancelReason, PanicSource, StopCauseSummary, TaskExit, TaskFailure,
};
use busybeaver::execution_core::JoinFailure;
use busybeaver::recurring::{
    cancelled_exit, duration_from_nanos, map_tick_exit, next_target, tick_joined, tick_retried,
    Decision, MissedTickPolicy, PanicPolicy, RecurringBuildError, RecurringBuilder,
    RecurringFailure, RecurringRun, RestartPolicy, ResumePolicy, Schedule, ScheduleStep,
    TickFailurePolicy, TickOutcome, TickRun, TickStep, Wake,
};
use busybeaver::time::{Duration, Instant};

fn at(secs: u64) -> Instant {
    Instant::after_origin(Duration::from_secs(secs))
}

fn secs(secs: u64) -> Duration {
    Duration::from_secs(secs)
}

#[test]
fn nanosecond_conversion_preserves_subseconds_and_rejects_overflow() {
    let converted = duration_from_nanos(1_000_000_001);
    assert_eq!(converted, Some(Duration::new(1, 1)));

    let overflowing_seconds = u128::from(u64::MAX)
        .saturating_add(1)
        .saturating_mul(1_000_000_000);
    assert_eq!(duration_from_nanos(overflowing_seconds), None);
}

#[test]
fn fixed_delay_counts_from_the_end_and_fixed_rate_from_the_start() {
    let delay = Schedule::fixed_delay(secs(10));
    assert_eq!(
        next_target(&delay, at(100), 1, at(107), false, at(107), None).unwrap(),
        Some((at(117), 0))
    );
    let rate = Schedule::fixed_rate(secs(10));
    assert_eq!(
        next_target(&rate, at(100), 1, at(107), false, at(107), None).unwrap(),
        Some((at(110), 0))
    );
}

#[test]
fn missed_ticks_are_skipped_delayed_or_made_up() {
    let target = |policy| {
        let schedule = Schedule::fixed_rate(secs(10)).missed_tick_policy(policy);
        next_target(&schedule, at(100), 1, at(145), false, at(145), None).unwrap()
    };
    assert_eq!(target(MissedTickPolicy::Skip), Some((at(150), 4)));
    assert_eq!(target(MissedTickPolicy::Burst), Some((at(110), 1)));
    assert_eq!(target(MissedTickPolicy::Delay), Some((at(155), 1)));
}

#[test]
fn steps_end_unless_the_last_one_repeats() {
    let steps = Schedule::steps(vec![secs(1), secs(2)]);
    assert_eq!(
        next_target(&steps, at(0), 2, at(50), false, at(50), None).unwrap(),
        Some((at(52), 0))
    );
    assert_eq!(
        next_target(&steps, at(0), 3, at(50), false, at(50), None).unwrap(),
        None
    );
    let repeated = Schedule::steps(vec![secs(1), secs(2)]).repeat_last();
    assert_eq!(
        next_target(&repeated, at(0), 30, at(50), false, at(50), None).unwrap(),
        Some((at(52), 0))
    );
    assert_eq!(
        next_target(&steps, at(0), 0, at(50), false, at(50), None).unwrap_err(),
        "BB-SCHEDULE-STEP-COUNTER-UNDERFLOW"
    );
}

#[test]
fn a_resumed_process_may_run_at_once() {
    let schedule = Schedule::fixed_rate(secs(10)).resume_policy(ResumePolicy::RunImmediately);
    assert_eq!(
        next_target(&schedule, at(100), 1, at(107), true, at(108), None).unwrap(),
        Some((at(108), 0))
    );
    let delay = Schedule::fixed_delay(Duration::max());
    assert_eq!(
        next_target(&delay, at(100), 1, at(107), false, at(107), None).unwrap_err(),
        "BB-SCHEDULE-FIXED-DELAY-OVERFLOW"
    );
}

fn builder() -> RecurringBuilder<&'static str, ()> {
    RecurringBuilder::new("tick")
}

#[test]
fn every_recurring_build_error_has_its_input() {
    let error = |built: RecurringBuilder<&'static str, ()>| built.build(at(1)).err();
    assert!(matches!(
        error(builder().schedule(Schedule::steps(Vec::new()))),
        Some(RecurringBuildError::EmptySchedule)
    ));
    assert!(matches!(
        error(builder().tick_failure_policy(TickFailurePolicy::Continue {
            max_consecutive_failures: 0,
            delay: secs(1)
        })),
        Some(RecurringBuildError::ZeroFailureBudget)
    ));
    assert!(matches!(
        error(builder().panic_policy(PanicPolicy::Restart(RestartPolicy::new(0)))),
        Some(RecurringBuildError::ZeroRestartBudget)
    ));
    assert!(matches!(
        error(builder().panic_policy(PanicPolicy::Restart(
            RestartPolicy::new(1).window(Duration::zero())
        ))),
        Some(RecurringBuildError::ZeroRestartWindow)
    ));
    assert!(matches!(
        error(builder().schedule(Schedule::fixed_delay(secs(1)).jitter(false))),
        Some(RecurringBuildError::InvalidJitterRatio)
    ));
    assert!(matches!(
        error(builder().initial_delay(Duration::max())),
        Some(RecurringBuildError::DurationOverflow)
    ));
    let spec = builder().tag("beat".to_string()).build(at(1)).unwrap();
    assert_eq!(spec.id(), spec.id);
    assert_eq!(spec.tag.as_deref(), Some("beat"));
}

#[test]
fn a_tick_runs_waits_and_comes_again() {
    let schedule = Schedule::fixed_rate(secs(10)).initial_delay(secs(3));
    assert_eq!(RecurringRun::first_delay(&schedule), Some(secs(3)));
    let mut run = RecurringRun::new(at(100), 0);
    let (context, attempt) = match run.begin::<(), ()>(false, &None) {
        Ok(begun) => begun,
        Err(_) => panic!("the first tick starts"),
    };
    assert_eq!(context.number(), 1);
    assert_eq!(attempt, 1);
    assert_eq!(context.scheduled_at(), at(100));
    let step = run.tick_done::<(), ()>(
        TickRun::Outcome(TickOutcome::Continue),
        &TickFailurePolicy::Stop,
        &PanicPolicy::Stop,
        at(104),
    );
    assert!(matches!(step, TickStep::Schedule));
    let context = run.look(at(104), 0);
    assert!(!context.resume_observed);
    let decision = run.decide(&schedule, &context, at(104), None);
    let step = run.schedule_next::<(), ()>(decision, &schedule, at(104), None);
    match step {
        ScheduleStep::Wait { delay, until_resumed } => {
            assert_eq!(delay, secs(6));
            assert!(!until_resumed);
        }
        ScheduleStep::Exit(_) => panic!("the schedule goes on"),
    }
    assert_eq!(run.scheduled_at, at(110));
    assert!(run.woken::<(), ()>(Wake::Slept, &None).is_none());
    assert_eq!(run.tick, 2);
    assert_eq!(RecurringRun::wait_for(at(110), at(104)), secs(6));
    assert!(RecurringRun::wait_for(at(100), at(104)).is_zero());
}

#[test]
fn dynamic_schedules_ask_their_caller() {
    let dynamic = Schedule::dynamic();
    let mut run = RecurringRun::new(at(0), 0);
    let context = run.look(at(4), 0);
    assert!(RecurringRun::asks(&dynamic, &context));
    assert!(!RecurringRun::asks(&Schedule::fixed_rate(secs(1)), &context));
    assert!(matches!(
        run.decide(&dynamic, &context, at(5), Some(secs(3))),
        Decision::Next { at: due, missed: 0 } if due == at(7)
    ));
    assert!(matches!(
        run.decide(&dynamic, &context, at(5), None),
        Decision::Ended
    ));
    let resuming = Schedule::dynamic().resume_policy(ResumePolicy::RunImmediately);
    let resumed = run.look(at(6), 1);
    assert!(!RecurringRun::asks(&resuming, &resumed));
    assert!(matches!(
        run.decide(&resuming, &resumed, at(9), None),
        Decision::Next { at: due, missed: 0 } if due == at(9)
    ));
}

#[test]
fn failures_are_counted_until_the_budget_is_used() {
    let policy = TickFailurePolicy::Continue {
        max_consecutive_failures: 2,
        delay: secs(5),
    };
    let mut run = RecurringRun::new(at(0), 0);
    for _ in 0..2 {
        match run.tick_done::<(), _>(TickRun::Failure("no"), &policy, &PanicPolicy::Stop, at(1)) {
            TickStep::WaitThenSchedule { delay } => assert_eq!(delay, secs(5)),
            _ => panic!("a failure within the budget is followed by a delay"),
        }
    }
    assert!(matches!(
        run.tick_done::<(), _>(TickRun::Failure("no"), &policy, &PanicPolicy::Stop, at(1)),
        TickStep::Exit(TaskExit::Failed(TaskFailure::Recurring(
            RecurringFailure::ConsecutiveFailuresExceeded { tick: 1, error: "no" }
        )))
    ));
    let mut run = RecurringRun::new(at(0), 0);
    assert!(matches!(
        run.tick_done::<(), _>(
            TickRun::Failure("no"),
            &TickFailurePolicy::Stop,
            &PanicPolicy::Stop,
            at(1)
        ),
        TickStep::Exit(TaskExit::Failed(TaskFailure::Recurring(
            RecurringFailure::TickFailed { tick: 1, error: "no" }
        )))
    ));
}

#[test]
fn restarts_are_limited_within_their_window() {
    let policy = PanicPolicy::Restart(
        RestartPolicy::new(2).window(secs(60)).backoff(secs(7)),
    );
    let panicked = || TickRun::<(), ()>::Panicked {
        source: PanicSource::WorkFuture,
        message: "boom".to_string(),
    };
    let mut run = RecurringRun::new(at(0), 0);
    for now in [at(100), at(110)] {
        match run.tick_done(panicked(), &TickFailurePolicy::Stop, &policy, now) {
            TickStep::WaitThenRepeat { delay } => assert_eq!(delay, secs(7)),
            _ => panic!("a panic within the budget restarts the tick"),
        }
    }
    assert!(matches!(
        run.tick_done(panicked(), &TickFailurePolicy::Stop, &policy, at(120)),
        TickStep::Exit(TaskExit::Failed(TaskFailure::Recurring(
            RecurringFailure::RestartLimitExceeded
        )))
    ));
    let mut later = RecurringRun::new(at(0), 0);
    later.tick_done(panicked(), &TickFailurePolicy::Stop, &policy, at(100));
    later.tick_done(panicked(), &TickFailurePolicy::Stop, &policy, at(110));
    assert!(matches!(
        later.tick_done(panicked(), &TickFailurePolicy::Stop, &policy, at(165)),
        TickStep::WaitThenRepeat { .. }
    ));
}

#[test]
fn tick_outcomes_become_exits() {
    assert!(matches!(
        tick_joined::<u8, ()>(Ok(Ok(TickOutcome::Stop(4)))),
        TickRun::Outcome(TickOutcome::Stop(4))
    ));
    assert!(matches!(
        tick_joined::<u8, &str>(Ok(Err("e"))),
        TickRun::Failure("e")
    ));
    assert!(matches!(
        tick_joined::<u8, ()>(Err(JoinFailure::Panicked {
            message: Some("boom".to_string())
        })),
        TickRun::Panicked { .. }
    ));
    assert!(matches!(
        tick_retried::<u8, ()>(TaskExit::Completed(TickOutcome::Continue)),
        TickRun::Outcome(TickOutcome::Continue)
    ));
    assert!(matches!(
        map_tick_exit::<u8, ()>(TaskExit::Completed(TickOutcome::Stop(9))),
        TaskExit::Completed(9)
    ));
    let stop = Some(StopCauseSummary::Cancel(CancelReason::Replaced));
    assert!(matches!(
        cancelled_exit::<(), ()>(&stop),
        TaskExit::Cancelled {
            reason: CancelReason::Replaced
        }
    ));
    let mut run = RecurringRun::new(at(0), 0);
    assert!(run.begin::<(), ()>(true, &stop).is_err());
    assert!(run.woken::<(), ()>(Wake::Interrupted, &stop).is_some());
    let schedule = Schedule::dynamic();
    assert!(matches!(
        run.schedule_next::<(), ()>(Decision::Ended, &schedule, at(0), None),
        ScheduleStep::Exit(TaskExit::Failed(TaskFailure::Recurring(
            RecurringFailure::ScheduleEnded
        )))
    ));
}
