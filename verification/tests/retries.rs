use busybeaver::execution::{
    AbortPolicy, CancelReason, PanicSource, StopCauseSummary, TaskExit, TaskFailure,
};
use busybeaver::execution_core::JoinFailure;
use busybeaver::ids::ExecutionId;
use busybeaver::retry::{
    attempt_deadline, attempt_interrupt, attempt_joined, attempt_panicked, deadline_exit,
    jitter_at, jitter_stream, AttemptContext, AttemptInterrupt, AttemptOutcome, Backoff,
    DelayPlan, ExponentialBackoff, Jitter, RetryBuildError, RetryBuilder, RetryDecision,
    RetryFailure, RetryPolicyStage, RetryRun, RetryStep, MAX_ATTEMPTS,
};
use busybeaver::time::{Duration, Instant};

fn at(secs: u64) -> Instant {
    Instant::after_origin(Duration::from_secs(secs))
}

fn seconds_of(delay: Duration) -> f64 {
    delay.as_secs() as f64 + f64::from(delay.subsec_nanos()) / 1e9
}

fn from_seconds(seconds: f64) -> Option<Duration> {
    std::time::Duration::try_from_secs_f64(seconds)
        .ok()
        .and_then(|span| Duration::checked_from_nanos(span.as_nanos()))
}

/// A jitter of the given ratio on the given delays.
fn seeded(seed: u64, ratio: f64, delays: &[Duration]) -> Jitter {
    let jittered = jitter_stream(seed, delays.len())
        .into_iter()
        .zip(delays)
        .map(|(state, delay)| {
            let unit = state as f64 / u64::MAX as f64;
            let factor = (1.0 - ratio) + (2.0 * ratio * unit);
            from_seconds(seconds_of(*delay) * factor)
        })
        .collect();
    Jitter {
        seed,
        ratio_valid: ratio.is_finite() && (0.0..=1.0).contains(&ratio),
        jittered,
    }
}

/// A backoff that grows by the given factor.
fn exponential(base: Duration, multiplier: f64, cap: Duration, count: usize) -> Backoff {
    let mut grown = Vec::new();
    let mut seconds = seconds_of(base);
    for _ in 0..count {
        grown.push(from_seconds(seconds.min(seconds_of(cap))));
        seconds = (seconds * multiplier).min(seconds_of(cap));
    }
    Backoff::exponential(ExponentialBackoff {
        base,
        cap,
        multiplier_valid: multiplier.is_finite() && multiplier >= 1.0,
        longest: from_seconds(seconds_of(cap)),
        grown,
    })
}

#[test]
fn seeded_jitter_is_replayable() {
    let original = vec![Duration::from_secs(10); 4];
    let backoff = Backoff::explicit(original.clone());
    let first =
        DelayPlan::build(&backoff, 4, &Some(seeded(7, 0.25, &original))).unwrap();
    let second =
        DelayPlan::build(&backoff, 4, &Some(seeded(7, 0.25, &original))).unwrap();
    assert_eq!(first.delays, second.delays);
    assert_ne!(first.delays, original);
}

#[test]
fn jitter_is_clamped_to_an_exponential_cap() {
    let cap = Duration::from_secs(10);
    let delays = vec![cap; 8];
    let plan = DelayPlan::build(
        &exponential(cap, 1.0, cap, 8),
        8,
        &Some(seeded(9, 1.0, &delays)),
    )
    .unwrap();
    assert_eq!(plan.delays.len(), 8);
    assert!(plan.delays.into_iter().all(|delay| delay <= cap));
}

#[test]
fn compact_delay_plan_matches_dense_oracle_and_replays_independently() {
    let retry_count = 8;
    let fixed = vec![Duration::from_millis(17); retry_count];
    let explicit: Vec<Duration> = (1..=retry_count)
        .map(|value| Duration::from_millis(value as u64 * 3))
        .collect();
    let grown: Vec<Duration> = [5, 10, 20, 40, 40, 40, 40, 40]
        .into_iter()
        .map(Duration::from_millis)
        .collect();
    let cap = Duration::from_millis(40);
    let cases = vec![
        (Backoff::Immediate, vec![Duration::zero(); retry_count], None, None),
        (
            Backoff::fixed(Duration::from_millis(17)),
            fixed,
            Some((7, 0.25)),
            None,
        ),
        (
            Backoff::explicit(explicit.clone()),
            explicit,
            Some((11, 1.0)),
            None,
        ),
        (
            exponential(Duration::from_millis(5), 2.0, cap, retry_count),
            grown,
            Some((13, 0.5)),
            Some(cap),
        ),
    ];
    for (backoff, base, jitter, cap) in cases {
        let plain = DelayPlan::build(&backoff, retry_count, &None).unwrap();
        assert_eq!(plain.delays, base);
        let mut dense = base.clone();
        let jitter = jitter.map(|(seed, ratio)| seeded(seed, ratio, &base));
        if let Some(jitter) = &jitter {
            for (delay, jittered) in dense.iter_mut().zip(&jitter.jittered) {
                let jittered = jittered.unwrap();
                *delay = match cap {
                    Some(cap) if jittered > cap => cap,
                    _ => jittered,
                };
            }
        }
        let first = DelayPlan::build(&backoff, retry_count, &jitter).unwrap();
        let second = DelayPlan::build(&backoff, retry_count, &jitter).unwrap();
        assert!(
            first.delays == dense && second.delays == dense,
            "compact retry delay plan differed from the dense oracle"
        );
    }
}

#[test]
fn compact_delay_plan_preserves_validation_precedence_and_debug_shape() {
    let delays = vec![Duration::from_secs(1); 2];
    let invalid = DelayPlan::build(
        &exponential(Duration::from_secs(1), f64::NAN, Duration::from_secs(2), 2),
        2,
        &Some(seeded(1, -1.0, &delays)),
    );
    assert!(
        matches!(invalid, Err(RetryBuildError::InvalidBackoffMultiplier)),
        "backoff validation no longer precedes jitter validation"
    );

    let spec = RetryBuilder::<_, ()>::new("retry")
        .max_attempts(3)
        .retry_all_errors()
        .fixed_delay(Duration::from_secs(1))
        .build(at(0))
        .unwrap();
    assert_eq!(spec.delays.delays, vec![Duration::from_secs(1); 2]);
}

#[test]
fn jitter_states_follow_from_the_seed() {
    assert_eq!(
        jitter_stream(42, 3),
        vec![
            45_454_805_674,
            11_532_217_803_599_905_471,
            10_021_416_941_527_320_954
        ]
    );
    assert_eq!(jitter_at(42, 0), 45_454_805_674);
    assert_eq!(jitter_at(42, 1), 15_860_402_061_635_094_279);
}

fn builder() -> RetryBuilder<&'static str, ()> {
    RetryBuilder::new("work").max_attempts(3).retry_all_errors()
}

#[test]
fn every_build_error_has_its_input() {
    let now = at(100);
    let error = |built: RetryBuilder<&'static str, ()>| built.build(now).err();
    assert!(matches!(
        error(builder().max_attempts(0)),
        Some(RetryBuildError::InvalidAttemptCount)
    ));
    assert!(matches!(
        error(builder().max_attempts(MAX_ATTEMPTS + 1)),
        Some(RetryBuildError::AttemptCountTooLarge)
    ));
    assert!(matches!(
        error(RetryBuilder::new("work").max_attempts(2)),
        Some(RetryBuildError::RetryPolicyRequired)
    ));
    assert!(matches!(
        error(builder().delays(vec![Duration::from_secs(1)])),
        Some(RetryBuildError::DelayCountMismatch {
            expected: 2,
            actual: 1
        })
    ));
    assert!(matches!(
        error(builder().backoff(exponential(
            Duration::from_secs(2),
            2.0,
            Duration::from_secs(1),
            2
        ))),
        Some(RetryBuildError::BackoffCapBelowBase)
    ));
    let delays = vec![Duration::zero(); 2];
    assert!(matches!(
        error(builder().jitter(seeded(1, 2.0, &delays))),
        Some(RetryBuildError::InvalidJitterRatio)
    ));
    assert!(matches!(
        error(builder().attempt_timeout(Duration::zero())),
        Some(RetryBuildError::ZeroAttemptTimeout)
    ));
    assert!(matches!(
        error(
            builder()
                .deadline(at(200))
                .overall_timeout(Duration::from_secs(1))
        ),
        Some(RetryBuildError::ConflictingDeadline)
    ));
    assert!(matches!(
        error(builder().overall_timeout(Duration::max())),
        Some(RetryBuildError::DurationOverflow)
    ));
    let built = builder()
        .overall_timeout(Duration::from_secs(5))
        .tag("tag".to_string())
        .abort_policy(AbortPolicy::Allowed)
        .build(now)
        .unwrap();
    assert_eq!(built.deadline_at(at(7)).unwrap(), Some(at(12)));
    assert_eq!(built.id(), built.id);
}

fn expect_exit<T, E>(step: RetryStep<T, E>) -> TaskExit<T, E> {
    match step {
        RetryStep::Exit(exit) | RetryStep::DeadlineExit(exit) => exit,
        _ => panic!("the run did not end"),
    }
}

#[test]
fn a_run_retries_until_its_attempts_are_used() {
    let spec = builder()
        .fixed_delay(Duration::from_secs(4))
        .build(at(0))
        .unwrap();
    let mut run: RetryRun<&str> = RetryRun::new(&spec);
    for number in 1..=2 {
        assert!(matches!(
            run.begin::<()>(None, at(0), &None),
            RetryStep::Attempt { number: n } if n == number
        ));
        let step = run.attempt_done::<()>(AttemptOutcome::Failed("no"), &None, &spec.delays);
        match step {
            RetryStep::Wait { delay } => assert_eq!(delay, Duration::from_secs(4)),
            _ => panic!("a failed attempt is followed by a delay"),
        }
        assert!(matches!(run.waited::<()>(true, &None), RetryStep::Begin));
    }
    assert!(matches!(
        run.begin::<()>(None, at(0), &None),
        RetryStep::Attempt { number: 3 }
    ));
    let exit = expect_exit(run.attempt_done::<()>(
        AttemptOutcome::Failed("last"),
        &None,
        &spec.delays,
    ));
    assert!(matches!(
        exit,
        TaskExit::Failed(TaskFailure::Retry(RetryFailure::Exhausted {
            last_error: "last"
        }))
    ));
}

#[test]
fn a_predicate_decides_about_errors() {
    let spec = RetryBuilder::<_, ()>::new("work")
        .max_attempts(3)
        .retry_if(())
        .build(at(0))
        .unwrap();
    for decision in [
        RetryDecision::Retry,
        RetryDecision::GiveUp,
        RetryDecision::Panicked,
    ] {
        let mut run: RetryRun<&str> = RetryRun::new(&spec);
        run.begin::<()>(None, at(0), &None);
        assert!(matches!(
            run.attempt_done::<()>(AttemptOutcome::Failed("why"), &None, &spec.delays),
            RetryStep::Decide { number: 1 }
        ));
        let context = run.decision_context(at(1), Some(at(9)), at(4)).unwrap();
        assert_eq!(*context.error, "why");
        assert_eq!(context.elapsed, Duration::from_secs(3));
        assert_eq!(context.remaining_budget, Some(Duration::from_secs(5)));
        let step = run.decided::<()>(decision, &spec.delays);
        match decision {
            RetryDecision::Retry => assert!(matches!(
                step,
                RetryStep::Wait { delay } if delay.is_zero()
            )),
            RetryDecision::GiveUp => assert!(matches!(
                expect_exit(step),
                TaskExit::Failed(TaskFailure::Retry(RetryFailure::NonRetryable {
                    error: "why"
                }))
            )),
            RetryDecision::Panicked => assert!(matches!(
                expect_exit(step),
                TaskExit::Failed(TaskFailure::PolicyPanicked {
                    stage: RetryPolicyStage::Predicate,
                    last_error: Some("why")
                })
            )),
        }
    }
}

#[test]
fn deadlines_and_stops_end_a_run() {
    let spec = builder().build(at(0)).unwrap();
    let mut run: RetryRun<&str> = RetryRun::new(&spec);
    let step = run.begin::<()>(Some(at(5)), at(5), &None);
    assert!(matches!(step, RetryStep::DeadlineExit(_)));
    assert!(matches!(
        expect_exit(step),
        TaskExit::Failed(TaskFailure::DeadlineExceeded { last_error: None })
    ));
    let stop = Some(StopCauseSummary::Cancel(CancelReason::UserRequested));
    let mut run: RetryRun<&str> = RetryRun::new(&spec);
    assert!(matches!(
        expect_exit(run.begin::<()>(None, at(5), &stop)),
        TaskExit::Cancelled {
            reason: CancelReason::UserRequested
        }
    ));
    assert!(matches!(
        deadline_exit::<(), &str>(Some("e")),
        TaskExit::Failed(TaskFailure::DeadlineExceeded {
            last_error: Some("e")
        })
    ));
}

#[test]
fn timed_out_attempts_are_retried_only_if_asked() {
    let spec = builder().build(at(0)).unwrap();
    let mut run: RetryRun<&str> = RetryRun::new(&spec);
    run.begin::<()>(None, at(0), &None);
    assert!(matches!(
        expect_exit(run.attempt_done::<()>(AttemptOutcome::TimedOut, &None, &spec.delays)),
        TaskExit::Failed(TaskFailure::Retry(RetryFailure::AttemptTimedOut {
            attempt: 1,
            previous_error: None,
            may_have_side_effects: true
        }))
    ));
    let spec = builder().retry_timed_out_attempts().build(at(0)).unwrap();
    let mut run: RetryRun<&str> = RetryRun::new(&spec);
    run.begin::<()>(None, at(0), &None);
    assert!(matches!(
        run.attempt_done::<()>(AttemptOutcome::TimedOut, &None, &spec.delays),
        RetryStep::Wait { .. }
    ));
}

#[test]
fn attempts_are_limited_and_classified() {
    let timeout = Some(Duration::from_secs(2));
    assert!(matches!(attempt_deadline(at(3), timeout), Ok(Some(end)) if end == at(5)));
    assert!(matches!(attempt_deadline(at(3), None), Ok(None)));
    assert!(matches!(
        attempt_deadline(at(3), Some(Duration::max())),
        Err(AttemptInterrupt::TimedOut)
    ));
    assert!(attempt_interrupt(Some(at(9)), Some(at(5)), at(4)).is_none());
    assert!(matches!(
        attempt_interrupt(Some(at(9)), Some(at(5)), at(5)),
        Some(AttemptInterrupt::TimedOut)
    ));
    assert!(matches!(
        attempt_interrupt(Some(at(5)), Some(at(5)), at(5)),
        Some(AttemptInterrupt::Deadline)
    ));
    assert!(matches!(
        attempt_panicked::<(), ()>(PanicSource::WorkFuture, "boom".to_string()),
        AttemptOutcome::Panicked { .. }
    ));
    assert!(matches!(
        attempt_joined::<u8, &str>(Ok(Ok(3))),
        AttemptOutcome::Completed(3)
    ));
    assert!(matches!(
        attempt_joined::<u8, &str>(Err(JoinFailure::Lost)),
        AttemptOutcome::ExecutorStopped
    ));
    let context = AttemptContext {
        execution_id: ExecutionId(5),
        attempt: 2,
        accepted_at: at(1),
        deadline: Some(at(10)),
    };
    assert_eq!(context.number(), 2);
    assert_eq!(context.id().number, 2);
    assert_eq!(context.elapsed(at(4)), Duration::from_secs(3));
    assert_eq!(context.remaining_budget(at(4)), Some(Duration::from_secs(6)));
}

#[test]
fn exponential_delays_grow_from_the_base_and_stop_at_the_cap() {
    let ms = Duration::from_millis;
    let backoff = Backoff::exponential(ExponentialBackoff {
        base: ms(5),
        cap: ms(40),
        multiplier_valid: true,
        longest: Some(ms(40)),
        grown: vec![Some(ms(5)), Some(ms(10)), Some(ms(80))],
    });
    let plan = DelayPlan::build(&backoff, 3, &None).unwrap();
    assert_eq!(plan.delays, vec![ms(5), ms(10), ms(40)]);
    assert!(matches!(
        DelayPlan::build(&backoff, 4, &None),
        Err(RetryBuildError::DurationOverflow)
    ));
}

#[test]
fn exponential_delays_are_counted_in_seconds() {
    let base = Duration::checked_from_nanos(10_000_000_000_000_001).unwrap();
    let plan = DelayPlan::build(&exponential(base, 1.0, base, 2), 2, &None).unwrap();
    let counted = std::time::Duration::try_from_secs_f64(
        std::time::Duration::new(10_000_000, 1).as_secs_f64(),
    )
    .unwrap();
    assert_ne!(counted.as_nanos(), 10_000_000_000_000_001);
    for delay in plan.delays {
        assert_eq!(delay.as_nanos() as u128, counted.as_nanos());
    }
}
