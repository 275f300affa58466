use busybeaver::schedule::{
    FirstRun, MissedTickBehavior, Schedule, ScheduleError, ScheduleTime, TaskControl,
};
use busybeaver::time::{Duration, Instant};

fn now() -> Instant {
    Instant::after_origin(Duration::from_secs(1_000))
}

#[test]
fn fixed_delay_and_fixed_rate_diverge_after_slow_run() {
    let mut delay = Schedule::fixed_delay(Duration::from_secs(10), FirstRun::Immediate, now())
        .unwrap()
        .cursor();
    let mut rate = Schedule::fixed_rate(Duration::from_secs(10), FirstRun::Immediate, now())
        .unwrap()
        .cursor();

    assert_eq!(
        delay
            .next_delay(&TaskControl::<()>::Continue, Duration::from_secs(7))
            .unwrap(),
        Duration::from_secs(10)
    );
    assert_eq!(
        rate.next_delay(&TaskControl::<()>::Continue, Duration::from_secs(7))
            .unwrap(),
        Duration::from_secs(3)
    );
}

#[test]
fn missed_tick_behaviors_are_bounded() {
    let elapsed = Duration::from_secs(35);
    let mut skip = Schedule::fixed_rate(Duration::from_secs(10), FirstRun::Immediate, now())
        .unwrap()
        .missed_tick_behavior(MissedTickBehavior::Skip)
        .unwrap()
        .cursor();
    assert_eq!(
        skip.next_delay(&TaskControl::<()>::Continue, elapsed)
            .unwrap(),
        Duration::from_secs(5)
    );

    let mut delay = Schedule::fixed_rate(Duration::from_secs(10), FirstRun::Immediate, now())
        .unwrap()
        .missed_tick_behavior(MissedTickBehavior::Delay)
        .unwrap()
        .cursor();
    assert_eq!(
        delay
            .next_delay(&TaskControl::<()>::Continue, elapsed)
            .unwrap(),
        Duration::from_secs(10)
    );

    let mut burst = Schedule::fixed_rate(Duration::from_secs(10), FirstRun::Immediate, now())
        .unwrap()
        .missed_tick_behavior(MissedTickBehavior::Burst { max_catch_up: 2 })
        .unwrap()
        .cursor();
    assert_eq!(
        burst
            .next_delay(&TaskControl::<()>::Continue, elapsed)
            .unwrap(),
        Duration::zero()
    );
    assert_eq!(
        burst
            .next_delay(&TaskControl::<()>::Continue, elapsed)
            .unwrap(),
        Duration::zero()
    );
    assert_eq!(
        burst
            .next_delay(&TaskControl::<()>::Continue, elapsed)
            .unwrap(),
        Duration::from_secs(5)
    );
}

#[test]
fn invalid_schedules_are_rejected() {
    assert_eq!(
        Schedule::fixed_delay(Duration::zero(), FirstRun::Immediate, now()).unwrap_err(),
        ScheduleError::ZeroInterval
    );
    assert_eq!(
        Schedule::sequence(Vec::new(), false, FirstRun::Immediate, now()).unwrap_err(),
        ScheduleError::EmptySequence
    );
    assert_eq!(
        Schedule::sequence(vec![Duration::zero()], true, FirstRun::Immediate, now()).unwrap_err(),
        ScheduleError::UnboundedZeroSequence
    );
    assert_eq!(
        Schedule::fixed_rate(Duration::from_secs(1), FirstRun::Immediate, now())
            .unwrap()
            .missed_tick_behavior(MissedTickBehavior::Burst { max_catch_up: 0 })
            .unwrap_err(),
        ScheduleError::ZeroBurstLimit
    );
    assert_eq!(
        Schedule::dynamic(FirstRun::After(Duration::max()), now()).unwrap_err(),
        ScheduleError::DurationOverflow
    );
}

#[test]
fn sequences_end_or_repeat() {
    let delays = vec![Duration::from_secs(1), Duration::from_secs(2)];
    let mut once = Schedule::sequence(
        delays.clone(),
        false,
        FirstRun::After(Duration::from_secs(5)),
        now(),
    )
    .unwrap()
    .cursor();
    assert_eq!(once.first_delay(), Duration::from_secs(5));
    let next = TaskControl::<()>::Continue;
    let at = Duration::from_secs(5);
    assert_eq!(once.next_delay(&next, at).unwrap(), Duration::from_secs(1));
    assert_eq!(once.next_delay(&next, at).unwrap(), Duration::from_secs(2));
    assert_eq!(
        once.next_delay(&next, at).unwrap_err(),
        ScheduleError::SequenceExhausted
    );
    let mut repeated = Schedule::sequence(delays, true, FirstRun::Immediate, now())
        .unwrap()
        .cursor();
    for expected in [1, 2, 1, 2, 1] {
        assert_eq!(
            repeated.next_delay(&next, at).unwrap(),
            Duration::from_secs(expected)
        );
    }
}

#[test]
fn dynamic_schedules_need_an_answer() {
    let mut cursor = Schedule::dynamic(FirstRun::Immediate, now())
        .unwrap()
        .cursor();
    let elapsed = Duration::from_secs(3);
    assert_eq!(
        cursor
            .next_delay(&TaskControl::<()>::Continue, elapsed)
            .unwrap_err(),
        ScheduleError::DynamicControlRequired
    );
    assert_eq!(
        cursor
            .next_delay(
                &TaskControl::<()>::ContinueAfter(Duration::from_secs(4)),
                elapsed
            )
            .unwrap(),
        Duration::from_secs(4)
    );
    let at = ScheduleTime::after_start(Duration::from_secs(10));
    assert_eq!(
        cursor
            .next_delay(&TaskControl::<()>::ContinueAt(at), elapsed)
            .unwrap(),
        Duration::from_secs(7)
    );
    assert_eq!(
        cursor
            .next_delay(
                &TaskControl::<()>::ContinueAfter(Duration::max()),
                elapsed
            )
            .unwrap_err(),
        ScheduleError::DurationOverflow
    );
}

#[test]
fn skipped_ticks_stay_on_the_grid() {
    let mut cursor = Schedule::fixed_rate(Duration::from_secs(10), FirstRun::Immediate, now())
        .unwrap()
        .cursor();
    let next = TaskControl::<()>::Continue;
    assert_eq!(
        cursor.next_delay(&next, Duration::from_secs(47)).unwrap(),
        Duration::from_secs(3)
    );
    assert_eq!(
        cursor.next_delay(&next, Duration::from_secs(51)).unwrap(),
        Duration::from_secs(9)
    );
}
