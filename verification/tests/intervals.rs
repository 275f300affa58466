use busybeaver::error::{BeaverError, RuntimeError};
use busybeaver::fixed_count_task::FixedCountBuilder;
use busybeaver::listener::{listener, listener_with_error, WorkListener};
use busybeaver::periodic_task::PeriodicBuilder;
use busybeaver::range_interval_task::{
    compile_intervals, RangeIntervalBuilder, RangeIntervalRange, RangeIntervals,
};
use busybeaver::task::Task;
use busybeaver::time::Duration;
use std::sync::{Arc, Mutex};

fn dense_oracle(total: u32, ranges: &[RangeIntervalRange]) -> Vec<u64> {
    let total = total as usize;
    let mut intervals = vec![0u64; total];
    for range in ranges {
        let Some(last_index) = total.checked_sub(1) else {
            break;
        };
        let start = range.start_inclusive as usize;
        let end = (range.end_inclusive as usize).min(last_index);
        if let Some(selected) = intervals.get_mut(start..end + 1) {
            selected.fill(range.duration_millis);
        }
    }
    intervals
}

fn next_random(state: &mut u64) -> u64 {
    *state ^= *state << 13;
    *state ^= *state >> 7;
    *state ^= *state << 17;
    *state
}

#[test]
fn compiled_intervals_match_dense_later_wins_oracle() {
    let mut random = 0xC0FF_EE12_3456_7890u64;
    for total in 0..=32u32 {
        for _ in 0..64 {
            let range_count = if total == 0 {
                0
            } else {
                (next_random(&mut random) % u64::from(total + 1)) as usize
            };
            let mut ranges = Vec::with_capacity(range_count);
            for _ in 0..range_count {
                let domain = u64::from(total).saturating_add(8);
                let start = (next_random(&mut random) % domain) as u32;
                let end = (next_random(&mut random) % domain) as u32;
                let duration_millis = next_random(&mut random) % 9;
                ranges.push(RangeIntervalRange {
                    start_inclusive: start,
                    end_inclusive: end,
                    duration_millis,
                });
            }
            let expected = dense_oracle(total, &ranges);
            let actual = compile_intervals(total, &ranges);
            for (index, expected_delay) in expected.into_iter().enumerate() {
                let actual_delay = actual.delay_at(index);
                assert!(
                    actual_delay == expected_delay,
                    "range plan mismatch: total={total}, index={index}, expected={expected_delay}, actual={actual_delay}"
                );
            }
        }
    }
}

#[test]
fn huge_sparse_range_uses_compact_segments() {
    let ranges = vec![RangeIntervalRange {
        start_inclusive: 1,
        end_inclusive: 1,
        duration_millis: 5,
    }];
    let intervals = compile_intervals(u32::MAX, &ranges);
    match &intervals {
        RangeIntervals::Segments(segments) if segments.len() == 1 => {}
        RangeIntervals::Segments(segments) => {
            panic!(
                "huge sparse range compiled to {} segments instead of one",
                segments.len()
            );
        }
        RangeIntervals::Dense(_) => {
            panic!("huge sparse range unexpectedly allocated a dense table");
        }
    }
    if intervals.delay_at(0) != 0 || intervals.delay_at(1) != 5 || intervals.delay_at(2) != 0 {
        panic!("huge sparse range returned an incorrect compact lookup");
    }
}

#[test]
fn a_range_task_knows_the_delay_of_each_attempt() {
    let built = RangeIntervalBuilder::new("work", 4)
        .add_range(0, 1, Duration::from_millis(10))
        .add_range(1, 9, Duration::from_millis(20))
        .tag("range".to_string())
        .build()
        .unwrap();
    match &*built {
        Task::RangeInterval(task) => {
            assert_eq!(task.interval_millis(0), Some(10));
            assert_eq!(task.interval_millis(1), Some(20));
            assert_eq!(task.interval_millis(3), Some(20));
            assert_eq!(task.interval_millis(4), None);
            assert_eq!(task.tag.as_deref(), Some("range"));
        }
        _ => panic!("another kind of task was built"),
    }
    let refused = RangeIntervalBuilder::new("work", 1)
        .add_range(0, 0, Duration::from_millis(1))
        .add_range(0, 0, Duration::from_millis(2))
        .build();
    assert!(matches!(
        refused,
        Err(BeaverError::RangeIntervalRangesExceedTotal {
            total: 1,
            ranges_count: 2
        })
    ));
}

#[test]
fn fixed_count_and_periodic_tasks_are_built() {
    let counted = FixedCountBuilder::new("work")
        .count(3)
        .tag("three".to_string())
        .listener(listener(|| {}, || {}))
        .build()
        .unwrap();
    match &*counted {
        Task::FixedCount(task) => {
            assert_eq!(task.count, 3);
            assert!(task.listener.is_some());
            assert!(task.progress.is_none());
            assert!(!task.interrupted);
        }
        _ => panic!("another kind of task was built"),
    }
    let periodic = PeriodicBuilder::new("work")
        .interval(Duration::from_millis(250))
        .initial_delay(false)
        .listener(listener_with_error(|| {}, || {}, |_| {}))
        .build()
        .unwrap();
    match &*periodic {
        Task::Periodic(task) => {
            assert_eq!(task.interval, Duration::from_millis(250));
            assert!(!task.initial_delay);
            assert!(!task.interrupted);
        }
        _ => panic!("another kind of task was built"),
    }
}

#[test]
fn each_callback_runs_its_own_closure_once() {
    let calls = Arc::new(Mutex::new(Vec::new()));
    let note = |name: &'static str| {
        let calls = Arc::clone(&calls);
        move || calls.lock().unwrap().push(name.to_string())
    };
    let basic = listener(note("complete"), note("interrupt"));
    assert!(calls.lock().unwrap().is_empty());
    basic.on_complete();
    basic.on_interrupt();
    basic.on_error(RuntimeError::RetriesExhausted);
    assert_eq!(*calls.lock().unwrap(), vec!["complete", "interrupt"]);

    let errors = Arc::clone(&calls);
    let full = listener_with_error(note("complete"), note("interrupt"), move |error| {
        errors.lock().unwrap().push(error.message());
    });
    assert_eq!(calls.lock().unwrap().len(), 2);
    let message = RuntimeError::RetriesExhausted.message();
    full.on_error(RuntimeError::RetriesExhausted);
    full.on_complete();
    assert_eq!(
        calls.lock().unwrap()[2..],
        [message, "complete".to_string()]
    );
}
