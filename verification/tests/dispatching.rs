use busybeaver::dispatch::{
    dispatched_terminal, received_terminal, select_pending_index, DispatchOptions, DispatchQueueConfig, DispatchQueueConfigError,
    DispatchState, DispatchSubmitError, Pending, PendingEnd, QueueOverflowPolicy,
    MAX_PENDING_CAPACITY,
};
use busybeaver::scheduler::state::Scheduler;
use busybeaver::scheduler::types::{EvictionPolicy, SubmissionFailure, TaskTerminal};
use busybeaver::time::{Duration, Instant};

fn pending(priority: u8, ticket: u64, enqueued_epoch: u64) -> Pending<()> {
    Pending {
        job: (),
        options: DispatchOptions::default().priority(priority),
        ticket,
        enqueued_epoch,
    }
}

#[test]
fn aging_eventually_beats_a_stream_of_newer_high_priority_work() {
    let config = DispatchQueueConfig::new(16, 1).unwrap();
    let mut state = DispatchState {
        pending: vec![pending(0, 1, 0)],
        active: Vec::new(),
        epoch: 0,
        next_ticket: 1,
        closed: false,
    };
    for ticket in 2..=5 {
        state.epoch += 1;
        state.next_ticket = ticket;
        state.pending.push(pending(3, ticket, state.epoch));
        let index = select_pending_index(&state, config).unwrap();
        let selected = state.pending.remove(index);
        if selected.ticket == 1 {
            assert!(ticket <= 5);
            return;
        }
    }
    panic!("aged low-priority work was starved");
}

#[test]
fn exhausted_sequence_does_not_mutate_the_queue() {
    let config = DispatchQueueConfig::new(1, 1).unwrap();
    let mut state: DispatchState<&str> = DispatchState {
        pending: Vec::new(),
        active: Vec::new(),
        epoch: 0,
        next_ticket: u64::MAX,
        closed: false,
    };
    let submission = state.submit(config, None, "job", DispatchOptions::default());
    assert!(matches!(
        submission.result,
        Err(DispatchSubmitError::SequenceExhausted("job"))
    ));
    assert_eq!(state.pending_count(), 0);
}

#[test]
fn scheduler_shutdown_closes_existing_pending_with_typed_failure() {
    let config = DispatchQueueConfig::new(2, 1).unwrap();
    let mut state: DispatchState<&str> = DispatchState::new();
    assert!(state
        .submit(config, None, "first", DispatchOptions::default())
        .result
        .is_ok());
    assert_eq!(state.pending_count(), 1);
    let mut scheduler = Scheduler::builder()
        .build(true, Instant::after_origin(Duration::zero()))
        .unwrap_or_else(|_| panic!("the default configuration is valid"));
    assert!(scheduler
        .start_shutdown(Instant::after_origin(Duration::zero()))
        .is_some());
    scheduler.mark_terminated();
    let submission = state.submit(
        config,
        scheduler.submission_failure(),
        "second",
        DispatchOptions::default(),
    );
    assert!(matches!(
        submission.result,
        Err(DispatchSubmitError::Closed("second"))
    ));
    let end = PendingEnd::SubmissionFailed {
        reason: SubmissionFailure::Closed,
    };
    assert_eq!(submission.closed, vec![("first", end)]);
    assert!(matches!(
        end.terminal::<(), ()>(),
        TaskTerminal::SubmissionFailed {
            reason: SubmissionFailure::Closed
        }
    ));
    assert!(state.closed_and_idle());
}

#[test]
fn full_queues_reject_evict_or_coalesce() {
    let config = DispatchQueueConfig::new(2, 1).unwrap();
    let submit = |policy: QueueOverflowPolicy, priority: u8| {
        let config = config.overflow(policy);
        let mut state = DispatchState::new();
        for (job, rank) in [("old", 5), ("low", 1)] {
            assert!(state
                .submit(config, None, job, DispatchOptions::default().priority(rank))
                .result
                .is_ok());
        }
        let submission = state.submit(
            config,
            None,
            "new",
            DispatchOptions::default().priority(priority),
        );
        (submission.result, submission.evicted, state.pending_count())
    };
    let (result, evicted, count) = submit(QueueOverflowPolicy::RejectNewest, 9);
    assert!(matches!(result, Err(DispatchSubmitError::Full("new"))));
    assert!(evicted.is_none());
    assert_eq!(count, 2);
    let (result, evicted, count) = submit(QueueOverflowPolicy::EvictOldest, 0);
    assert!(matches!(result, Ok(3)));
    assert!(matches!(evicted, Some(("old", EvictionPolicy::Oldest))));
    assert_eq!(count, 2);
    let (result, evicted, _) = submit(QueueOverflowPolicy::EvictLowestPriority, 2);
    assert!(result.is_ok());
    assert!(matches!(
        evicted,
        Some(("low", EvictionPolicy::LowestPriority))
    ));
    let (result, _, _) = submit(QueueOverflowPolicy::EvictLowestPriority, 1);
    assert!(matches!(result, Err(DispatchSubmitError::Full("new"))));
    let (result, _, _) = submit(QueueOverflowPolicy::EvictLowestPriority, 0);
    assert!(matches!(result, Err(DispatchSubmitError::Full("new"))));

    let config = config.overflow(QueueOverflowPolicy::CoalesceByKey);
    let mut state = DispatchState::new();
    assert!(matches!(
        state
            .submit(config, None, "bare", DispatchOptions::default())
            .result,
        Err(DispatchSubmitError::KeyRequired("bare"))
    ));
    let keyed = || DispatchOptions::default().with_key("key".to_string());
    assert!(state.submit(config, None, "one", keyed()).result.is_ok());
    let submission = state.submit(config, None, "two", keyed());
    assert!(matches!(
        submission.evicted,
        Some(("one", EvictionPolicy::Coalesced))
    ));
    assert_eq!(state.pending_count(), 1);
}

#[test]
fn a_key_runs_as_often_as_its_limit() {
    let config = DispatchQueueConfig::new(4, 4).unwrap().key_concurrency(1);
    assert_eq!(config.key_concurrency_limit(), Some(1));
    let mut state = DispatchState::new();
    for job in ["a1", "a2"] {
        let options = DispatchOptions::default().with_key("a".to_string());
        assert!(state.submit(config, None, job, options).result.is_ok());
    }
    let first = state.take_next(config).unwrap();
    assert_eq!(first.job, "a1");
    assert!(state.take_next(config).is_none());
    assert_eq!(state.active_count(), 1);
    state.complete(config, &Some("a".to_string()));
    assert_eq!(state.take_next(config).unwrap().job, "a2");
    assert!(state.close().is_empty());
    assert!(!state.closed_and_idle());
    state.complete(config, &Some("a".to_string()));
    assert!(state.closed_and_idle());
}

#[test]
fn queue_configurations_are_validated() {
    assert!(matches!(
        DispatchQueueConfig::new(0, 1),
        Err(DispatchQueueConfigError::ZeroPendingCapacity)
    ));
    assert!(matches!(
        DispatchQueueConfig::new(1, 0),
        Err(DispatchQueueConfigError::ZeroConcurrency)
    ));
    assert!(DispatchQueueConfig::new(MAX_PENDING_CAPACITY, 1).is_ok());
    let error = DispatchQueueConfig::new(MAX_PENDING_CAPACITY + 1, 1).unwrap_err();
    assert_eq!(
        error,
        DispatchQueueConfigError::PendingCapacityTooLarge {
            capacity: 1_048_577,
            maximum: 1_048_576
        }
    );
    assert_ne!(
        error.code(),
        DispatchQueueConfigError::ZeroConcurrency.code()
    );
}

#[test]
fn jobs_end_as_stopped_evicted_or_failed() {
    let config = DispatchQueueConfig::new(2, 1).unwrap();
    let mut state: DispatchState<&str> = DispatchState::new();
    let options = DispatchOptions::default().priority(3);
    assert_eq!(options.clone(), options);
    assert!(state.submit(config, None, "only", options).result.is_ok());
    assert_eq!(state.close(), vec![("only", PendingEnd::ExecutorStopped)]);
    assert!(matches!(
        PendingEnd::ExecutorStopped.terminal::<(), ()>(),
        TaskTerminal::ExecutorStopped
    ));
    let evicted = PendingEnd::Evicted {
        policy: EvictionPolicy::Oldest,
    };
    assert!(matches!(
        evicted.terminal::<(), ()>(),
        TaskTerminal::Evicted {
            policy: EvictionPolicy::Oldest
        }
    ));
    assert!(matches!(
        dispatched_terminal::<u8, ()>(Err(SubmissionFailure::Full)),
        TaskTerminal::SubmissionFailed {
            reason: SubmissionFailure::Full
        }
    ));
    assert!(matches!(
        dispatched_terminal::<u8, ()>(Ok(TaskTerminal::Completed(4))),
        TaskTerminal::Completed(4)
    ));
    assert!(matches!(
        received_terminal::<u8, ()>(None),
        TaskTerminal::ExecutorStopped
    ));
}
