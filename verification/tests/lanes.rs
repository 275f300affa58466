use busybeaver::error::BeaverError;
use busybeaver::ids::ExecutionId;
use busybeaver::lane::{
    InvalidOrderingKey, InvalidPriority, LaneConfig, LaneLifetime, OrderingKey, Priority,
    SpawnError, SpawnOptions,
};
use busybeaver::lane_machine::{
    admission_deadline, admission_step, check_admission_deadline, select_ready_candidate,
    AdmissionStep, LaneMachine, ReadyCandidate,
};
use busybeaver::time::{Duration, Instant};
use std::collections::{HashMap, HashSet};

fn reference_selection(
    dispatch_count: u64,
    candidates: &[ReadyCandidate],
) -> Option<ReadyCandidate> {
    if dispatch_count % 8 == 7 {
        candidates
            .iter()
            .copied()
            .min_by_key(|candidate| candidate.sequence)
    } else {
        candidates
            .iter()
            .copied()
            .max_by_key(|candidate| (candidate.priority.value(), std::cmp::Reverse(candidate.sequence)))
    }
}

#[derive(Clone, Copy)]
struct SchedulerModelEntry {
    execution_id: ExecutionId,
    priority: Priority,
    sequence: u64,
    ordering_key: Option<u8>,
}

fn next_random(state: &mut u64) -> u64 {
    *state ^= *state << 13;
    *state ^= *state >> 7;
    *state ^= *state << 17;
    *state
}

fn decrement_model_key(refcounts: &mut HashMap<u8, usize>, key: u8) {
    let count = refcounts
        .get_mut(&key)
        .expect("scheduler model key refcount was missing");
    let next = count
        .checked_sub(1)
        .expect("scheduler model key refcount underflowed");
    if next == 0 {
        refcounts.remove(&key);
    } else {
        *count = next;
    }
}

fn validate_scheduler_model(
    seed: u64,
    step: usize,
    queued: &[SchedulerModelEntry],
    running: &[SchedulerModelEntry],
    active_keys: &HashSet<u8>,
    refcounts: &HashMap<u8, usize>,
) {
    let scanned_active = running
        .iter()
        .filter_map(|entry| entry.ordering_key)
        .collect::<HashSet<_>>();
    assert!(
        &scanned_active == active_keys,
        "active ordering keys diverged at seed {seed:#x}, step {step}"
    );

    let mut scanned_refcounts = HashMap::new();
    for key in queued
        .iter()
        .chain(running.iter())
        .filter_map(|entry| entry.ordering_key)
    {
        let count = scanned_refcounts.entry(key).or_insert(0usize);
        *count = count
            .checked_add(1)
            .expect("scanned scheduler key refcount overflowed");
    }
    assert!(
        &scanned_refcounts == refcounts,
        "ordering-key refcounts diverged at seed {seed:#x}, step {step}"
    );

    let mut ready_by_priority = [0usize; 8];
    let mut blocked = 0usize;
    for entry in queued {
        if entry
            .ordering_key
            .is_some_and(|key| active_keys.contains(&key))
        {
            blocked = blocked.saturating_add(1);
        } else if let Some(count) = ready_by_priority.get_mut(usize::from(entry.priority.value())) {
            *count = count.saturating_add(1);
        }
    }
    let classified = ready_by_priority
        .into_iter()
        .fold(blocked, usize::saturating_add);
    assert!(
        classified == queued.len(),
        "scheduler stats did not classify every queued entry at seed {seed:#x}, step {step}"
    );
}

#[test]
fn selector_matches_reference_model_for_priority_aging_and_blocked_keys() {
    let mut seed = 0x78b9_214d_2c31_4a05_u64;
    for case in 0..64_u64 {
        let mut candidates = Vec::new();
        for queue_index in 0..128_usize {
            seed = seed
                .wrapping_mul(6_364_136_223_846_793_005)
                .wrapping_add(1_442_695_040_888_963_407);
            let priority = Priority::new(((seed >> 32) & 7) as u8).unwrap();
            let blocked = seed & 3 == 0;
            if !blocked {
                candidates.push(ReadyCandidate {
                    queue_index,
                    execution_id: ExecutionId::new(),
                    priority,
                    sequence: queue_index as u64,
                });
            }
        }

        for dispatch_offset in 0..16_u64 {
            let dispatch_count = case.wrapping_add(dispatch_offset);
            let expected = reference_selection(dispatch_count, &candidates);
            let actual = select_ready_candidate(dispatch_count, &candidates);
            assert!(
                actual.map(|candidate| candidate.execution_id)
                    == expected.map(|candidate| candidate.execution_id),
                "lane selector diverged from reference model in case {case} at dispatch {dispatch_count}"
            );
            assert!(
                actual.map(|candidate| candidate.queue_index)
                    == expected.map(|candidate| candidate.queue_index),
                "lane selector chose a different queue index in case {case} at dispatch {dispatch_count}"
            );
        }
    }

    assert!(
        select_ready_candidate(7, &Vec::new()).is_none(),
        "an empty ready set selected an execution"
    );
}

#[test]
fn scheduler_matches_reference_through_random_lifecycle_operations() {
    for seed_index in 0..100_u64 {
        let seed = 0xD1B5_4A32_D192_ED03_u64 ^ seed_index.wrapping_mul(0x9E37_79B9);
        let mut random = seed;
        let mut queued = Vec::<SchedulerModelEntry>::new();
        let mut running = Vec::<SchedulerModelEntry>::new();
        let mut active_keys = HashSet::<u8>::new();
        let mut refcounts = HashMap::<u8, usize>::new();
        let mut sequence = 0_u64;
        let mut dispatch_count = 0_u64;

        for step in 0..10_000_usize {
            let operation = next_random(&mut random) % 4;
            match operation {
                0 if queued.len() < 64 => {
                    let priority = Priority::new((next_random(&mut random) & 7) as u8).unwrap();
                    let ordering_key = match next_random(&mut random) % 3 {
                        0 => None,
                        _ => Some((next_random(&mut random) & 7) as u8),
                    };
                    if let Some(key) = ordering_key {
                        let count = refcounts.entry(key).or_insert(0);
                        *count = count
                            .checked_add(1)
                            .expect("scheduler model refcount overflowed");
                    }
                    queued.push(SchedulerModelEntry {
                        execution_id: ExecutionId(u128::from(sequence)),
                        priority,
                        sequence,
                        ordering_key,
                    });
                    sequence = sequence.saturating_add(1);
                }
                1 if !queued.is_empty() => {
                    let index = (next_random(&mut random) % queued.len() as u64) as usize;
                    let removed = queued.remove(index);
                    if let Some(key) = removed.ordering_key {
                        decrement_model_key(&mut refcounts, key);
                    }
                }
                2 if running.len() < 8 => {
                    let candidates = queued
                        .iter()
                        .copied()
                        .enumerate()
                        .filter_map(|(queue_index, entry)| {
                            let blocked = entry
                                .ordering_key
                                .is_some_and(|key| active_keys.contains(&key));
                            (!blocked).then_some(ReadyCandidate {
                                queue_index,
                                execution_id: entry.execution_id,
                                priority: entry.priority,
                                sequence: entry.sequence,
                            })
                        })
                        .collect::<Vec<_>>();
                    let expected = reference_selection(dispatch_count, &candidates);
                    let actual = select_ready_candidate(dispatch_count, &candidates);
                    assert!(
                        actual.map(|candidate| candidate.execution_id)
                            == expected.map(|candidate| candidate.execution_id)
                            && actual.map(|candidate| candidate.queue_index)
                                == expected.map(|candidate| candidate.queue_index),
                        "scheduler lifecycle selection diverged at seed {seed:#x}, step {step}"
                    );
                    if let Some(selected) = actual {
                        let entry = queued.remove(selected.queue_index);
                        if let Some(key) = entry.ordering_key {
                            active_keys.insert(key);
                        }
                        running.push(entry);
                        dispatch_count = dispatch_count.saturating_add(1);
                    }
                }
                3 if !running.is_empty() => {
                    let index = (next_random(&mut random) % running.len() as u64) as usize;
                    let finished = running.remove(index);
                    if let Some(key) = finished.ordering_key {
                        active_keys.remove(&key);
                        decrement_model_key(&mut refcounts, key);
                    }
                }
                _ => {}
            }
            validate_scheduler_model(seed, step, &queued, &running, &active_keys, &refcounts);
        }
    }
}

fn serial_lane() -> LaneMachine {
    LaneMachine::new(
        &LaneConfig::new("serial".to_string()).capacity(1).concurrency(1),
        64,
        64,
    )
}

/// A lane with one running and one queued execution, and the given number of waiters.
fn full_lane(waiters: u64) -> (LaneMachine, Vec<u64>) {
    let mut lane = serial_lane();
    lane.insert_prepared(ExecutionId(1), &SpawnOptions::new(), None)
        .unwrap();
    assert_eq!(lane.take_startable().starts, vec![ExecutionId(1)]);
    lane.insert_prepared(ExecutionId(2), &SpawnOptions::new(), None)
        .unwrap();
    assert!(lane.take_startable().starts.is_empty());
    let mut tickets = Vec::new();
    for _ in 0..waiters {
        assert!(matches!(
            lane.check_try_admission_for(true, None),
            Err(SpawnError::QueueFull)
        ));
        tickets.push(lane.add_waiter().unwrap());
    }
    assert_eq!(lane.stats().waiting_producers as u64, waiters);
    (lane, tickets)
}

#[test]
fn targeted_waiters_preserve_fifo_when_a_middle_waiter_is_dropped() {
    let (mut lane, tickets) = full_lane(8);

    let dropped = lane.finish_waiter(tickets[3]);
    assert!(dropped.removed);
    assert_eq!(
        dropped.wake, None,
        "dropping a middle waiter incorrectly woke another producer"
    );
    assert_eq!(lane.stats().waiting_producers, 7);

    let mut wake = lane
        .remove_queued(ExecutionId(2))
        .expect("queued capacity holder was not cancelled");
    for (index, expected) in [0_usize, 1, 2, 4, 5, 6, 7].into_iter().enumerate() {
        assert_eq!(
            wake,
            Some(tickets[expected]),
            "targeted waiter order changed at position {index}"
        );
        let id = ExecutionId(100 + expected as u128);
        assert!(matches!(
            lane.check_try_admission_for(true, None),
            Err(SpawnError::QueueFull)
        ));
        lane.check_try_admission_for(true, Some(tickets[expected]))
            .unwrap();
        lane.insert_prepared(id, &SpawnOptions::new(), Some(tickets[expected]))
            .unwrap();
        lane.finish_waiter(tickets[expected]);
        wake = lane.remove_queued(id).expect("admitted waiter is queued");
    }
    assert_eq!(wake, None);
    assert_eq!(lane.stats().waiting_producers, 0);
    assert!(lane.execution_finished(ExecutionId(1)));
}

#[test]
fn closing_lane_wakes_every_targeted_waiter() {
    let (mut lane, tickets) = full_lane(4);
    let (held, woken) = lane.request_close();
    assert_eq!(held, vec![ExecutionId(2), ExecutionId(1)]);
    assert_eq!(woken, tickets);
    for ticket in tickets {
        assert!(matches!(
            lane.check_try_admission_for(true, Some(ticket)),
            Err(SpawnError::LaneClosing)
        ));
        lane.finish_waiter(ticket);
    }
    assert_eq!(lane.stats().waiting_producers, 0);
    assert!(lane.remove_queued(ExecutionId(2)).is_some());
    assert!(lane.execution_finished(ExecutionId(1)));
    assert!(lane.take_startable().should_exit);
}

#[test]
fn ordering_keys_run_one_at_a_time_and_are_limited() {
    let config = LaneConfig::new("keys".to_string()).capacity(4).concurrency(4);
    let mut lane = LaneMachine::new(&config, 4, 1);
    let key = OrderingKey::new(vec![1, 2, 3]).unwrap();
    let keyed = SpawnOptions::new().ordering_key(key.clone());
    lane.insert_prepared(ExecutionId(1), &keyed, None).unwrap();
    lane.insert_prepared(ExecutionId(2), &keyed, None).unwrap();
    let other = SpawnOptions::new().ordering_key(OrderingKey::new(vec![9]).unwrap());
    assert!(matches!(
        lane.insert_prepared(ExecutionId(3), &other, None),
        Err(SpawnError::OrderingKeyLimitReached)
    ));
    assert_eq!(lane.take_startable().starts, vec![ExecutionId(1)]);
    let stats = lane.stats();
    assert_eq!(stats.blocked_by_ordering_key, 1);
    assert_eq!(stats.queued_live, 1);
    assert_eq!(stats.running, 1);
    assert_eq!(stats.available_queue_capacity, 3);
    assert!(lane.contains(ExecutionId(2)));
    assert!(!lane.contains(ExecutionId(3)));
    assert!(lane.execution_finished(ExecutionId(1)));
    assert_eq!(lane.take_startable().starts, vec![ExecutionId(2)]);
    assert!(!lane.execution_finished(ExecutionId(1)));
}

#[test]
fn urgent_work_starts_first_and_old_work_every_eighth_time() {
    let config = LaneConfig::new("aging".to_string()).capacity(32).concurrency(1);
    let mut lane = LaneMachine::new(&config, 1, 1);
    let low = SpawnOptions::new().priority(Priority::lowest());
    let high = SpawnOptions::new().priority(Priority::highest());
    lane.insert_prepared(ExecutionId(1), &low, None).unwrap();
    for id in 2..=9_u128 {
        lane.insert_prepared(ExecutionId(id), &high, None).unwrap();
    }
    let mut order = Vec::new();
    for _ in 0..8 {
        let started = lane.take_startable().starts;
        assert_eq!(started.len(), 1);
        order.push(started[0].0);
        lane.execution_finished(started[0]);
    }
    assert_eq!(order, vec![2, 3, 4, 5, 6, 7, 8, 1]);
}

#[test]
fn a_stopped_dispatcher_gives_everything_back() {
    let (mut lane, tickets) = full_lane(1);
    let (queued, running, woken) = lane.dispatcher_stopped();
    assert_eq!(queued, vec![ExecutionId(2)]);
    assert_eq!(running, vec![ExecutionId(1)]);
    assert_eq!(woken, tickets);
    assert!(matches!(
        lane.check_try_admission_for(true, None),
        Err(SpawnError::ExecutorUnavailable)
    ));
}

#[test]
fn admission_refusals_have_an_order() {
    let (mut lane, _) = full_lane(0);
    assert!(matches!(
        lane.check_try_admission_for(false, None),
        Err(SpawnError::ExecutorShuttingDown)
    ));
    let mut crowded = LaneMachine::new(
        &LaneConfig::new("crowded".to_string()).capacity(1).concurrency(1),
        1,
        1,
    );
    assert!(crowded.add_waiter().is_ok());
    assert!(matches!(
        crowded.add_waiter(),
        Err(SpawnError::WaitingProducerLimitReached)
    ));
    lane.request_close();
    assert!(matches!(
        lane.check_try_admission_for(true, None),
        Err(SpawnError::LaneClosing)
    ));

    assert!(matches!(admission_step(false, Ok(())), AdmissionStep::Admitted));
    assert!(matches!(
        admission_step(false, Err(SpawnError::QueueFull)),
        AdmissionStep::JoinLine
    ));
    assert!(matches!(
        admission_step(true, Err(SpawnError::QueueFull)),
        AdmissionStep::Wait
    ));
    assert!(matches!(
        admission_step(true, Err(SpawnError::LaneClosing)),
        AdmissionStep::Fail(SpawnError::LaneClosing)
    ));
}

#[test]
fn admission_deadlines_are_checked() {
    let now = Instant::after_origin(Duration::from_secs(10));
    assert!(check_admission_deadline(None, now).is_ok());
    let later = Instant::after_origin(Duration::from_secs(11));
    assert!(check_admission_deadline(Some(later), now).is_ok());
    assert!(matches!(
        check_admission_deadline(Some(now), later),
        Err(SpawnError::AdmissionDeadlineExceeded)
    ));
    assert_eq!(
        admission_deadline(now, Duration::from_secs(1)).unwrap(),
        later
    );
    assert!(matches!(
        admission_deadline(now, Duration::max()),
        Err(SpawnError::AdmissionTimedOut)
    ));
}

#[test]
fn lane_values_are_validated() {
    assert_eq!(Priority::new(7).unwrap().value(), 7);
    assert_eq!(Priority::new(7).unwrap(), Priority::highest());
    assert_eq!(Priority::default(), Priority::lowest());
    assert_eq!(Priority::normal().value(), 3);
    assert!(matches!(
        Priority::new(8),
        Err(InvalidPriority { value: 8 })
    ));
    assert!(OrderingKey::new(vec![0; 256]).is_ok());
    let key = OrderingKey::new(vec![4, 5]).unwrap();
    assert_eq!(key.as_bytes(), &[4, 5][..]);
    assert!(key.same(&key.clone()));
    assert!(matches!(
        OrderingKey::new(vec![0; 257]),
        Err(InvalidOrderingKey {
            length: 257,
            maximum: 256
        })
    ));
    let config = LaneConfig::new("lane".to_string());
    assert_eq!(config.name(), "lane");
    assert!(config.validate().is_ok());
    assert_eq!(config.lane_lifetime(), LaneLifetime::Executor);
    let explicit = config.clone().lifetime(LaneLifetime::Explicit);
    assert!(!config.same(&explicit));
    assert!(matches!(
        config.clone().capacity(0).concurrency(0).validate(),
        Err(BeaverError::InvalidLaneCapacity)
    ));
    assert!(matches!(
        config.concurrency(0).validate(),
        Err(BeaverError::InvalidLaneConcurrency)
    ));
    assert!(matches!(
        SpawnError::from(BeaverError::LockPoisoned),
        SpawnError::Internal(BeaverError::LockPoisoned)
    ));
}
