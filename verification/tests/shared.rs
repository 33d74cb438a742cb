use beekeeper::bee::{ApplyError, Attempt, Context, Queen, Worker};
use beekeeper::hive::shared::send_or_store;
use beekeeper::hive::{
    Builder, Config, CounterError, Hive, NextTaskError, Outcome, Shared, Task, RECV_TIMEOUT,
};
use std::collections::HashMap;
use std::sync::mpsc::channel;

const MILLISECOND: u64 = 1_000_000;

/// A processor that halves even numbers, fails for good on 13, and fails on every other
/// odd number in a way that may pass.
struct Halver;

impl Worker for Halver {
    type Input = u32;
    type Output = u32;
    type Error = String;

    fn apply(&mut self, input: u32, ctx: &Context) -> Result<u32, ApplyError<u32, String>> {
        if input % 2 == 0 {
            Ok(input / 2)
        } else if input == 13 {
            Err(ApplyError::Fatal { error: "unlucky".to_string() })
        } else {
            Err(ApplyError::Retryable { input, error: format!("odd at attempt {}", ctx.attempt()) })
        }
    }
}

struct HalverQueen;

impl Queen for HalverQueen {
    type Kind = Halver;

    fn create(&mut self) -> Halver {
        Halver
    }
}

type TestShared = Shared<Halver, HalverQueen>;

fn assert_sync<T: Sync>() {}

fn assert_send<T: Send>() {}

fn new_shared() -> TestShared {
    Shared::new(Config::empty(), HalverQueen)
}

fn submit(shared: &mut TestShared, input: u32) -> usize {
    let task = shared.prepare_task(input, None);
    let index = task.index();
    shared.push_task(task);
    index
}

/// Runs the task that is due at `now`, as a worker thread does, and says whether there was
/// one.
fn work_once(shared: &mut TestShared, worker: &mut Halver, now: u64) -> bool {
    match shared.next_task(now) {
        Ok(Some(Task { input, ctx, outcome_tx })) => {
            let attempt = Attempt::from_result(worker.apply(input, &ctx));
            shared.handle_attempt(ctx, outcome_tx, attempt, now);
            true
        }
        _ => false,
    }
}

#[test]
fn test_sync_shared() {
    assert_sync::<TestShared>();
}

#[test]
fn test_send_shared() {
    assert_send::<TestShared>();
}

#[test]
fn test_new_shared_is_empty() {
    let shared = new_shared();
    assert_eq!(shared.num_tasks(), (0, 0));
    assert_eq!(shared.num_referrers(), 1);
    assert!(!shared.is_poisoned());
    assert!(!shared.is_suspended());
    assert!(!shared.has_work());
    assert!(shared.wait_on_done());
    assert!(shared.no_work_notify_all());
    assert!(shared.outcomes().is_empty());
    let thread = shared.thread_builder();
    assert_eq!(thread.name, None);
    assert_eq!(thread.stack_size, None);
    assert_eq!(RECV_TIMEOUT, 1_000_000_000);
}

#[test]
fn test_prepare_task_numbers_in_order() {
    let mut shared = new_shared();
    let first = shared.prepare_task(10, None);
    let second = shared.prepare_task(20, None);
    assert_eq!(first.index(), 0);
    assert_eq!(second.index(), 1);
    assert_eq!(first.ctx, Context { index: 0, attempt: 0 });
    assert_eq!(second.input, 20);
    assert!(second.outcome_tx.is_none());
    assert_eq!(shared.num_tasks(), (2, 0));
    // a prepared task is counted, and is in no queue
    assert!(matches!(shared.next_task(0), Ok(None)));
    assert!(shared.has_work());
}

#[test]
fn test_prepare_batch() {
    let mut shared = new_shared();
    submit(&mut shared, 1);
    let (tx, _rx) = channel();
    let tasks = shared.prepare_batch(2, vec![10, 20, 30, 40], Some(tx));
    assert_eq!(tasks.len(), 4);
    for (i, task) in tasks.iter().enumerate() {
        assert_eq!(task.index(), i + 1);
        assert_eq!(task.ctx.attempt(), 0);
        assert_eq!(task.input, 10 * (i as u32 + 1));
        assert!(task.outcome_tx.is_some());
    }
    assert_eq!(shared.num_tasks(), (5, 0));
    assert_eq!(submit(&mut shared, 2), 5);
    let exact = shared.prepare_batch(3, vec![7, 8, 9], None);
    assert_eq!(exact.iter().map(Task::index).collect::<Vec<_>>(), vec![6, 7, 8]);
    assert!(exact.iter().all(|task| task.outcome_tx.is_none()));
    let none = shared.prepare_batch(0, vec![], None);
    assert!(none.is_empty());
    assert_eq!(shared.num_tasks(), (9, 0));
    assert_eq!(submit(&mut shared, 3), 9);
}

#[test]
fn test_next_task_is_first_in_first_out() {
    let mut shared = new_shared();
    for input in [4, 6, 8] {
        submit(&mut shared, input);
    }
    let first = shared.next_task(0).unwrap().unwrap();
    assert_eq!((first.index(), first.input), (0, 4));
    assert_eq!(shared.num_tasks(), (2, 1));
    let second = shared.next_task(0).unwrap().unwrap();
    assert_eq!((second.index(), second.input), (1, 6));
    assert_eq!(shared.num_tasks(), (1, 2));
    assert!(!shared.finish_task(false));
    assert!(!shared.finish_task(false));
    assert_eq!(shared.num_tasks(), (1, 0));
    let third = shared.next_task(0).unwrap().unwrap();
    assert_eq!(third.index(), 2);
    assert!(matches!(shared.next_task(0), Ok(None)));
    assert!(shared.finish_task(false));
    assert_eq!(shared.num_tasks(), (0, 0));
}

#[test]
fn test_next_task_disconnected() {
    let mut shared = new_shared();
    submit(&mut shared, 2);
    assert_eq!(shared.referrer_is_dropping(), 1);
    assert_eq!(shared.num_referrers(), 0);
    // what is queued is still handed out
    assert!(matches!(shared.next_task(0), Ok(Some(_))));
    assert!(matches!(shared.next_task(0), Err(NextTaskError::Disconnected)));
    assert_eq!(shared.referrer_is_cloning(), 0);
    assert!(matches!(shared.next_task(0), Ok(None)));
}

#[test]
fn test_next_task_poisoned() {
    let mut shared = new_shared();
    submit(&mut shared, 2);
    submit(&mut shared, 4);
    assert!(matches!(shared.next_task(0), Ok(Some(_))));
    shared.poison();
    assert!(shared.is_poisoned());
    assert!(matches!(shared.next_task(0), Err(NextTaskError::Poisoned)));
    assert!(!shared.has_work());
    assert!(shared.wait_on_done());
    // the task that waited was never run; the counts are as they were
    assert_eq!(shared.outcomes().len(), 1);
    assert!(matches!(
        shared.outcomes().get(&1),
        Some(Outcome::Unprocessed { index: 1, input: 4 })
    ));
    assert_eq!(shared.num_tasks(), (1, 1));
    // the task that is being run comes to its end
    assert!(shared.handle_attempt(Context::new(0), None, Attempt::Done { value: 1 }, 0));
    assert!(matches!(
        shared.outcomes().get(&0),
        Some(Outcome::Success { index: 0, value: 1 })
    ));
    // what is submitted to a poisoned hive is never run
    submit(&mut shared, 6);
    assert!(matches!(shared.next_task(0), Err(NextTaskError::Poisoned)));
    shared.drain_tasks_into_unprocessed();
    assert!(matches!(
        shared.outcomes().get(&2),
        Some(Outcome::Unprocessed { index: 2, input: 6 })
    ));
    assert!(!shared.has_work());
}

#[test]
fn test_next_task_invalid_counter() {
    let mut shared = new_shared();
    // a task that was queued without being counted
    shared.push_task(Task::new(2, Context::new(0), None));
    assert!(matches!(
        shared.next_task(0),
        Err(NextTaskError::InvalidCounter(CounterError::LeftUnderflow))
    ));
    assert!(!shared.is_poisoned());
    assert_eq!(shared.num_tasks(), (0, 0));
    assert!(matches!(shared.next_task(0), Ok(None)));
}

#[test]
fn test_next_task_error_messages() {
    assert_eq!(NextTaskError::Disconnected.message(), "Task receiver disconnected");
    assert_eq!(NextTaskError::Poisoned.message(), "The hive has been poisoned");
    assert_eq!(
        NextTaskError::InvalidCounter(CounterError::RightOverflow).message(),
        "Task counter has invalid state"
    );
}

#[test]
fn test_suspend_blocks_progress() {
    let mut shared = new_shared();
    let mut worker = shared.create_worker();
    for input in 0..100 {
        submit(&mut shared, 2 * input);
    }
    assert!(work_once(&mut shared, &mut worker, 0));
    let active = shared.next_task(0).unwrap().unwrap();
    assert!(shared.set_suspended(true));
    assert!(!shared.set_suspended(true));
    assert!(shared.is_suspended());
    // nothing is handed out while the hive is suspended
    for now in 0..500 {
        assert!(matches!(shared.next_task(now * MILLISECOND), Ok(None)));
    }
    let (queued, running) = shared.num_tasks();
    assert_eq!((queued, running), (98, 1));
    assert!(queued + running > 0);
    assert_eq!(shared.outcomes().len(), 1);
    // the task that is being run is run to its end, and then the hive counts as done
    assert!(shared.has_work());
    assert!(!shared.wait_on_done());
    assert!(shared.handle_attempt(active.ctx, None, Attempt::Done { value: 1 }, 0));
    assert!(!shared.has_work());
    assert_eq!(shared.num_tasks(), (98, 0));
    // after that all tasks complete
    assert!(shared.set_suspended(false));
    assert!(!shared.set_suspended(false));
    assert!(shared.has_work());
    while work_once(&mut shared, &mut worker, 0) {}
    assert_eq!(shared.num_tasks(), (0, 0));
    assert_eq!(shared.outcomes().len(), 100);
    assert!(shared.outcomes().values().all(|outcome| outcome.is_success()));
    assert!(shared.wait_on_done());
}

#[test]
fn test_retry_exhausts() {
    let mut hive: Hive<Halver, HalverQueen> = Builder::new()
        .num_threads(1)
        .max_retries(2)
        .retry_factor(MILLISECOND)
        .build(HalverQueen);
    let mut worker = hive.shared.create_worker();
    let index = hive.apply_store(7);
    let shared = &mut hive.shared;
    // the first run fails at time 0: the task waits for 1 ms
    assert!(work_once(shared, &mut worker, 0));
    assert_eq!(shared.num_tasks(), (1, 0));
    assert!(shared.has_work());
    assert!(shared.outcomes().is_empty());
    assert!(!work_once(shared, &mut worker, MILLISECOND - 1));
    // the second run fails at 1 ms: the task waits for 2 ms more
    assert!(work_once(shared, &mut worker, MILLISECOND));
    assert!(shared.outcomes().is_empty());
    assert!(!work_once(shared, &mut worker, 3 * MILLISECOND - 1));
    assert_eq!(shared.num_tasks(), (1, 0));
    // the third run fails at 3 ms: no retry is left
    assert!(work_once(shared, &mut worker, 3 * MILLISECOND));
    assert_eq!(shared.num_tasks(), (0, 0));
    assert!(!shared.has_work());
    match shared.outcomes().get(&index) {
        Some(Outcome::MaxRetriesAttempted { index: 0, input: 7, last_error }) => {
            assert_eq!(last_error, "odd at attempt 2")
        }
        _ => panic!("the task did not end in MaxRetriesAttempted"),
    }
}

#[test]
fn test_retry_may_succeed() {
    let mut hive: Hive<Halver, HalverQueen> =
        Builder::new().num_threads(1).max_retries(3).build(HalverQueen);
    let shared = &mut hive.shared;
    let task = shared.prepare_task(7, None);
    shared.push_task(task);
    let mut failures = 0;
    // the task fails three times and is queued again each time, without delay
    for attempt in 0..3 {
        let task = shared.next_task(0).unwrap().unwrap();
        assert_eq!(task.ctx, Context { index: 0, attempt });
        assert!(shared.can_retry(&task.ctx));
        let run = Attempt::Retryable { input: task.input, error: "again".to_string() };
        assert!(!shared.handle_attempt(task.ctx, None, run, 0));
        failures += 1;
    }
    assert_eq!(failures, 3);
    // its fourth run returns a value
    let task = shared.next_task(0).unwrap().unwrap();
    assert_eq!(task.ctx.attempt(), 3);
    assert!(!shared.can_retry(&task.ctx));
    assert!(shared.handle_attempt(task.ctx, None, Attempt::Done { value: 70 }, 0));
    assert!(matches!(
        shared.outcomes().get(&0),
        Some(Outcome::Success { index: 0, value: 70 })
    ));
}

#[test]
fn test_no_retries_without_a_limit() {
    let mut shared = new_shared();
    let mut worker = shared.create_worker();
    submit(&mut shared, 7);
    submit(&mut shared, 13);
    assert!(!shared.can_retry(&Context::new(0)));
    assert!(work_once(&mut shared, &mut worker, 0));
    assert!(work_once(&mut shared, &mut worker, 0));
    assert!(matches!(
        shared.outcomes().get(&0),
        Some(Outcome::MaxRetriesAttempted { index: 0, input: 7, last_error }) if last_error == "odd at attempt 0"
    ));
    assert!(matches!(
        shared.outcomes().get(&1),
        Some(Outcome::Failure { index: 1, error }) if error == "unlucky"
    ));
}

#[test]
fn test_queue_retry_comes_before_fresh_tasks_when_due() {
    let mut hive: Hive<Halver, HalverQueen> = Builder::new()
        .max_retries(5)
        .retry_factor(10)
        .build(HalverQueen);
    let shared = &mut hive.shared;
    submit(shared, 2);
    shared.queue_retry(9, Context { index: 40, attempt: 0 }, None, 100);
    shared.queue_retry(11, Context { index: 41, attempt: 2 }, None, 50);
    shared.queue_retry(15, Context { index: 42, attempt: 1 }, None, 50);
    assert_eq!(shared.num_tasks(), (4, 0));
    // nothing is due at 60: the fresh task is taken
    let task = shared.next_task(60).unwrap().unwrap();
    assert_eq!(task.index(), 0);
    assert!(matches!(shared.next_task(60), Ok(None)));
    // 50 + 10 * 2 = 70, 50 + 10 * 4 = 90, 100 + 10 * 1 = 110
    let task = shared.next_task(70).unwrap().unwrap();
    assert_eq!(task.ctx, Context { index: 42, attempt: 2 });
    assert_eq!(task.input, 15);
    assert!(matches!(shared.next_task(89), Ok(None)));
    submit(shared, 4);
    let task = shared.next_task(200).unwrap().unwrap();
    assert_eq!(task.ctx, Context { index: 41, attempt: 3 });
    let task = shared.next_task(200).unwrap().unwrap();
    assert_eq!(task.ctx, Context { index: 40, attempt: 1 });
    let task = shared.next_task(200).unwrap().unwrap();
    assert_eq!(task.index(), 1);
    assert_eq!(shared.num_tasks(), (0, 5));
}

#[test]
fn test_send_or_store_outcome() {
    let mut shared = new_shared();
    // without a sender the outcome is kept
    shared.send_or_store_outcome(Outcome::Success { index: 3, value: 1 }, None);
    assert_eq!(shared.outcomes().len(), 1);
    // with a sender it is sent, and not kept
    let (tx, rx) = channel();
    shared.send_or_store_outcome(Outcome::Success { index: 4, value: 2 }, Some(tx.clone()));
    assert_eq!(shared.outcomes().len(), 1);
    assert!(matches!(rx.try_recv(), Ok(Outcome::Success { index: 4, value: 2 })));
    assert!(rx.try_recv().is_err());
    // when nobody receives it is kept
    drop(rx);
    shared.send_or_store_outcome(Outcome::Failure { index: 5, error: "e".to_string() }, Some(tx));
    assert_eq!(shared.outcomes().len(), 2);
    assert!(matches!(
        shared.outcomes().get(&5),
        Some(Outcome::Failure { index: 5, error }) if error == "e"
    ));
    // an outcome takes the place of an earlier one of the same task
    shared.add_outcome(Outcome::Panic { index: 5, payload: "p".to_string() });
    assert_eq!(shared.outcomes().len(), 2);
    assert!(shared.outcomes().get(&5).unwrap().is_panic());
    shared.store_unsent(None);
    shared.store_unsent(Some(Outcome::Success { index: 6, value: 0 }));
    assert_eq!(shared.outcomes().len(), 3);
}

#[test]
fn test_send_or_store_as_unprocessed() {
    let mut shared = new_shared();
    let (tx, rx) = channel();
    let (gone_tx, gone_rx) = channel();
    drop(gone_rx);
    let tasks = vec![
        Task::new(1, Context::new(5), None),
        Task::new(2, Context::new(3), Some(tx)),
        Task::new(3, Context::new(9), Some(gone_tx)),
    ];
    let indices = shared.send_or_store_as_unprocessed(tasks);
    assert_eq!(indices, vec![5, 3, 9]);
    assert_eq!(shared.outcomes().len(), 2);
    assert!(matches!(
        shared.outcomes().get(&5),
        Some(Outcome::Unprocessed { index: 5, input: 1 })
    ));
    assert!(matches!(
        shared.outcomes().get(&9),
        Some(Outcome::Unprocessed { index: 9, input: 3 })
    ));
    assert!(matches!(rx.try_recv(), Ok(Outcome::Unprocessed { index: 3, input: 2 })));
    assert_eq!(shared.num_tasks(), (0, 0));
}

#[test]
fn test_send_or_store() {
    let mut outcomes: HashMap<usize, Outcome<Halver>> = HashMap::new();
    let (tx, rx) = channel();
    send_or_store(
        vec![Task::new(1, Context::new(0), Some(tx)), Task::new(2, Context::new(1), None)],
        &mut outcomes,
    );
    assert_eq!(outcomes.len(), 1);
    assert!(matches!(outcomes.get(&1), Some(Outcome::Unprocessed { index: 1, input: 2 })));
    assert!(matches!(rx.try_recv(), Ok(Outcome::Unprocessed { index: 0, input: 1 })));
    assert!(matches!(
        Task::<Halver>::new(5, Context::new(8), None).into_unprocessed_try_send(),
        Some(Outcome::Unprocessed { index: 8, input: 5 })
    ));
}

#[test]
fn test_drain_tasks_into_unprocessed() {
    let mut hive: Hive<Halver, HalverQueen> =
        Builder::new().max_retries(1).retry_factor(1000).build(HalverQueen);
    let (tx, rx) = channel();
    assert_eq!(hive.swarm_send(vec![2, 4], tx), vec![0, 1]);
    assert_eq!(hive.swarm_store(vec![6, 8]), vec![2, 3]);
    let shared = &mut hive.shared;
    shared.queue_retry(5, Context::new(7), None, 0);
    assert_eq!(shared.num_tasks(), (5, 0));
    shared.drain_tasks_into_unprocessed();
    // the counts stay; the queues are empty
    assert_eq!(shared.num_tasks(), (5, 0));
    assert!(matches!(shared.next_task(u64::MAX), Ok(None)));
    let mut kept: Vec<usize> = shared.outcomes().keys().copied().collect();
    kept.sort();
    assert_eq!(kept, vec![2, 3, 7]);
    assert!(matches!(
        shared.outcomes().get(&7),
        Some(Outcome::Unprocessed { index: 7, input: 5 })
    ));
    let sent: Vec<Outcome<Halver>> = rx.try_iter().collect();
    assert_eq!(sent.len(), 2);
    assert!(matches!(sent[0], Outcome::Unprocessed { index: 0, input: 2 }));
    assert!(matches!(sent[1], Outcome::Unprocessed { index: 1, input: 4 }));
    assert!(!shared.is_poisoned());
}

#[test]
fn test_take_outcomes() {
    let mut shared = new_shared();
    shared.add_outcome(Outcome::Success { index: 0, value: 1 });
    shared.add_outcome(Outcome::Unprocessed { index: 1, input: 2 });
    shared.add_outcome(Outcome::Failure { index: 2, error: "e".to_string() });
    shared.add_outcome(Outcome::Unprocessed { index: 3, input: 4 });
    let mut unprocessed = shared.take_unprocessed();
    unprocessed.sort_by_key(|outcome| *outcome.index());
    assert_eq!(unprocessed.len(), 2);
    assert!(matches!(unprocessed[0], Outcome::Unprocessed { index: 1, input: 2 }));
    assert!(matches!(unprocessed[1], Outcome::Unprocessed { index: 3, input: 4 }));
    assert!(shared.take_unprocessed().is_empty());
    assert_eq!(shared.outcomes().len(), 2);
    assert!(shared.get(1).is_none());
    assert!(shared.get(2).unwrap().is_failure());
    assert!(shared.remove(7).is_none());
    assert!(matches!(shared.remove(2), Some(Outcome::Failure { index: 2, .. })));
    assert!(shared.remove(2).is_none());
    shared.add_outcome(Outcome::Failure { index: 2, error: "e".to_string() });
    let taken = shared.take_outcomes();
    assert_eq!(taken.len(), 2);
    assert!(taken.get(&0).unwrap().is_success());
    assert!(taken.get(&2).unwrap().is_failure());
    assert!(shared.outcomes().is_empty());
    assert!(shared.take_outcomes().is_empty());
}

#[test]
fn test_finish_task_counts_panics() {
    let mut shared = new_shared();
    for input in [2, 4, 6] {
        submit(&mut shared, input);
    }
    for _ in 0..3 {
        shared.next_task(0).unwrap().unwrap();
    }
    assert!(!shared.finish_task(true));
    assert!(!shared.finish_task(false));
    assert!(shared.finish_task(true));
    let husk = shared.try_into_husk();
    assert_eq!(husk.num_panics(), 2);
    assert!(husk.outcomes().is_empty());
}

#[test]
fn test_threads() {
    let mut shared: TestShared = Shared::new(Config::empty(), HalverQueen);
    assert_eq!(shared.add_threads(4), 0);
    assert_eq!(shared.ensure_threads(2), 4);
    assert_eq!(shared.ensure_threads(6), 4);
    assert_eq!(shared.add_threads(usize::MAX), 6);
    assert_eq!(shared.add_threads(0), 5);
    let mut hive = Builder::new()
        .num_threads(2)
        .thread_name("worker".to_string())
        .build(HalverQueen);
    assert_eq!(hive.grow(3), (2, 3));
    assert_eq!(hive.shared.ensure_threads(0), 5);
    assert_eq!(hive.ensure_threads(5), (5, 0));
    assert_eq!(hive.ensure_threads(8), (5, 3));
    assert_eq!(hive.grow(0), (8, 0));
    assert_eq!(hive.shared.thread_builder().name, Some("worker".to_string()));
}

#[test]
fn test_basic_swarm() {
    let mut hive = Builder::new().num_threads(4).build(HalverQueen);
    let mut worker = hive.shared.create_worker();
    let indices = hive.swarm_store((0..10).map(|i| 2 * i).collect());
    assert_eq!(indices, (0..10).collect::<Vec<usize>>());
    assert!(!hive.is_done());
    while work_once(&mut hive.shared, &mut worker, 0) {}
    assert!(hive.is_done());
    let mut values: Vec<u32> = hive
        .shared
        .take_outcomes()
        .into_values()
        .map(Outcome::unwrap)
        .collect();
    values.sort();
    assert_eq!(values, (0..10).collect::<Vec<u32>>());
}

#[test]
fn test_apply_send_delivers() {
    let mut hive = Builder::new().num_threads(1).build(HalverQueen);
    let mut worker = hive.shared.create_worker();
    let (tx, rx) = channel();
    assert_eq!(hive.apply_send(8, tx.clone()), 0);
    assert_eq!(hive.apply_store(10), 1);
    assert_eq!(hive.apply_send(13, tx), 2);
    while work_once(&mut hive.shared, &mut worker, 0) {}
    assert!(matches!(rx.try_recv(), Ok(Outcome::Success { index: 0, value: 4 })));
    assert!(matches!(rx.try_recv(), Ok(Outcome::Failure { index: 2, .. })));
    assert_eq!(hive.shared.outcomes().len(), 1);
    assert!(matches!(
        hive.shared.outcomes().get(&1),
        Some(Outcome::Success { index: 1, value: 5 })
    ));
}

#[test]
fn test_hive_suspend_and_resume() {
    let mut hive = Builder::new().num_threads(1).build(HalverQueen);
    assert!(!hive.resume());
    hive.suspend();
    assert!(hive.shared.is_suspended());
    hive.apply_store(2);
    assert!(hive.is_done());
    assert!(matches!(hive.shared.next_task(0), Ok(None)));
    assert!(hive.resume());
    assert!(!hive.is_done());
    assert!(matches!(hive.shared.next_task(0), Ok(Some(_))));
}

#[test]
fn test_counts_balance() {
    let mut hive: Hive<Halver, HalverQueen> =
        Builder::new().max_retries(1).build(HalverQueen);
    let mut worker = hive.shared.create_worker();
    let mut submitted = 0u64;
    let check = |hive: &Hive<Halver, HalverQueen>, submitted: u64| {
        let (queued, active) = hive.shared.num_tasks();
        let ended = hive.shared.outcomes().len() as u64;
        assert_eq!(queued + active, submitted - ended);
    };
    for round in 0..5u32 {
        submitted += hive.swarm_store(vec![round, round + 1, 13]).len() as u64;
        check(&hive, submitted);
        hive.apply_store(2 * round);
        submitted += 1;
        check(&hive, submitted);
        for _ in 0..3 {
            work_once(&mut hive.shared, &mut worker, 0);
            check(&hive, submitted);
        }
    }
    while work_once(&mut hive.shared, &mut worker, 0) {
        check(&hive, submitted);
    }
    assert_eq!(hive.shared.num_tasks(), (0, 0));
    assert_eq!(hive.shared.outcomes().len() as u64, submitted);
    assert_eq!(submitted, 20);
    assert_eq!(hive.apply_store(0), 20);
}

#[test]
fn test_has_work() {
    let mut shared = new_shared();
    // nothing queued, nothing active
    assert!(!shared.has_work());
    submit(&mut shared, 2);
    submit(&mut shared, 4);
    // queued, not suspended
    assert!(shared.has_work());
    // queued, suspended
    shared.set_suspended(true);
    assert!(!shared.has_work());
    shared.set_suspended(false);
    shared.next_task(0).unwrap().unwrap();
    // active and queued, suspended or not
    assert!(shared.has_work());
    shared.set_suspended(true);
    assert!(shared.has_work());
    assert!(!shared.wait_on_done());
    assert!(!shared.no_work_notify_all());
    // poisoned, whatever is counted
    shared.poison();
    assert_eq!(shared.num_tasks(), (1, 1));
    assert!(!shared.has_work());
    shared.set_suspended(false);
    assert!(!shared.has_work());
    assert!(shared.finish_task(false));
}

#[test]
fn test_suspended_and_poisoned_waits() {
    let mut shared = new_shared();
    submit(&mut shared, 2);
    shared.set_suspended(true);
    shared.poison();
    // a suspended hive hands out nothing and ends no worker, poisoned or not
    assert!(matches!(shared.next_task(0), Ok(None)));
    assert!(shared.set_suspended(false));
    assert!(matches!(shared.next_task(0), Err(NextTaskError::Poisoned)));
    assert!(matches!(
        shared.get(0),
        Some(Outcome::Unprocessed { index: 0, input: 2 })
    ));
}
