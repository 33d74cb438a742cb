use beekeeper::bee::{ApplyError, Attempt, Context, Queen, Worker};
use beekeeper::hive::{Builder, Hive, OrderedOutcomes, Outcome, Task};
use std::sync::mpsc::channel;

/// A computation that is run once. A thunk that would panic says so, with the message of
/// its panic, for no test can let a panic pass through it.
enum Thunk {
    Returns(Box<dyn FnOnce() -> u8 + Send>),
    Panics(&'static str),
}

fn thunk_of(f: impl FnOnce() -> u8 + Send + 'static) -> Thunk {
    Thunk::Returns(Box::new(f))
}

fn thunk(i: u8) -> Thunk {
    thunk_of(move || i)
}

fn thunk_that_panics_on_5(i: u8) -> Thunk {
    if i == 5 {
        Thunk::Panics("oh no!")
    } else {
        thunk_of(move || i)
    }
}

fn call(thunk: Thunk) -> u8 {
    match thunk {
        Thunk::Returns(f) => f(),
        Thunk::Panics(message) => panic!("{}", message),
    }
}

struct ThunkWorker;

impl Worker for ThunkWorker {
    type Input = Thunk;
    type Output = u8;
    type Error = ();

    fn apply(&mut self, input: Thunk, _ctx: &Context) -> Result<u8, ApplyError<Thunk, ()>> {
        Ok(call(input))
    }
}

struct ThunkQueen;

impl Queen for ThunkQueen {
    type Kind = ThunkWorker;

    fn create(&mut self) -> ThunkWorker {
        ThunkWorker
    }
}

/// Does what the worker threads of a hive do, on the thread of the test: takes the tasks
/// one by one and runs them until the hive has no work.
fn join(hive: &mut Hive<ThunkWorker, ThunkQueen>) {
    let mut worker = hive.shared.create_worker();
    let now = 0;
    while let Ok(Some(task)) = hive.shared.next_task(now) {
        let Task { input, ctx, outcome_tx } = task;
        let attempt = match input {
            Thunk::Panics(message) => Attempt::Panicked { payload: message.to_string() },
            input => Attempt::from_result(worker.apply(input, &ctx)),
        };
        hive.shared.handle_attempt(ctx, outcome_tx, attempt, now);
    }
    assert!(hive.is_done());
}

fn thunks() -> Vec<Thunk> {
    (0..10).map(thunk).collect()
}

#[test]
fn test_unprocessed() {
    // don't spin up any worker threads so that no tasks will be processed
    let mut hive = Builder::new().num_threads(0).build(ThunkQueen);
    let mut indices = hive.swarm_store(thunks());
    // cancel and smash the hive before the tasks can be processed
    hive.suspend();
    let mut husk = hive.try_into_husk().ok().unwrap();
    assert!(husk.outcomes().values().any(|outcome| outcome.is_unprocessed()));
    for i in indices.iter() {
        assert!(husk.get(*i).unwrap().is_unprocessed());
    }
    assert_eq!(
        husk.outcomes()
            .values()
            .filter(|outcome| outcome.is_unprocessed())
            .count(),
        10
    );
    let mut unprocessed_indices = husk
        .outcomes()
        .iter()
        .filter(|(_, outcome)| outcome.is_unprocessed())
        .map(|(index, _)| *index)
        .collect::<Vec<_>>();
    indices.sort();
    unprocessed_indices.sort();
    assert_eq!(indices, unprocessed_indices);
    assert_eq!(husk.take_unprocessed().len(), 10);
    assert!(husk.outcomes().is_empty());
}

#[test]
fn test_reprocess_unprocessed() {
    // don't spin up any worker threads so that no tasks will be processed
    let mut hive1 = Builder::new().num_threads(0).build(ThunkQueen);
    let _ = hive1.swarm_store(thunks());
    // cancel and smash the hive before the tasks can be processed
    hive1.suspend();
    let husk1 = hive1.try_into_husk().ok().unwrap();
    let (mut hive2, _) = husk1.into_hive_swarm_unprocessed_store();
    // now spin up worker threads to process the tasks
    assert_eq!(hive2.grow(8), (0, 8));
    join(&mut hive2);
    let husk2 = hive2.try_into_husk().ok().unwrap();
    assert!(!husk2.outcomes().values().any(|outcome| outcome.is_unprocessed()));
    assert!(husk2.outcomes().values().any(|outcome| outcome.is_success()));
    assert_eq!(
        husk2
            .outcomes()
            .values()
            .filter(|outcome| outcome.is_success())
            .count(),
        10
    );
}

#[test]
fn test_reprocess_unprocessed_to() {
    // don't spin up any worker threads so that no tasks will be processed
    let mut hive1 = Builder::new().num_threads(0).build(ThunkQueen);
    let _ = hive1.swarm_store(thunks());
    // cancel and smash the hive before the tasks can be processed
    hive1.suspend();
    let husk1 = hive1.try_into_husk().ok().unwrap();
    let (tx, rx) = channel();
    let (mut hive2, indices) = husk1.into_hive_swarm_unprocessed_to(tx);
    // now spin up worker threads to process the tasks
    hive2.grow(8);
    join(&mut hive2);
    let husk2 = hive2.try_into_husk().ok().unwrap();
    assert!(husk2.outcomes().is_empty());
    assert_eq!(indices, (0..10).collect::<Vec<usize>>());
    let mut ordered = OrderedOutcomes::new(indices.clone());
    let mut received = Vec::new();
    for outcome in rx.try_iter() {
        ordered.offer(outcome);
        while let Some(outcome) = ordered.next_ready() {
            received.push(outcome);
        }
    }
    assert!(ordered.is_finished());
    assert_eq!(
        received
            .iter()
            .map(|outcome| *outcome.index())
            .collect::<Vec<_>>(),
        indices
    );
    let mut outputs = received
        .into_iter()
        .map(Outcome::unwrap)
        .collect::<Vec<_>>();
    outputs.sort();
    assert_eq!(outputs, (0..10).collect::<Vec<_>>());
}

#[test]
fn test_into_result() {
    let mut hive = Builder::new().num_threads(4).build(ThunkQueen);
    hive.swarm_store(thunks());
    join(&mut hive);
    let mut outputs = hive
        .try_into_husk()
        .ok()
        .unwrap()
        .into_parts()
        .1
        .unwrap();
    outputs.sort();
    assert_eq!(outputs, (0..10).collect::<Vec<_>>());
}

#[test]
#[should_panic]
fn test_into_result_panic() {
    let mut hive = Builder::new().num_threads(4).build(ThunkQueen);
    hive.swarm_store((0..10).map(thunk_that_panics_on_5).collect());
    join(&mut hive);
    let husk = hive.try_into_husk().ok().unwrap();
    assert_eq!(husk.num_panics(), 1);
    let (_, result) = husk.into_parts();
    let _ = result.unwrap();
}

#[test]
fn test_ordered_outcomes() {
    let mut ordered: OrderedOutcomes<ThunkWorker> = OrderedOutcomes::new(vec![2, 0, 1]);
    assert!(!ordered.is_finished());
    assert!(ordered.next_ready().is_none());
    ordered.offer(Outcome::Success { index: 1, value: 10 });
    ordered.offer(Outcome::Success { index: 0, value: 20 });
    assert!(ordered.next_ready().is_none());
    ordered.offer(Outcome::Panic { index: 2, payload: "p".to_string() });
    assert!(matches!(ordered.next_ready(), Some(Outcome::Panic { index: 2, .. })));
    assert!(!ordered.is_finished());
    assert!(matches!(ordered.next_ready(), Some(Outcome::Success { index: 0, value: 20 })));
    assert!(matches!(ordered.next_ready(), Some(Outcome::Success { index: 1, value: 10 })));
    assert!(ordered.is_finished());
    assert!(ordered.next_ready().is_none());
    // an outcome that nobody waits for is held and never handed on
    ordered.offer(Outcome::Success { index: 7, value: 0 });
    assert!(ordered.next_ready().is_none());
    assert!(OrderedOutcomes::<ThunkWorker>::new(vec![]).is_finished());
}

#[test]
fn test_panic_survival() {
    let mut hive = Builder::new().num_threads(4).build(ThunkQueen);
    let indices = hive.swarm_store((0..10).map(thunk_that_panics_on_5).collect());
    assert_eq!(indices, (0..10).collect::<Vec<usize>>());
    join(&mut hive);
    assert_eq!(
        hive.shared
            .outcomes()
            .values()
            .filter(|outcome| outcome.is_success())
            .count(),
        9
    );
    assert!(matches!(
        hive.shared.outcomes().get(&5),
        Some(Outcome::Panic { index: 5, payload }) if payload == "oh no!"
    ));
    assert_eq!(
        hive.shared
            .outcomes()
            .values()
            .filter(|outcome| outcome.is_panic())
            .count(),
        1
    );
    // the hive still takes work
    let index = hive.apply_store(thunk_of(|| 11));
    assert_eq!(index, 10);
    join(&mut hive);
    assert!(matches!(
        hive.shared.outcomes().get(&10),
        Some(Outcome::Success { index: 10, value: 11 })
    ));
    let husk = hive.try_into_husk().ok().unwrap();
    assert_eq!(husk.num_panics(), 1);
}

#[test]
fn test_husk_keeps_settings_and_queen() {
    struct CountingQueen(usize);
    impl Queen for CountingQueen {
        type Kind = ThunkWorker;
        fn create(&mut self) -> ThunkWorker {
            self.0 += 1;
            ThunkWorker
        }
    }
    let mut hive = Builder::new()
        .num_threads(3)
        .thread_name("bee".to_string())
        .thread_stack_size(4096)
        .max_retries(2)
        .retry_factor(1_000_000)
        .build(CountingQueen(0));
    let _ = hive.shared.create_worker();
    let _ = hive.shared.create_worker();
    let husk = hive.try_into_husk().ok().unwrap();
    assert_eq!(husk.queen().0, 2);
    assert_eq!(husk.num_panics(), 0);
    let hive = husk.into_hive();
    let thread = hive.shared.thread_builder();
    assert_eq!(thread.name, Some("bee".to_string()));
    assert_eq!(thread.stack_size, Some(4096));
    assert_eq!(hive.shared.num_tasks(), (0, 0));
    assert_eq!(hive.shared.num_referrers(), 1);
    let mut hive = hive;
    assert_eq!(hive.grow(0), (3, 0));
    assert!(hive.shared.can_retry(&Context { index: 0, attempt: 1 }));
    assert!(!hive.shared.can_retry(&Context { index: 0, attempt: 2 }));
    let husk = hive.try_into_husk().ok().unwrap();
    assert_eq!(husk.queen().0, 2);
}

#[test]
fn test_try_into_husk_with_other_handles() {
    let mut hive = Builder::new().num_threads(1).build(ThunkQueen);
    assert_eq!(hive.shared.referrer_is_cloning(), 1);
    hive.apply_store(thunk_of(|| 1));
    let mut hive = match hive.try_into_husk() {
        Ok(_) => panic!("a hive with two handles was ended"),
        Err(hive) => hive,
    };
    assert!(!hive.shared.is_poisoned());
    assert_eq!(hive.shared.num_tasks(), (1, 0));
    assert_eq!(hive.shared.referrer_is_dropping(), 2);
    let husk = hive.try_into_husk().ok().unwrap();
    assert_eq!(husk.outcomes().len(), 1);
    assert!(husk.outcomes().get(&0).unwrap().is_unprocessed());
}

#[test]
fn test_collect_unprocessed_drops_the_rest() {
    let mut hive = Builder::new().num_threads(1).build(ThunkQueen);
    hive.swarm_store(thunks());
    // run three of the ten tasks
    let mut worker = hive.shared.create_worker();
    for _ in 0..3 {
        let Task { input, ctx, outcome_tx } = hive.shared.next_task(0).unwrap().unwrap();
        let attempt = Attempt::from_result(worker.apply(input, &ctx));
        hive.shared.handle_attempt(ctx, outcome_tx, attempt, 0);
    }
    let husk = hive.try_into_husk().ok().unwrap();
    assert_eq!(husk.outcomes().len(), 10);
    let builder = husk.as_builder();
    let (_, batch) = husk.into_parts();
    assert_eq!(batch.len(), 10);
    let inputs = beekeeper::hive::Husk::<ThunkWorker, ThunkQueen>::collect_unprocessed(
        batch.into_inner(),
    );
    let mut values: Vec<u8> = inputs.into_iter().map(call).collect();
    values.sort();
    assert_eq!(values, (3..10).collect::<Vec<u8>>());
    let hive = builder.build(ThunkQueen);
    assert_eq!(hive.shared.num_tasks(), (0, 0));
}
