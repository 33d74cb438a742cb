use beekeeper::hive::{CounterError, DualCounter};

#[test]
fn test_counter_starts_at_zero() {
    assert_eq!(DualCounter::new().get(), (0, 0));
    assert_eq!(DualCounter::default().get(), (0, 0));
}

#[test]
fn test_counter_transfer() {
    let mut counter = DualCounter::new();
    assert_eq!(counter.increment_left(3), Ok(()));
    assert_eq!(counter.get(), (3, 0));
    assert_eq!(counter.transfer(2), Ok(()));
    assert_eq!(counter.get(), (1, 2));
    assert_eq!(counter.decrement_right(1), Ok(()));
    assert_eq!(counter.get(), (1, 1));
    assert_eq!(counter.transfer(0), Ok(()));
    assert_eq!(counter.get(), (1, 1));
}

#[test]
fn test_counter_left_overflow() {
    let mut counter = DualCounter::new();
    assert_eq!(counter.increment_left(u64::MAX), Ok(()));
    assert_eq!(counter.increment_left(1), Err(CounterError::LeftOverflow));
    assert_eq!(counter.get(), (u64::MAX, 0));
    assert_eq!(counter.increment_left(0), Ok(()));
}

#[test]
fn test_counter_right_underflow() {
    let mut counter = DualCounter::new();
    assert_eq!(counter.decrement_right(1), Err(CounterError::RightUnderflow));
    assert_eq!(counter.increment_left(2), Ok(()));
    assert_eq!(counter.transfer(2), Ok(()));
    assert_eq!(counter.decrement_right(3), Err(CounterError::RightUnderflow));
    assert_eq!(counter.get(), (0, 2));
    assert_eq!(counter.decrement_right(2), Ok(()));
    assert_eq!(counter.get(), (0, 0));
}

#[test]
fn test_counter_transfer_left_underflow() {
    let mut counter = DualCounter::new();
    assert_eq!(counter.increment_left(1), Ok(()));
    assert_eq!(counter.transfer(2), Err(CounterError::LeftUnderflow));
    assert_eq!(counter.get(), (1, 0));
}

#[test]
fn test_counter_transfer_right_overflow() {
    let mut counter = DualCounter::new();
    assert_eq!(counter.increment_left(u64::MAX), Ok(()));
    assert_eq!(counter.transfer(u64::MAX), Ok(()));
    assert_eq!(counter.get(), (0, u64::MAX));
    assert_eq!(counter.increment_left(1), Ok(()));
    assert_eq!(counter.transfer(1), Err(CounterError::RightOverflow));
    assert_eq!(counter.get(), (1, u64::MAX));
    // the left count is looked at first
    assert_eq!(counter.transfer(2), Err(CounterError::LeftUnderflow));
}
