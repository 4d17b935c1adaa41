use sync_toolkit::counter::{AccessError, LockOutcome, SharedCounter};
use sync_toolkit::increments::{run_increments, IncrementRun, Phase};

#[test]
fn ten_units_count_to_ten() {
    assert_eq!(run_increments(10, 0), 10);
}

#[test]
fn no_units_leave_the_value() {
    assert_eq!(run_increments(0, 42), 42);
}

#[test]
fn counting_up_to_the_largest_value() {
    assert_eq!(run_increments(3, u64::MAX - 3), u64::MAX);
}

#[test]
fn interleaved_steps_lose_no_update() {
    let mut run = IncrementRun::spawn(4, 100);
    run.step(2);
    assert_eq!(run.phase(2), Phase::Holding(100));
    run.step(0);
    run.step(1);
    assert_eq!(run.phase(0), Phase::Waiting);
    assert_eq!(run.counter().holder(), Some(2));
    run.step(2);
    assert_eq!(run.phase(2), Phase::Done);
    run.step(3);
    assert_eq!(run.phase(3), Phase::Holding(101));
    run.step(9);
    run.join_all();
    for u in 0..4 {
        assert_eq!(run.phase(u), Phase::Done);
    }
    assert_eq!(run.counter().holder(), None);
    assert!(!run.counter().is_poisoned());
    assert_eq!(run.unit_count(), 4);
}

#[test]
fn lock_is_exclusive() {
    let mut c = SharedCounter::new(5);
    assert_eq!(c.lock(1), LockOutcome::Acquired);
    assert_eq!(c.lock(2), LockOutcome::Busy);
    assert_eq!(c.read(2), Err(AccessError::NotHolder));
    assert_eq!(c.write(2, 9), Err(AccessError::NotHolder));
    assert_eq!(c.write(1, 6), Ok(()));
    assert_eq!(c.read(1), Ok(6));
    assert_eq!(c.release(2, false), Err(AccessError::NotHolder));
    assert_eq!(c.release(1, false), Ok(()));
    assert_eq!(c.lock(2), LockOutcome::Acquired);
    assert_eq!(c.read(2), Ok(6));
}

#[test]
fn increment_under_lock() {
    let mut c = SharedCounter::new(0);
    assert_eq!(c.increment(3), Err(AccessError::NotHolder));
    assert_eq!(c.lock(3), LockOutcome::Acquired);
    assert_eq!(c.increment(3), Ok(()));
    assert_eq!(c.increment(3), Ok(()));
    assert_eq!(c.read(3), Ok(2));
}

#[test]
fn increment_overflow_is_refused() {
    let mut c = SharedCounter::new(u64::MAX);
    assert_eq!(c.lock(0), LockOutcome::Acquired);
    assert_eq!(c.increment(0), Err(AccessError::Overflow));
    assert_eq!(c.read(0), Ok(u64::MAX));
}

#[test]
fn failed_holder_poisons_the_lock() {
    let mut c = SharedCounter::new(1);
    assert_eq!(c.lock(1), LockOutcome::Acquired);
    assert_eq!(c.release(1, true), Ok(()));
    assert!(c.is_poisoned());
    assert_eq!(c.holder(), None);
    assert_eq!(c.lock(2), LockOutcome::LockPoisoned);
    assert_eq!(c.holder(), Some(2));
    assert_eq!(c.read(2), Ok(1));
    assert_eq!(c.release(2, false), Ok(()));
    assert!(c.is_poisoned());
    c.clear_poison();
    assert_eq!(c.lock(3), LockOutcome::Acquired);
}

#[test]
fn handles_are_counted() {
    let mut c = SharedCounter::new(0);
    assert_eq!(c.handle_count(), 1);
    c.clone_handle();
    c.clone_handle();
    assert_eq!(c.handle_count(), 3);
    assert!(!c.drop_handle());
    assert!(!c.drop_handle());
    assert!(c.drop_handle());
    assert_eq!(c.handle_count(), 0);
}
