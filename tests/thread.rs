use sync_toolkit::thread::{JoinError, Spawner, ThreadHandle};

#[test]
fn join_returns_the_produced_value() {
    let mut spawner = Spawner::new();
    let mut h: ThreadHandle<Vec<i32>> = spawner.spawn();
    assert!(!h.is_finished());
    h.complete(vec![1, 2, 3]);
    assert!(h.is_finished());
    assert_eq!(h.join(), Ok(vec![1, 2, 3]));
}

#[test]
fn join_reports_a_failed_task() {
    let mut spawner = Spawner::new();
    let _first: ThreadHandle<u8> = spawner.spawn();
    let mut h: ThreadHandle<u8> = spawner.spawn();
    h.fail();
    assert_eq!(h.join(), Err(JoinError { unit: 1 }));
}

#[test]
fn spawned_units_get_distinct_ids() {
    let mut spawner = Spawner::new();
    let ids: Vec<u64> = (0..5).map(|_| spawner.spawn::<()>().id()).collect();
    assert_eq!(ids, vec![0, 1, 2, 3, 4]);
}
