use counter_stress::errors::{StorageError, WorkerError};
use counter_stress::pool::Pool;
use counter_stress::retry::{run_increment, RetryPolicy};
use counter_stress::store::Store;
use counter_stress::worker::{clean_script, run_workers, worker_increment};
use counter_stress::{rocket, BASE_DELAY_MS, NUM_RETRIES, POOL_SIZE};

#[test]
fn ignited_system_is_reset_and_idle() {
    let s = rocket();
    assert_eq!(s.pool.capacity(), POOL_SIZE);
    assert_eq!(s.pool.idle_count(), POOL_SIZE);
    assert_eq!(s.pool.leased_count(), 0);
    assert_eq!(s.store.read(), 0);
    assert_eq!(s.policy.max_attempts(), NUM_RETRIES);
    assert_eq!(s.policy.base_delay_ms(), BASE_DELAY_MS);
}

#[test]
fn n_workers_increment_to_exactly_n() {
    let mut s = rocket();
    run_workers(&mut s.pool, &mut s.store, &s.policy, 25);
    assert_eq!(s.store.read(), 25);
    assert_eq!(s.pool.idle_count(), POOL_SIZE);
}

#[test]
fn many_workers_through_ten_handles_all_complete() {
    // 2000 workers share 10 handles; every one completes and is counted.
    let mut s = rocket();
    run_workers(&mut s.pool, &mut s.store, &s.policy, 2000);
    assert_eq!(s.store.read(), 2000);
    assert_eq!(s.pool.idle_count(), POOL_SIZE);
    assert_eq!(s.pool.leased_count(), 0);
}

#[test]
fn two_handles_five_workers_overlapping() {
    // Five workers over a pool of two handles, leases overlapping in pairs:
    // never more than two handles leased, and the counter ends at five.
    let policy = RetryPolicy::new(5, 10);
    let mut pool = Pool::new(2);
    let mut store = Store::new();
    let script = clean_script(&policy);

    let mut completed = 0u64;
    while completed < 5 {
        let first = pool.checkout().unwrap();
        // A second worker leases concurrently whenever a handle is free.
        let second = pool.checkout();
        assert!(pool.leased_count() <= 2);
        assert_eq!(pool.leased_count() + pool.idle_count(), 2);

        let (res, _) = run_increment(&policy, &mut store, &script);
        assert_eq!(res, Ok(completed + 1));
        completed += 1;
        pool.release(first);

        match second {
            Ok(lease) => {
                if completed < 5 {
                    let (res2, _) = run_increment(&policy, &mut store, &script);
                    assert_eq!(res2, Ok(completed + 1));
                    completed += 1;
                }
                pool.release(lease);
            }
            Err(_) => {}
        }
        assert_eq!(pool.leased_count() + pool.idle_count(), 2);
    }
    assert_eq!(store.read(), 5);
    assert_eq!(pool.leased_count(), 0);
    assert_eq!(pool.idle_count(), 2);
}

#[test]
fn failing_worker_still_releases_its_lease() {
    // The unit of work fails on every attempt; the lease must still come
    // back, so the capacity invariant holds afterwards.
    let policy = RetryPolicy::new(5, 10);
    let mut pool = Pool::new(2);
    let mut store = Store::new();
    let script: Vec<Option<StorageError>> = vec![Some(StorageError::Conflict); 5];
    let r = worker_increment(&mut pool, &mut store, &policy, &script);
    assert_eq!(r, Err(WorkerError::Storage(StorageError::Conflict)));
    assert_eq!(store.read(), 0);
    assert_eq!(pool.leased_count(), 0);
    assert_eq!(pool.idle_count(), 2);
    assert_eq!(pool.leased_count() + pool.idle_count(), 2);
}

#[test]
fn worker_without_idle_handle_times_out() {
    let policy = RetryPolicy::new(5, 10);
    let mut pool = Pool::new(1);
    let mut store = Store::new();
    let held = pool.checkout().unwrap();
    let script = clean_script(&policy);
    let r = worker_increment(&mut pool, &mut store, &policy, &script);
    assert_eq!(r, Err(WorkerError::PoolTimeout));
    assert_eq!(store.read(), 0);
    pool.release(held);
}

#[test]
fn successful_worker_returns_new_value() {
    let policy = RetryPolicy::new(5, 10);
    let mut pool = Pool::new(1);
    let mut store = Store::new();
    let script = clean_script(&policy);
    assert_eq!(worker_increment(&mut pool, &mut store, &policy, &script), Ok(1));
    assert_eq!(worker_increment(&mut pool, &mut store, &policy, &script), Ok(2));
    assert_eq!(store.read(), 2);
}
