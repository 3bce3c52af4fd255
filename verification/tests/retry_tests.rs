use counter_stress::errors::StorageError;
use counter_stress::retry::{run_increment, RetryPolicy, StepAction};
use counter_stress::store::Store;

#[test]
fn backoff_schedule_doubles_from_base() {
    // Schedule values 10 * 2^i: 10, 20, 40, 80, 160.
    let p = RetryPolicy::new(6, 10);
    assert_eq!(p.backoff_delay_ms(0), 10);
    assert_eq!(p.backoff_delay_ms(1), 20);
    assert_eq!(p.backoff_delay_ms(2), 40);
    assert_eq!(p.backoff_delay_ms(3), 80);
    assert_eq!(p.backoff_delay_ms(4), 160);
}

#[test]
fn step_success_returns_immediately() {
    let p = RetryPolicy::new(5, 10);
    assert_eq!(p.step(0, true), StepAction::Done);
    assert_eq!(p.step(3, true), StepAction::Done);
}

#[test]
fn step_failure_retries_with_backoff() {
    let p = RetryPolicy::new(5, 10);
    assert_eq!(p.step(0, false), StepAction::Retry { delay_ms: 10 });
    assert_eq!(p.step(1, false), StepAction::Retry { delay_ms: 20 });
    assert_eq!(p.step(2, false), StepAction::Retry { delay_ms: 40 });
    assert_eq!(p.step(3, false), StepAction::Retry { delay_ms: 80 });
}

#[test]
fn step_final_failure_returns_without_delay() {
    let p = RetryPolicy::new(5, 10);
    assert_eq!(p.step(4, false), StepAction::Done);
}

#[test]
fn step_drives_a_full_failing_loop() {
    // Drive the executor's decisions the way a real transaction loop does,
    // with every attempt failing: four sleeps, then done on the fifth.
    let p = RetryPolicy::new(5, 10);
    let mut delays: Vec<u64> = Vec::new();
    let mut i: u32 = 0;
    loop {
        match p.step(i, false) {
            StepAction::Done => break,
            StepAction::Retry { delay_ms } => {
                delays.push(delay_ms);
                i += 1;
            }
        }
    }
    assert_eq!(delays, vec![10, 20, 40, 80]);
    assert_eq!(i, 4);
}

#[test]
fn policy_getters() {
    let p = RetryPolicy::new(5, 10);
    assert_eq!(p.max_attempts(), 5);
    assert_eq!(p.base_delay_ms(), 10);
}

#[test]
fn first_attempt_success_sleeps_never() {
    let p = RetryPolicy::new(5, 10);
    let mut store = Store::new();
    let script: Vec<Option<StorageError>> = vec![None; 5];
    let (res, delays) = run_increment(&p, &mut store, &script);
    assert_eq!(res, Ok(1));
    assert_eq!(delays, Vec::<u64>::new());
    assert_eq!(store.read(), 1);
}

#[test]
fn success_after_two_conflicts() {
    let p = RetryPolicy::new(5, 10);
    let mut store = Store::new();
    let script = vec![
        Some(StorageError::Conflict),
        Some(StorageError::Conflict),
        None,
        None,
        None,
    ];
    let (res, delays) = run_increment(&p, &mut store, &script);
    assert_eq!(res, Ok(1));
    assert_eq!(delays, vec![10, 20]);
    assert_eq!(store.read(), 1);
}

#[test]
fn budget_exhausted_returns_last_error_no_trailing_delay() {
    let p = RetryPolicy::new(5, 10);
    let mut store = Store::new();
    let script: Vec<Option<StorageError>> = vec![Some(StorageError::Conflict); 5];
    let (res, delays) = run_increment(&p, &mut store, &script);
    assert_eq!(res, Err(StorageError::Conflict));
    // Four delays for five attempts: none follows the final attempt.
    assert_eq!(delays, vec![10, 20, 40, 80]);
    assert_eq!(store.read(), 0);
}

#[test]
fn fatal_error_on_final_attempt_is_surfaced() {
    let p = RetryPolicy::new(3, 10);
    let mut store = Store::new();
    let script = vec![
        Some(StorageError::Conflict),
        Some(StorageError::Conflict),
        Some(StorageError::Fatal),
    ];
    let (res, delays) = run_increment(&p, &mut store, &script);
    assert_eq!(res, Err(StorageError::Fatal));
    assert_eq!(delays, vec![10, 20]);
    assert_eq!(store.read(), 0);
}

#[test]
fn single_attempt_budget_never_sleeps() {
    let p = RetryPolicy::new(1, 10);
    let mut store = Store::new();
    let script = vec![Some(StorageError::Conflict)];
    let (res, delays) = run_increment(&p, &mut store, &script);
    assert_eq!(res, Err(StorageError::Conflict));
    assert!(delays.is_empty());
}
