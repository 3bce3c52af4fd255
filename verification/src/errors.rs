use vstd::prelude::*;

verus! {

/// Failure of a pool checkout: no handle became idle within the caller's
/// waiting budget.
#[derive(Clone, Copy, Debug, PartialEq, Eq, Structural)]
pub enum PoolError {
    Timeout,
}

/// Failure of one transactional attempt of the unit of work.
///
/// `Conflict` is the contention class: the store refused or aborted the
/// transaction because another writer held the row. `Fatal` is any other
/// storage failure. The executor deliberately retries both kinds uniformly;
/// distinguishing them in the retry policy is left open by design.
#[derive(Clone, Copy, Debug, PartialEq, Eq, Structural)]
pub enum StorageError {
    Conflict,
    Fatal,
}

/// Failure of one whole worker operation, as surfaced to its driver.
#[derive(Clone, Copy, Debug, PartialEq, Eq, Structural)]
pub enum WorkerError {
    /// The pool had no idle handle for this worker.
    PoolTimeout,
    /// Every attempt of the unit of work failed; this is the final attempt's
    /// error.
    Storage(StorageError),
}

} // verus!
