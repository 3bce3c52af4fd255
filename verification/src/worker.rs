use vstd::prelude::*;

use crate::errors::{StorageError, WorkerError};
use crate::pool::Pool;
use crate::retry::{run_increment, RetryPolicy};
use crate::store::{increments_applied, lemma_increments_add, Store};

verus! {

/// One logical worker: check out a lease, run the retrying increment with
/// the leased handle, and release the lease on every exit path — success,
/// exhausted retries, or no handle at all.
///
/// The pool comes back exactly as it was: whatever the unit of work did,
/// the lease is returned, so leased and idle sets are unchanged. The store
/// gains exactly one increment when the pool had an idle handle and the
/// script lets some attempt through; it is untouched otherwise.
pub fn worker_increment(
    pool: &mut Pool,
    store: &mut Store,
    policy: &RetryPolicy,
    script: &Vec<Option<StorageError>>,
) -> (r: Result<u64, WorkerError>)
    requires
        old(pool).wf(),
        policy.wf(),
        script@.len() >= policy.spec_max_attempts(),
        old(store).spec_value() + 1 <= u64::MAX,
    ensures
        final(pool).wf(),
        final(pool).spec_capacity() == old(pool).spec_capacity(),
        forall|j: int| final(pool).spec_is_leased(j) == old(pool).spec_is_leased(j),
        forall|j: int| final(pool).spec_is_idle(j) == old(pool).spec_is_idle(j),
        final(pool).spec_leased_count() == old(pool).spec_leased_count(),
        final(pool).spec_idle_count() == old(pool).spec_idle_count(),
        forall|j: int|
            old(pool).spec_is_configured(j) ==> final(pool).spec_is_configured(j),
        old(pool).spec_idle_count() == 0 ==> r == Err::<u64, WorkerError>(WorkerError::PoolTimeout)
            && *final(store) == *old(store),
        r is Ok <==> old(pool).spec_idle_count() > 0 && (exists|k: int|
            0 <= k < policy.spec_max_attempts() && !((#[trigger] script@[k]) is Some)),
        r is Ok ==> final(store).spec_value() == old(store).spec_value() + 1 && r.unwrap() as int
            == final(store).spec_value(),
        r is Err ==> *final(store) == *old(store),
        old(pool).spec_idle_count() > 0 && (forall|k: int|
            0 <= k < policy.spec_max_attempts() ==> (#[trigger] script@[k]) is Some) ==> (
        script@[policy.spec_max_attempts() - 1] matches Some(e) && r == Err::<u64, WorkerError>(
            WorkerError::Storage(e),
        )),
{
    let checked_out = pool.checkout();
    match checked_out {
        Err(_) => Err(WorkerError::PoolTimeout),
        Ok(lease) => {
            let outcome = run_increment(policy, store, script);
            pool.release(lease);
            match outcome.0 {
                Ok(v) => {
                    proof {
                        let n = outcome.1@.len() as int;
                        assert(0 <= n < policy.spec_max_attempts() && !(script@[n] is Some));
                    }
                    Ok(v)
                },
                Err(e) => Err(WorkerError::Storage(e)),
            }
        },
    }
}

/// The batch driver, serialized: `n` workers run one after the other, each
/// performing one failure-free increment through the pool. The counter ends
/// exactly `n` higher, and the pool ends as it began.
#[verifier::loop_isolation(false)]
pub fn run_workers(pool: &mut Pool, store: &mut Store, policy: &RetryPolicy, n: u32)
    requires
        old(pool).wf(),
        old(pool).spec_idle_count() > 0,
        policy.wf(),
        policy.spec_max_attempts() <= usize::MAX,
        old(store).spec_value() + n <= u64::MAX,
    ensures
        final(pool).wf(),
        final(pool).spec_capacity() == old(pool).spec_capacity(),
        forall|j: int| final(pool).spec_is_leased(j) == old(pool).spec_is_leased(j),
        forall|j: int| final(pool).spec_is_idle(j) == old(pool).spec_is_idle(j),
        final(pool).spec_leased_count() == old(pool).spec_leased_count(),
        final(pool).spec_idle_count() == old(pool).spec_idle_count(),
        final(store).spec_value() == old(store).spec_value() + n,
        final(store).spec_value() == increments_applied(old(store).spec_value(), n as nat),
{
    proof {
        lemma_increments_add(old(store).spec_value(), n as nat);
    }
    let script = clean_script(policy);
    let mut done: u32 = 0;
    while done < n
        invariant
            done <= n,
            pool.wf(),
            pool.spec_capacity() == old(pool).spec_capacity(),
            forall|j: int| pool.spec_is_leased(j) == old(pool).spec_is_leased(j),
            forall|j: int| pool.spec_is_idle(j) == old(pool).spec_is_idle(j),
            pool.spec_leased_count() == old(pool).spec_leased_count(),
            pool.spec_idle_count() == old(pool).spec_idle_count(),
            store.spec_value() == old(store).spec_value() + done,
        decreases n - done,
    {
        let r = worker_increment(pool, store, policy, &script);
        proof {
            assert(!(script@[0] is Some));
            assert(r is Ok);
        }
        done = done + 1;
    }
}

/// A failure script that fails no attempt: every worker in the batch driver
/// commits on its first attempt.
pub fn clean_script(policy: &RetryPolicy) -> (s: Vec<Option<StorageError>>)
    requires
        policy.wf(),
        policy.spec_max_attempts() <= usize::MAX,
    ensures
        s@.len() == policy.spec_max_attempts(),
        forall|k: int| 0 <= k < s@.len() ==> !((#[trigger] s@[k]) is Some),
{
    let max = policy.max_attempts();
    let mut s: Vec<Option<StorageError>> = Vec::new();
    let mut k: u32 = 0;
    while k < max
        invariant
            k <= max,
            s@.len() == k,
            forall|j: int| 0 <= j < k ==> !((#[trigger] s@[j]) is Some),
        decreases max - k,
    {
        s.push(None);
        k = k + 1;
    }
    s
}

} // verus!
