//! A bounded connection pool with a retrying transaction executor.
//!
//! Many concurrent workers race to increment a single counter row held in a
//! transactional store, through a fixed-size pool of storage handles. The
//! pool hands out exclusive leases and keeps `leased + idle` equal to its
//! capacity; the executor retries a unit of work with exponential backoff up
//! to a fixed attempt budget. This crate verifies that contention-management
//! core; the store itself and the drivers around it are external
//! collaborators.

pub mod errors;
pub mod pool;
pub mod retry;
pub mod store;
pub mod worker;

use vstd::prelude::*;

use crate::pool::Pool;
use crate::retry::RetryPolicy;
use crate::store::Store;

verus! {

/// Number of storage handles the default pool owns.
pub const POOL_SIZE: usize = 10;

/// Attempt budget of the default retry policy.
pub const NUM_RETRIES: u32 = 5;

/// Base backoff delay of the default retry policy, in milliseconds.
pub const BASE_DELAY_MS: u64 = 10;

/// The assembled application state: the handle pool, the counter store,
/// and the retry policy every worker runs under.
pub struct System {
    pub pool: Pool,
    pub store: Store,
    pub policy: RetryPolicy,
}

impl System {
    /// Both stateful components are well-formed.
    pub open spec fn wf(&self) -> bool {
        self.pool.wf() && self.policy.wf()
    }
}

/// Ignite a ready-to-serve system: a full pool of `POOL_SIZE` idle handles,
/// the counter reset to zero, and the default retry policy of `NUM_RETRIES`
/// attempts over a `BASE_DELAY_MS` base delay.
pub fn rocket() -> (s: System)
    ensures
        s.wf(),
        s.pool.spec_capacity() == POOL_SIZE,
        s.pool.spec_leased_count() == 0,
        s.pool.spec_idle_count() == POOL_SIZE,
        s.store.spec_value() == 0,
        s.policy.spec_max_attempts() == NUM_RETRIES,
        s.policy.spec_base_delay_ms() == BASE_DELAY_MS,
{
    proof {
        reveal_with_fuel(crate::retry::pow2, 5);
        assert(crate::retry::pow2((NUM_RETRIES - 1) as nat) == 16);
    }
    System { pool: Pool::new(POOL_SIZE), store: Store::new(), policy: RetryPolicy::new(
        NUM_RETRIES,
        BASE_DELAY_MS,
    ) }
}

} // verus!
