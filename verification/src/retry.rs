use vstd::prelude::*;

use crate::errors::StorageError;
use crate::store::Store;

verus! {

/// `2^e`.
pub open spec fn pow2(e: nat) -> nat
    decreases e,
{
    if e == 0 {
        1
    } else {
        2 * pow2((e - 1) as nat)
    }
}

proof fn lemma_pow2_monotone(a: nat, b: nat)
    requires
        a <= b,
    ensures
        pow2(a) <= pow2(b),
    decreases b,
{
    if a < b {
        lemma_pow2_monotone(a, (b - 1) as nat);
    }
}

/// What the executor does next after one attempt of the unit of work.
#[derive(Clone, Copy, Debug, PartialEq, Eq, Structural)]
pub enum StepAction {
    /// Return the attempt's result to the caller, successful or not; no
    /// further attempt and no delay follow.
    Done,
    /// Sleep for `delay_ms` milliseconds, then run the next attempt.
    Retry { delay_ms: u64 },
}

/// The retry discipline of the transaction executor: a fixed attempt budget
/// and an exponential backoff schedule over a base delay.
#[derive(Clone, Copy, Debug)]
pub struct RetryPolicy {
    max_attempts: u32,
    base_delay_ms: u64,
}

impl RetryPolicy {
    /// The attempt budget.
    pub closed spec fn spec_max_attempts(&self) -> int {
        self.max_attempts as int
    }

    /// The base backoff delay in milliseconds.
    pub closed spec fn spec_base_delay_ms(&self) -> int {
        self.base_delay_ms as int
    }

    /// The delay slept after failed attempt `i`, before attempt `i + 1`:
    /// `base_delay_ms * 2^i` milliseconds.
    pub open spec fn spec_delay_ms(&self, i: int) -> int {
        self.spec_base_delay_ms() * pow2(i as nat)
    }

    /// A policy is well-formed when it grants at least one attempt — the
    /// loop must always return from an attempt, never fall through — and its
    /// largest delay fits the delay type.
    pub open spec fn wf(&self) -> bool {
        &&& 1 <= self.spec_max_attempts()
        &&& self.spec_delay_ms(self.spec_max_attempts() - 1) <= u64::MAX
    }

    /// A policy granting `max_attempts` attempts with backoff delays of
    /// `base_delay_ms * 2^i` milliseconds.
    pub fn new(max_attempts: u32, base_delay_ms: u64) -> (p: RetryPolicy)
        requires
            1 <= max_attempts,
            base_delay_ms * pow2((max_attempts - 1) as nat) <= u64::MAX,
        ensures
            p.wf(),
            p.spec_max_attempts() == max_attempts,
            p.spec_base_delay_ms() == base_delay_ms,
    {
        RetryPolicy { max_attempts, base_delay_ms }
    }

    /// The attempt budget.
    pub fn max_attempts(&self) -> (n: u32)
        ensures
            n as int == self.spec_max_attempts(),
    {
        self.max_attempts
    }

    /// The base backoff delay in milliseconds.
    pub fn base_delay_ms(&self) -> (d: u64)
        ensures
            d as int == self.spec_base_delay_ms(),
    {
        self.base_delay_ms
    }

    /// The backoff delay after failed attempt `i`: `base_delay_ms * 2^i`
    /// milliseconds, doubling with each retry.
    #[verifier::loop_isolation(false)]
    pub fn backoff_delay_ms(&self, i: u32) -> (d: u64)
        requires
            self.wf(),
            i < self.spec_max_attempts() - 1,
        ensures
            d as int == self.spec_delay_ms(i as int),
    {
        proof {
            lemma_backoff_schedule(self, 0);
        }
        let mut d: u64 = self.base_delay_ms;
        let mut k: u32 = 0;
        while k < i
            invariant
                k <= i,
                d as int == self.spec_delay_ms(k as int),
            decreases i - k,
        {
            proof {
                lemma_backoff_schedule(self, k as int);
                lemma_delay_fits(self, (k + 1) as int);
            }
            d = d * 2;
            k = k + 1;
        }
        d
    }

    /// The executor's decision after attempt `i` of the unit of work came
    /// back: a successful attempt returns at once; a failed final attempt
    /// returns the failure with no further delay; any other failed attempt
    /// is retried after the backoff delay for `i`.
    pub fn step(&self, i: u32, ok: bool) -> (a: StepAction)
        requires
            self.wf(),
            i < self.spec_max_attempts(),
        ensures
            ok ==> a == StepAction::Done,
            !ok && i + 1 == self.spec_max_attempts() ==> a == StepAction::Done,
            !ok && i + 1 < self.spec_max_attempts() ==> a == (StepAction::Retry {
                delay_ms: self.spec_delay_ms(i as int) as u64,
            }) && self.spec_delay_ms(i as int) <= u64::MAX,
    {
        if ok || i == self.max_attempts - 1 {
            StepAction::Done
        } else {
            proof {
                lemma_delay_fits(self, i as int);
            }
            StepAction::Retry { delay_ms: self.backoff_delay_ms(i) }
        }
    }
}

/// Any delay of a well-formed policy up to the final one fits in `u64`:
/// the schedule is increasing and the last delay fits by well-formedness.
proof fn lemma_delay_fits(p: &RetryPolicy, i: int)
    requires
        p.wf(),
        0 <= i <= p.spec_max_attempts() - 1,
    ensures
        0 <= p.spec_delay_ms(i) <= u64::MAX,
{
    lemma_pow2_monotone(i as nat, (p.spec_max_attempts() - 1) as nat);
    let b = p.spec_base_delay_ms();
    let pi = pow2(i as nat) as int;
    let pl = pow2((p.spec_max_attempts() - 1) as nat) as int;
    assert(b * pi <= b * pl) by (nonlinear_arith)
        requires
            0 <= b,
            0 <= pi <= pl,
    ;
    assert(0 <= b * pi) by (nonlinear_arith)
        requires
            0 <= b,
            0 <= pi,
    ;
}

/// Backoff schedule: the delay after the first attempt is the base delay,
/// and each further delay doubles the one before it.
pub proof fn lemma_backoff_schedule(p: &RetryPolicy, i: int)
    requires
        p.wf(),
        0 <= i,
    ensures
        p.spec_delay_ms(0) == p.spec_base_delay_ms(),
        p.spec_delay_ms(i + 1) == 2 * p.spec_delay_ms(i),
{
    let b = p.spec_base_delay_ms();
    let pi = pow2(i as nat) as int;
    let one = pow2(0) as int;
    assert(one == 1);
    assert(b * one == b) by (nonlinear_arith)
        requires
            one == 1,
    ;
    assert(pow2((i + 1) as nat) == 2 * pow2(i as nat));
    assert(b * (2 * pi) == 2 * (b * pi)) by (nonlinear_arith);
}

/// Run the unit of work — one counter increment — under the retry policy,
/// against a per-attempt failure script: attempt `i` fails with
/// `script[i]`'s error if that entry holds one, and commits otherwise.
///
/// Returns the final result together with the backoff delays taken, in
/// order. The contract pins the whole schedule: delays are slept only after
/// failed, non-final attempts and follow the exponential schedule exactly;
/// the first attempt the script lets through commits exactly one increment
/// and ends the loop; if every attempt fails, the final attempt's error is
/// returned, the store is untouched, and no delay follows the final attempt.
#[verifier::loop_isolation(false)]
pub fn run_increment(policy: &RetryPolicy, store: &mut Store, script: &Vec<Option<StorageError>>) -> (r: (
    Result<u64, StorageError>,
    Vec<u64>,
))
    requires
        policy.wf(),
        script@.len() >= policy.spec_max_attempts(),
        old(store).spec_value() + 1 <= u64::MAX,
    ensures
        r.1@.len() < policy.spec_max_attempts(),
        forall|k: int| 0 <= k < r.1@.len() ==> (#[trigger] r.1@[k]) as int == policy.spec_delay_ms(k),
        forall|k: int| 0 <= k < r.1@.len() ==> (#[trigger] script@[k]) is Some,
        r.0 is Ok ==> script@[r.1@.len() as int] is None,
        r.0 is Ok ==> final(store).spec_value() == old(store).spec_value() + 1,
        r.0 is Ok ==> r.0.unwrap() as int == final(store).spec_value(),
        r.0 is Err ==> forall|k: int|
            0 <= k < policy.spec_max_attempts() ==> (#[trigger] script@[k]) is Some,
        r.0 is Err ==> *final(store) == *old(store),
        r.0 is Err ==> r.1@.len() == policy.spec_max_attempts() - 1,
        r.0 is Err ==> (script@[policy.spec_max_attempts() - 1] matches Some(e) && r.0 == Err::<
            u64,
            StorageError,
        >(e)),
{
    let max = policy.max_attempts();
    let mut delays: Vec<u64> = Vec::new();
    let mut i: u32 = 0;
    loop
        invariant
            i < max,
            delays@.len() == i,
            forall|k: int|
                0 <= k < i ==> (#[trigger] delays@[k]) as int == policy.spec_delay_ms(k),
            forall|k: int| 0 <= k < i ==> (#[trigger] script@[k]) is Some,
            *store == *old(store),
        decreases max - i,
    {
        match script[i as usize] {
            None => {
                // The attempt commits: read, add one, write, return at once.
                let v = store.transact_increment();
                return (Ok(v), delays);
            },
            Some(e) => {
                if i == max - 1 {
                    // Final attempt: surface its error, sleep no further.
                    return (Err(e), delays);
                }
                let d = policy.backoff_delay_ms(i);
                delays.push(d);
                i = i + 1;
            },
        }
    }
}

} // verus!
