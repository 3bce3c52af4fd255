use vstd::prelude::*;

verus! {

/// The single counter row of the transactional store.
///
/// The row's identity is constant, so only its value is modeled. The value is
/// non-negative and monotonically non-decreasing: the only mutation is the
/// increment performed inside a committed transaction. The real store
/// serializes conflicting writers, so committed increments compose; here each
/// transaction is a single atomic method call, which models exactly that
/// serialization.
pub struct Store {
    value: u64,
}

impl Store {
    /// The current counter value.
    pub closed spec fn spec_value(&self) -> int {
        self.value as int
    }

    /// A fresh store: all prior rows gone, one row holding zero.
    pub fn new() -> (s: Store)
        ensures
            s.spec_value() == 0,
    {
        Store { value: 0 }
    }

    /// Read the counter value.
    pub fn read(&self) -> (v: u64)
        ensures
            v as int == self.spec_value(),
    {
        self.value
    }

    /// Write the counter value; only the transactional increment reaches
    /// this, so the public surface never lowers the counter.
    fn write(&mut self, v: u64)
        ensures
            final(self).spec_value() == v as int,
    {
        self.value = v;
    }

    /// One committed transaction of the unit of work: read the current value,
    /// add one, write it back. Returns the value just written.
    pub fn transact_increment(&mut self) -> (v: u64)
        requires
            old(self).spec_value() + 1 <= u64::MAX,
        ensures
            final(self).spec_value() == old(self).spec_value() + 1,
            v as int == final(self).spec_value(),
    {
        let cur = self.read();
        let next = cur + 1;
        self.write(next);
        next
    }
}

/// The counter value after `n` serialized committed increments starting
/// from `init`.
pub open spec fn increments_applied(init: int, n: nat) -> int
    decreases n,
{
    if n == 0 {
        init
    } else {
        increments_applied(init, (n - 1) as nat) + 1
    }
}

/// Serialized increments add up: `n` committed increments raise the value
/// by exactly `n`, regardless of which worker committed when.
pub proof fn lemma_increments_add(init: int, n: nat)
    ensures
        increments_applied(init, n) == init + n,
    decreases n,
{
    if n > 0 {
        lemma_increments_add(init, (n - 1) as nat);
    }
}

/// Monotonic correctness: with the counter initialized to zero and `n`
/// workers each committing exactly one increment, the final value is
/// exactly `n`, independent of interleaving.
pub proof fn lemma_monotonic_counter(n: nat)
    ensures
        increments_applied(0, n) == n,
{
    lemma_increments_add(0, n);
}

} // verus!
