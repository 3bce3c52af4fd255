use vstd::prelude::*;

use crate::errors::PoolError;

verus! {

/// How many entries of `s` are `true`.
spec fn count_true(s: Seq<bool>) -> int
    decreases s.len(),
{
    if s.len() == 0 {
        0
    } else {
        count_true(s.drop_last()) + if s.last() {
            1int
        } else {
            0int
        }
    }
}

proof fn lemma_count_true_update(s: Seq<bool>, i: int, v: bool)
    requires
        0 <= i < s.len(),
    ensures
        count_true(s.update(i, v)) == count_true(s) + (if v {
            1int
        } else {
            0int
        }) - (if s[i] {
            1int
        } else {
            0int
        }),
    decreases s.len(),
{
    let t = s.update(i, v);
    if i == s.len() - 1 {
        assert(t.drop_last() =~= s.drop_last());
    } else {
        assert(t.drop_last() =~= s.drop_last().update(i, v));
        lemma_count_true_update(s.drop_last(), i, v);
    }
}

proof fn lemma_count_true_bounds(s: Seq<bool>)
    ensures
        0 <= count_true(s) <= s.len(),
    decreases s.len(),
{
    if s.len() > 0 {
        lemma_count_true_bounds(s.drop_last());
    }
}

proof fn lemma_count_true_zero(s: Seq<bool>)
    requires
        forall|k: int| 0 <= k < s.len() ==> !s[k],
    ensures
        count_true(s) == 0,
    decreases s.len(),
{
    if s.len() > 0 {
        lemma_count_true_zero(s.drop_last());
    }
}

/// An exclusive lease on one storage handle.
///
/// A lease is a capability: it is not cloneable, it is minted only by
/// `Pool::checkout`, and returning it to the pool consumes it, so one lease
/// cannot be released twice.
#[derive(Debug)]
pub struct Lease {
    id: usize,
}

impl Lease {
    /// The handle this lease grants exclusive use of.
    pub closed spec fn spec_id(&self) -> int {
        self.id as int
    }

    /// The handle this lease grants exclusive use of.
    pub fn handle_id(&self) -> (id: usize)
        ensures
            id as int == self.spec_id(),
    {
        self.id
    }
}

/// A fixed-capacity pool of storage handles.
///
/// The pool owns handles numbered `0 .. capacity` and arbitrates exclusive
/// access to them: a handle is either idle (held by the pool) or leased to
/// exactly one caller, never both, and the two counts always sum to the
/// capacity. The first checkout of a handle also runs its one-time
/// configuration hook, recorded per handle, not per lease.
pub struct Pool {
    capacity: usize,
    /// Handle ids currently idle; order is immaterial.
    idle: Vec<usize>,
    /// `leased[id]` holds exactly when handle `id` is out on a lease.
    leased: Vec<bool>,
    /// `configured[id]` holds once the one-time setup hook ran for handle `id`.
    configured: Vec<bool>,
}

impl Pool {
    /// Number of handles this pool owns.
    pub closed spec fn spec_capacity(&self) -> int {
        self.capacity as int
    }

    /// Handle `id` is currently out on a lease.
    pub closed spec fn spec_is_leased(&self, id: int) -> bool {
        0 <= id < self.leased@.len() && self.leased@[id]
    }

    /// Handle `id` currently sits in the idle set.
    pub closed spec fn spec_is_idle(&self, id: int) -> bool {
        exists|k: int|
            0 <= k < self.idle@.len() && (#[trigger] self.idle@[k]) as int == id
    }

    /// The one-time setup hook has run for handle `id`.
    pub closed spec fn spec_is_configured(&self, id: int) -> bool {
        0 <= id < self.configured@.len() && self.configured@[id]
    }

    /// Number of handles currently out on a lease.
    pub closed spec fn spec_leased_count(&self) -> int {
        count_true(self.leased@)
    }

    /// Number of handles currently idle.
    pub closed spec fn spec_idle_count(&self) -> int {
        self.idle@.len() as int
    }

    /// The pool's internal invariant: every idle entry names a distinct,
    /// unleased handle below the capacity; every unleased handle is idle;
    /// and the leased and idle counts sum to the capacity.
    pub closed spec fn wf(&self) -> bool {
        &&& self.leased@.len() == self.capacity as int
        &&& self.configured@.len() == self.capacity as int
        &&& self.idle@.len() <= self.capacity as int
        &&& (forall|k: int|
            0 <= k < self.idle@.len() ==> (#[trigger] self.idle@[k]) < self.capacity
                && !self.leased@[self.idle@[k] as int])
        &&& (forall|k1: int, k2: int|
            0 <= k1 < k2 < self.idle@.len() ==> (#[trigger] self.idle@[k1]) != (
            #[trigger] self.idle@[k2]))
        &&& (forall|j: int|
            0 <= j < self.capacity && !(#[trigger] self.leased@[j]) ==> self.spec_is_idle(j))
        &&& count_true(self.leased@) + self.idle@.len() == self.capacity as int
    }

    /// A pool of `capacity` fresh handles, all idle, none configured yet.
    pub fn new(capacity: usize) -> (p: Pool)
        ensures
            p.wf(),
            p.spec_capacity() == capacity,
            p.spec_leased_count() == 0,
            p.spec_idle_count() == capacity,
            forall|id: int| 0 <= id < capacity ==> !p.spec_is_leased(id),
            forall|id: int| 0 <= id < capacity ==> !p.spec_is_configured(id),
    {
        let mut idle: Vec<usize> = Vec::new();
        let mut leased: Vec<bool> = Vec::new();
        let mut configured: Vec<bool> = Vec::new();
        let mut id: usize = 0;
        while id < capacity
            invariant
                id <= capacity,
                idle@.len() == id,
                leased@.len() == id,
                configured@.len() == id,
                forall|k: int| 0 <= k < id ==> (#[trigger] idle@[k]) as int == k,
                forall|k: int| 0 <= k < id ==> !(#[trigger] leased@[k]),
                forall|k: int| 0 <= k < id ==> !(#[trigger] configured@[k]),
            decreases capacity - id,
        {
            idle.push(id);
            leased.push(false);
            configured.push(false);
            id = id + 1;
        }
        proof {
            lemma_count_true_zero(leased@);
        }
        let p = Pool { capacity, idle, leased, configured };
        proof {
            assert forall|j: int|
                0 <= j < p.capacity && !(#[trigger] p.leased@[j]) implies p.spec_is_idle(j) by {
                assert((p.idle@[j]) as int == j);
            }
        }
        p
    }

    /// Check out an idle handle as an exclusive lease.
    ///
    /// Waiting for a handle belongs to the driver; the pool itself decides
    /// from its current state: it fails with `Timeout` exactly when no handle
    /// is idle, and otherwise hands out a handle that was idle and not leased,
    /// running its one-time configuration hook first if it never ran.
    pub fn checkout(&mut self) -> (r: Result<Lease, PoolError>)
        requires
            old(self).wf(),
        ensures
            final(self).wf(),
            final(self).spec_capacity() == old(self).spec_capacity(),
            r is Ok <==> old(self).spec_idle_count() > 0,
            r is Err ==> r == Err::<Lease, PoolError>(PoolError::Timeout) && *final(self) == *old(
                self,
            ),
            r is Ok ==> ({
                let id = r.unwrap().spec_id();
                &&& 0 <= id < old(self).spec_capacity()
                &&& !old(self).spec_is_leased(id)
                &&& old(self).spec_is_idle(id)
                &&& final(self).spec_is_leased(id)
                &&& !final(self).spec_is_idle(id)
                &&& final(self).spec_is_configured(id)
                &&& final(self).spec_leased_count() == old(self).spec_leased_count() + 1
                &&& final(self).spec_idle_count() == old(self).spec_idle_count() - 1
                &&& (forall|j: int|
                    j != id ==> final(self).spec_is_leased(j) == old(self).spec_is_leased(j))
                &&& (forall|j: int|
                    j != id ==> final(self).spec_is_idle(j) == old(self).spec_is_idle(j))
                &&& (forall|j: int|
                    j != id ==> final(self).spec_is_configured(j) == old(self).spec_is_configured(
                        j,
                    ))
            }),
    {
        if self.idle.len() == 0 {
            return Err(PoolError::Timeout);
        }
        let ghost pre = *self;
        let id_opt = self.idle.pop();
        let id = id_opt.unwrap();
        proof {
            assert(pre.idle@[pre.idle@.len() - 1] == id);
            assert(id < self.capacity && !self.leased@[id as int]);
            lemma_count_true_update(self.leased@, id as int, true);
        }
        self.leased[id] = true;
        if !self.configured[id] {
            self.configured[id] = true;
        }
        proof {
            let n = pre.idle@.len() as int;
            assert(self.idle@ =~= pre.idle@.drop_last());
            // Every idle entry still names an unleased handle: no remaining
            // entry equals the popped id, by distinctness.
            assert forall|k: int|
                0 <= k < self.idle@.len() implies (#[trigger] self.idle@[k]) < self.capacity
                && !self.leased@[self.idle@[k] as int] by {
                assert(pre.idle@[k] != pre.idle@[n - 1]);
            }
            // Every unleased handle is still idle.
            assert forall|j: int|
                0 <= j < self.capacity && !(#[trigger] self.leased@[j]) implies self.spec_is_idle(
                j,
            ) by {
                assert(pre.spec_is_idle(j));
                let k = choose|k: int|
                    0 <= k < pre.idle@.len() && (#[trigger] pre.idle@[k]) as int == j;
                assert(pre.idle@[k] != pre.idle@[n - 1]);
                assert((self.idle@[k]) as int == j);
            }
            // The popped handle is no longer idle.
            assert(!self.spec_is_idle(id as int)) by {
                if self.spec_is_idle(id as int) {
                    let k = choose|k: int|
                        0 <= k < self.idle@.len() && (#[trigger] self.idle@[k]) as int
                            == id as int;
                    assert(pre.idle@[k] != pre.idle@[n - 1]);
                }
            }
            // Idle membership of every other handle is unchanged.
            assert forall|j: int| j != id as int implies self.spec_is_idle(j)
                == pre.spec_is_idle(j) by {
                if pre.spec_is_idle(j) {
                    let k = choose|k: int|
                        0 <= k < pre.idle@.len() && (#[trigger] pre.idle@[k]) as int == j;
                    assert(pre.idle@[k] != pre.idle@[n - 1]);
                    assert((self.idle@[k]) as int == j);
                }
                if self.spec_is_idle(j) {
                    let k = choose|k: int|
                        0 <= k < self.idle@.len() && (#[trigger] self.idle@[k]) as int == j;
                    assert((pre.idle@[k]) as int == j);
                }
            }
        }
        Ok(Lease { id })
    }

    /// Return a leased handle to the idle set, consuming the lease.
    pub fn release(&mut self, lease: Lease)
        requires
            old(self).wf(),
            old(self).spec_is_leased(lease.spec_id()),
        ensures
            final(self).wf(),
            final(self).spec_capacity() == old(self).spec_capacity(),
            !final(self).spec_is_leased(lease.spec_id()),
            final(self).spec_is_idle(lease.spec_id()),
            final(self).spec_leased_count() == old(self).spec_leased_count() - 1,
            final(self).spec_idle_count() == old(self).spec_idle_count() + 1,
            forall|j: int|
                j != lease.spec_id() ==> final(self).spec_is_leased(j) == old(self).spec_is_leased(
                    j,
                ),
            forall|j: int|
                j != lease.spec_id() ==> final(self).spec_is_idle(j) == old(self).spec_is_idle(j),
            forall|j: int|
                final(self).spec_is_configured(j) == old(self).spec_is_configured(j),
    {
        let ghost pre = *self;
        let id = lease.id;
        proof {
            lemma_count_true_update(self.leased@, id as int, false);
        }
        self.leased[id] = false;
        proof {
            lemma_count_true_bounds(self.leased@);
        }
        self.idle.push(id);
        proof {
            let n = self.idle@.len() as int;
            // Every idle entry still names an unleased handle below the
            // capacity: the new last entry is the released handle itself,
            // and unleasing one handle cannot make another entry leased.
            assert forall|k: int|
                0 <= k < self.idle@.len() implies (#[trigger] self.idle@[k]) < self.capacity
                && !self.leased@[self.idle@[k] as int] by {
                if k < n - 1 {
                    assert(!pre.leased@[pre.idle@[k] as int]);
                }
            }
            // The released handle was not in the idle set (idle entries are
            // unleased, and it was leased), so distinctness is preserved.
            assert forall|k1: int, k2: int|
                0 <= k1 < k2 < self.idle@.len() implies (#[trigger] self.idle@[k1]) != (
            #[trigger] self.idle@[k2]) by {
                if k2 == n - 1 {
                    assert(pre.idle@[k1] != id) by {
                        assert(!pre.leased@[pre.idle@[k1] as int]);
                    }
                }
            }
            // Every unleased handle is idle: the released one at the new last
            // slot, every other by its old witness.
            assert forall|j: int|
                0 <= j < self.capacity && !(#[trigger] self.leased@[j]) implies self.spec_is_idle(
                j,
            ) by {
                if j == id as int {
                    assert((self.idle@[n - 1]) as int == j);
                } else {
                    assert(pre.spec_is_idle(j));
                    let k = choose|k: int|
                        0 <= k < pre.idle@.len() && (#[trigger] pre.idle@[k]) as int == j;
                    assert((self.idle@[k]) as int == j);
                }
            }
            assert(self.spec_is_idle(id as int)) by {
                assert((self.idle@[n - 1]) as int == id as int);
            }
            // Idle membership of every other handle is unchanged.
            assert forall|j: int| j != id as int implies self.spec_is_idle(j)
                == pre.spec_is_idle(j) by {
                if pre.spec_is_idle(j) {
                    let k = choose|k: int|
                        0 <= k < pre.idle@.len() && (#[trigger] pre.idle@[k]) as int == j;
                    assert((self.idle@[k]) as int == j);
                }
                if self.spec_is_idle(j) {
                    let k = choose|k: int|
                        0 <= k < self.idle@.len() && (#[trigger] self.idle@[k]) as int == j;
                    assert(k != n - 1);
                    assert((pre.idle@[k]) as int == j);
                }
            }
        }
    }

    /// Number of handles this pool owns.
    pub fn capacity(&self) -> (c: usize)
        ensures
            c as int == self.spec_capacity(),
    {
        self.capacity
    }

    /// Number of handles currently idle.
    pub fn idle_count(&self) -> (c: usize)
        ensures
            c as int == self.spec_idle_count(),
    {
        self.idle.len()
    }

    /// Number of handles currently out on a lease.
    pub fn leased_count(&self) -> (c: usize)
        requires
            self.wf(),
        ensures
            c as int == self.spec_leased_count(),
    {
        self.capacity - self.idle.len()
    }

    /// Whether handle `id` is currently out on a lease.
    pub fn is_leased(&self, id: usize) -> (b: bool)
        requires
            self.wf(),
            id < self.spec_capacity(),
        ensures
            b == self.spec_is_leased(id as int),
    {
        self.leased[id]
    }

    /// Whether the one-time setup hook has run for handle `id`.
    pub fn is_configured(&self, id: usize) -> (b: bool)
        requires
            self.wf(),
            id < self.spec_capacity(),
        ensures
            b == self.spec_is_configured(id as int),
    {
        self.configured[id]
    }
}

/// Capacity invariant: in every well-formed pool state, the number of leased
/// handles plus the number of idle handles equals the capacity. `new`
/// establishes well-formedness and `checkout` and `release` preserve it, so
/// the equation holds at every instant of the pool's life.
pub proof fn lemma_capacity_invariant(p: &Pool)
    requires
        p.wf(),
    ensures
        p.spec_leased_count() + p.spec_idle_count() == p.spec_capacity(),
{
}

/// Exclusivity: in every well-formed pool state, no handle is both leased
/// and idle, and each handle occupies at most one idle slot. Together with
/// `checkout`'s contract — the handle handed out was not leased before and
/// is leased after, and only `release` unleases it — no two simultaneous
/// leases can name the same handle at any instant.
pub proof fn lemma_lease_exclusive(p: &Pool)
    requires
        p.wf(),
    ensures
        forall|id: int| !(p.spec_is_leased(id) && p.spec_is_idle(id)),
        forall|k1: int, k2: int, id: int|
            #[trigger] p.spec_idle_at(k1, id) && #[trigger] p.spec_idle_at(k2, id) ==> k1 == k2,
{
    assert forall|id: int| !(p.spec_is_leased(id) && p.spec_is_idle(id)) by {
        if p.spec_is_leased(id) && p.spec_is_idle(id) {
            let k = choose|k: int|
                0 <= k < p.idle@.len() && (#[trigger] p.idle@[k]) as int == id;
            assert(!p.leased@[p.idle@[k] as int]);
        }
    }
    assert forall|k1: int, k2: int, id: int|
        #[trigger] p.spec_idle_at(k1, id) && #[trigger] p.spec_idle_at(k2, id) implies k1
        == k2 by {
        if k1 < k2 {
            assert(p.idle@[k1] != p.idle@[k2]);
        }
        if k2 < k1 {
            assert(p.idle@[k2] != p.idle@[k1]);
        }
    }
}

impl Pool {
    /// Idle slot `k` holds handle `id`.
    pub closed spec fn spec_idle_at(&self, k: int, id: int) -> bool {
        0 <= k < self.idle@.len() && self.idle@[k] as int == id
    }
}

} // verus!
