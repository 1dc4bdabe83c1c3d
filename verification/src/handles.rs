//! Ownership model of the boxed values that cross the boundary as owning
//! pointers. Every boxed value is tracked as a live handle; a consuming method
//! and the destructor both release the handle, and a released handle can never
//! be released again, so every allocation is freed exactly once.

use vstd::prelude::*;

verus! {

/// Tracks the owning pointers a bridge has handed out: the live handles and
/// counters of allocations and releases.
pub struct HandleTable {
    live: Vec<u64>,
    allocated: u64,
    freed: u64,
}

impl HandleTable {
    /// The handles currently owned by the caller side.
    pub closed spec fn live_handles(&self) -> Seq<u64> {
        self.live@
    }

    /// How many boxed values were handed out so far.
    pub closed spec fn allocations(&self) -> u64 {
        self.allocated
    }

    /// How many boxed values were released so far.
    pub closed spec fn releases(&self) -> u64 {
        self.freed
    }

    /// Well-formedness: live handles are distinct, each was handed out, and
    /// every allocation is either still live or was released exactly once.
    pub closed spec fn wf(&self) -> bool {
        &&& forall|i: int, j: int|
            0 <= i < j < self.live@.len() ==> self.live@[i] != self.live@[j]
        &&& forall|i: int| 0 <= i < self.live@.len() ==> self.live@[i] < self.allocated
        &&& self.allocated == self.freed + self.live@.len()
    }

    /// An empty table: nothing allocated, nothing live.
    pub fn new() -> (t: HandleTable)
        ensures
            t.wf(),
            t.live_handles().len() == 0,
            t.allocations() == 0,
            t.releases() == 0,
    {
        HandleTable { live: Vec::new(), allocated: 0, freed: 0 }
    }

    /// Boxes a value for the boundary: hands out a fresh owning handle.
    pub fn box_value(&mut self) -> (h: u64)
        requires
            old(self).wf(),
            old(self).allocations() < u64::MAX,
        ensures
            final(self).wf(),
            !old(self).live_handles().contains(h),
            final(self).live_handles() == old(self).live_handles().push(h),
            final(self).allocations() == old(self).allocations() + 1,
            final(self).releases() == old(self).releases(),
    {
        let h = self.allocated;
        self.live.push(h);
        self.allocated = self.allocated + 1;
        proof {
            assert(forall|i: int|
                0 <= i < old(self).live@.len() ==> old(self).live@[i] != h);
        }
        h
    }

    /// How many boxed values were handed out so far.
    pub fn allocation_count(&self) -> (n: u64)
        ensures
            n == self.allocations(),
    {
        self.allocated
    }

    /// How many boxed values were released so far.
    pub fn release_count(&self) -> (n: u64)
        ensures
            n == self.releases(),
    {
        self.freed
    }

    /// Whether the given handle is still owned by the caller side.
    pub fn is_live(&self, h: u64) -> (r: bool)
        ensures
            r == self.live_handles().contains(h),
    {
        let mut i: usize = 0;
        while i < self.live.len()
            invariant
                0 <= i <= self.live@.len(),
                forall|k: int| 0 <= k < i ==> self.live@[k] != h,
            decreases self.live@.len() - i,
        {
            if self.live[i] == h {
                return true;
            }
            i += 1;
        }
        false
    }

    /// Releases a live handle: after the call the handle is dead, every other
    /// handle is untouched, and the release is counted. Both the consuming
    /// method path and the destructor export go through this single point, so
    /// a handle can be unboxed at most once.
    pub fn release(&mut self, h: u64)
        requires
            old(self).wf(),
            old(self).live_handles().contains(h),
        ensures
            final(self).wf(),
            !final(self).live_handles().contains(h),
            forall|x: u64| x != h ==>
                final(self).live_handles().contains(x) == old(self).live_handles().contains(x),
            final(self).live_handles().len() == old(self).live_handles().len() - 1,
            final(self).allocations() == old(self).allocations(),
            final(self).releases() == old(self).releases() + 1,
    {
        let ghost orig = self.live@;
        let mut i: usize = 0;
        while i < self.live.len()
            invariant
                0 <= i <= self.live@.len(),
                self.live@ == orig,
                orig == old(self).live@,
                self.allocated == old(self).allocated,
                self.freed == old(self).freed,
                self.allocated == self.freed + orig.len(),
                forall|a: int, b: int| 0 <= a < b < orig.len() ==> orig[a] != orig[b],
                forall|a: int| 0 <= a < orig.len() ==> orig[a] < self.allocated,
                orig.contains(h),
                forall|k: int| 0 <= k < i ==> orig[k] != h,
            decreases self.live@.len() - i,
        {
            if self.live[i] == h {
                self.live.remove(i);
                proof {
                    let now = self.live@;
                    assert(now =~= orig.subrange(0, i as int)
                        + orig.subrange(i as int + 1, orig.len() as int));
                    assert(forall|a: int| 0 <= a < i ==> now[a] == orig[a]);
                    assert(forall|a: int| i <= a < now.len() ==> now[a] == orig[a + 1]);
                    assert forall|x: u64| x != h implies
                        now.contains(x) == orig.contains(x) by {
                        if orig.contains(x) {
                            let k = choose|k: int| 0 <= k < orig.len() && orig[k] == x;
                            if k < i {
                                assert(now[k] == x);
                            } else {
                                assert(orig[k] != h);
                                assert(k > i);
                                assert(now[k - 1] == x);
                            }
                        }
                        if now.contains(x) {
                            let k = choose|k: int| 0 <= k < now.len() && now[k] == x;
                            if k < i {
                                assert(orig[k] == x);
                            } else {
                                assert(orig[k + 1] == x);
                            }
                        }
                    }
                    assert(!now.contains(h)) by {
                        if now.contains(h) {
                            let k = choose|k: int| 0 <= k < now.len() && now[k] == h;
                            if k < i {
                                assert(orig[k] == h);
                                assert(false);
                            } else {
                                assert(orig[k + 1] == h);
                                assert(orig[i as int] == h);
                                assert(i < k + 1 < orig.len());
                                assert(false);
                            }
                        }
                    }
                }
                self.freed = self.freed + 1;
                return;
            }
            i += 1;
        }
        proof {
            let k = choose|k: int| 0 <= k < orig.len() && orig[k] == h;
            assert(false);
        }
    }

    /// A table with no live handle has released exactly as many values as it
    /// allocated: one release per allocation, never two.
    pub proof fn lemma_balanced(&self)
        requires
            self.wf(),
            self.live_handles().len() == 0,
        ensures
            self.releases() == self.allocations(),
    {
    }
}

/// A well-formed table never releases more values than it allocated.
pub proof fn lemma_releases_bounded(t: &HandleTable)
    requires
        t.wf(),
    ensures
        t.releases() <= t.allocations(),
{
}

} // verus!
