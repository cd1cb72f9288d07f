use vstd::prelude::*;

verus! {

/// Number of live allocations that one context can track at once.
pub const TRACKER_CAPACITY: usize = 100;

/// The addresses of `slots` that hold a live allocation, in slot order.
pub open spec fn live(slots: Seq<usize>) -> Seq<usize> {
    slots.filter(|p: usize| p != 0)
}

/// `i` is the first slot of `slots` that holds `v`.
pub open spec fn first_slot_of(slots: Seq<usize>, v: usize, i: int) -> bool {
    &&& 0 <= i < slots.len()
    &&& slots[i] == v
    &&& forall|j: int| 0 <= j < i ==> slots[j] != v
}

/// What `track` does: `ptr` goes into the first free slot, if there is one.
pub open spec fn track_post(before: Seq<usize>, after: Seq<usize>, ptr: usize, r: bool) -> bool {
    &&& r == exists|i: int| first_slot_of(before, 0, i)
    &&& r ==> forall|i: int| first_slot_of(before, 0, i) ==> after == before.update(i, ptr)
    &&& !r ==> after == before
}

/// What `free` does: the first slot that holds `ptr`, if any, becomes free.
pub open spec fn free_post(before: Seq<usize>, after: Seq<usize>, ptr: usize) -> bool {
    &&& forall|i: int| first_slot_of(before, ptr, i) ==> after == before.update(i, 0)
    &&& !before.contains(ptr) ==> after == before
}

/// A ledger of the allocations made while one context is current.
///
/// Each slot holds the address of a live allocation, or 0 when free.
pub struct MemTracker {
    allocations: Vec<usize>,
}

impl View for MemTracker {
    type V = Seq<usize>;

    closed spec fn view(&self) -> Seq<usize> {
        self.allocations@
    }
}

impl MemTracker {
    /// The tracker has its fixed number of slots.
    pub open spec fn wf(&self) -> bool {
        self@.len() == TRACKER_CAPACITY
    }

    /// An empty tracker.
    pub fn new() -> (r: MemTracker)
        ensures
            r.wf(),
            forall|i: int| 0 <= i < r@.len() ==> r@[i] == 0,
            live(r@) == Seq::<usize>::empty(),
    {
        let mut allocations: Vec<usize> = Vec::new();
        while allocations.len() < TRACKER_CAPACITY
            invariant
                allocations@.len() <= TRACKER_CAPACITY,
                forall|i: int| 0 <= i < allocations@.len() ==> allocations@[i] == 0,
            decreases TRACKER_CAPACITY - allocations@.len(),
        {
            allocations.push(0);
        }
        let r = MemTracker { allocations };
        proof {
            lemma_live_all_free(r@);
        }
        r
    }

    /// Records a newly made allocation in the first free slot.
    ///
    /// Returns false, leaving the ledger as it was, when every slot is taken:
    /// the allocation can then not be reclaimed, which callers treat as fatal.
    pub fn track(&mut self, ptr: usize) -> (r: bool)
        requires
            old(self).wf(),
        ensures
            final(self).wf(),
            track_post(old(self)@, final(self)@, ptr, r),
    {
        let n = self.allocations.len();
        let mut i: usize = 0;
        while i < n
            invariant
                n == self.allocations@.len(),
                self@ == old(self)@,
                self.wf(),
                i <= n,
                forall|j: int| 0 <= j < i ==> self.allocations@[j] != 0,
            decreases n - i,
        {
            if self.allocations[i] == 0 {
                self.allocations.set(i, ptr);
                proof {
                    assert(first_slot_of(old(self)@, 0, i as int));
                    assert forall|k: int| first_slot_of(old(self)@, 0, k) implies k == i by {
                        if k < i {
                        } else if k > i {
                            assert(old(self)@[i as int] == 0);
                        }
                    }
                }
                return true;
            }
            i = i + 1;
        }
        false
    }

    /// Forgets the allocation at `ptr`, if this ledger holds it.
    ///
    /// Addresses that were never tracked here are ignored.
    pub fn free(&mut self, ptr: usize)
        requires
            old(self).wf(),
        ensures
            final(self).wf(),
            free_post(old(self)@, final(self)@, ptr),
    {
        let n = self.allocations.len();
        let mut i: usize = 0;
        while i < n
            invariant
                n == self.allocations@.len(),
                self@ == old(self)@,
                self.wf(),
                i <= n,
                forall|j: int| 0 <= j < i ==> self.allocations@[j] != ptr,
            decreases n - i,
        {
            if self.allocations[i] == ptr {
                self.allocations.set(i, 0);
                proof {
                    assert forall|k: int| first_slot_of(old(self)@, ptr, k) implies k == i by {
                        if k > i {
                            assert(old(self)@[i as int] == ptr);
                        }
                    }
                }
                return;
            }
            i = i + 1;
        }
    }

    /// Empties the ledger and hands back every address it still held, in
    /// slot order, for the caller to release.
    pub fn free_all(&mut self) -> (r: Vec<usize>)
        requires
            old(self).wf(),
        ensures
            final(self).wf(),
            r@ == live(old(self)@),
            forall|i: int| 0 <= i < final(self)@.len() ==> final(self)@[i] == 0,
            live(final(self)@) == Seq::<usize>::empty(),
    {
        let ghost start = self@;
        let mut r: Vec<usize> = Vec::new();
        let n = self.allocations.len();
        let mut i: usize = 0;
        while i < n
            invariant
                n == self.allocations@.len(),
                n == start.len(),
                self.wf(),
                i <= n,
                forall|j: int| 0 <= j < i ==> self.allocations@[j] == 0,
                forall|j: int| i <= j < n ==> self.allocations@[j] == start[j],
                r@ == live(start.subrange(0, i as int)),
            decreases n - i,
        {
            let p = self.allocations[i];
            proof {
                let s = start.subrange(0, i as int + 1);
                assert(s.drop_last() == start.subrange(0, i as int));
                reveal(Seq::filter);
            }
            if p != 0 {
                r.push(p);
            }
            self.allocations.set(i, 0);
            i = i + 1;
        }
        proof {
            assert(start.subrange(0, n as int) == start);
            lemma_live_all_free(self@);
        }
        r
    }
}

impl Default for MemTracker {
    fn default() -> (r: MemTracker)
        ensures
            r.wf(),
            live(r@) == Seq::<usize>::empty(),
    {
        MemTracker::new()
    }
}

/// A ledger whose slots are all free holds no live allocation.
proof fn lemma_live_all_free(s: Seq<usize>)
    requires
        forall|i: int| 0 <= i < s.len() ==> s[i] == 0,
    ensures
        live(s) == Seq::<usize>::empty(),
    decreases s.len(),
{
    reveal(Seq::filter);
    if s.len() > 0 {
        lemma_live_all_free(s.drop_last());
    }
}

} // verus!
