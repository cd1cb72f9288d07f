use vstd::prelude::*;

verus! {

/// Number of aborts that can be in flight between a firing watchdog and
/// the landing site of its jump.
pub const HANDOFF_CAPACITY: usize = 10;

/// Identifies one bounded run on its thread: its depth in the context
/// chain and the id that the chain gave it.
#[derive(Debug, Clone, Copy, PartialEq, Eq, Structural)]
pub struct Handle {
    pub level: usize,
    pub id: u64,
}

/// `i` is the first free slot of `slots`.
pub open spec fn first_free(slots: Seq<Option<Handle>>, i: int) -> bool {
    &&& 0 <= i < slots.len()
    &&& slots[i] is None
    &&& forall|j: int| 0 <= j < i ==> slots[j] is Some
}

/// What `claim` does: the first free slot receives `h`, and the jump value
/// is that slot's index plus one (zero is reserved for a fresh capture of
/// the jump point). With no free slot nothing changes and there is no value.
pub open spec fn claim_post(
    before: Seq<Option<Handle>>,
    after: Seq<Option<Handle>>,
    h: Handle,
    r: Option<i32>,
) -> bool {
    match r {
        Some(v) => first_free(before, v - 1) && after == before.update(v - 1, Some(h)),
        None => (forall|i: int| 0 <= i < before.len() ==> before[i] is Some) && after == before,
    }
}

/// What `take` does: a jump value names slot `value - 1`, whose content is
/// handed out and cleared. A value that names no slot changes nothing.
pub open spec fn take_post(
    before: Seq<Option<Handle>>,
    after: Seq<Option<Handle>>,
    value: i32,
    r: Option<Handle>,
) -> bool {
    if 1 <= value <= before.len() {
        r == before[value - 1] && after == before.update(value - 1, None)
    } else {
        r is None && after == before
    }
}

/// Carries the identity of a firing context from the watchdog's signal
/// handler to the landing site of the jump that the handler performs.
pub struct HandoffTable {
    slots: Vec<Option<Handle>>,
}

impl View for HandoffTable {
    type V = Seq<Option<Handle>>;

    closed spec fn view(&self) -> Seq<Option<Handle>> {
        self.slots@
    }
}

impl HandoffTable {
    /// The table has its fixed number of slots.
    pub open spec fn wf(&self) -> bool {
        self@.len() == HANDOFF_CAPACITY
    }

    /// A table with every slot free.
    pub fn new() -> (r: HandoffTable)
        ensures
            r.wf(),
            forall|i: int| 0 <= i < r@.len() ==> r@[i] is None,
    {
        let mut slots: Vec<Option<Handle>> = Vec::new();
        while slots.len() < HANDOFF_CAPACITY
            invariant
                slots@.len() <= HANDOFF_CAPACITY,
                forall|i: int| 0 <= i < slots@.len() ==> slots@[i] is None,
            decreases HANDOFF_CAPACITY - slots@.len(),
        {
            slots.push(None);
        }
        HandoffTable { slots }
    }

    /// Stores `h` in the first free slot and returns the jump value that
    /// names it; `None` when every slot is taken, which callers treat as
    /// fatal.
    pub fn claim(&mut self, h: Handle) -> (r: Option<i32>)
        requires
            old(self).wf(),
        ensures
            final(self).wf(),
            claim_post(old(self)@, final(self)@, h, r),
    {
        let n = self.slots.len();
        let mut i: usize = 0;
        while i < n
            invariant
                n == self.slots@.len(),
                self@ == old(self)@,
                self.wf(),
                i <= n,
                forall|j: int| 0 <= j < i ==> self.slots@[j] is Some,
            decreases n - i,
        {
            if self.slots[i].is_none() {
                self.slots.set(i, Some(h));
                let v: i32 = (i + 1) as i32;
                assert(first_free(old(self)@, v - 1));
                return Some(v);
            }
            i = i + 1;
        }
        None
    }

    /// Hands out and clears the slot that the jump value `value` names.
    pub fn take(&mut self, value: i32) -> (r: Option<Handle>)
        requires
            old(self).wf(),
        ensures
            final(self).wf(),
            take_post(old(self)@, final(self)@, value, r),
    {
        if value < 1 || value as usize > self.slots.len() {
            return None;
        }
        let i = (value - 1) as usize;
        let r = self.slots[i];
        self.slots.set(i, None);
        r
    }
}

/// A claimed slot, taken back by the jump value that the claim returned,
/// yields the very handle that was stored, and leaves the table as it was
/// before the claim: a landing site never sees another abort's context.
pub proof fn law_claim_take_round_trip(
    s0: Seq<Option<Handle>>,
    s1: Seq<Option<Handle>>,
    s2: Seq<Option<Handle>>,
    h: Handle,
    v: i32,
    r: Option<Handle>,
)
    requires
        claim_post(s0, s1, h, Some(v)),
        take_post(s1, s2, v, r),
    ensures
        r == Some(h),
        s2 == s0,
{
    assert(s2 =~= s0);
}

/// Two claims in a row, with no take between them, get different jump
/// values, so that concurrent aborts never share a slot.
pub proof fn law_claims_are_distinct(
    s0: Seq<Option<Handle>>,
    s1: Seq<Option<Handle>>,
    s2: Seq<Option<Handle>>,
    h1: Handle,
    h2: Handle,
    v1: i32,
    v2: i32,
)
    requires
        claim_post(s0, s1, h1, Some(v1)),
        claim_post(s1, s2, h2, Some(v2)),
    ensures
        v1 != v2,
        s2[v1 - 1] == Some(h1),
        s2[v2 - 1] == Some(h2),
{
}

} // verus!
