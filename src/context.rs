use crate::handoff::{claim_post, take_post, Handle, HandoffTable};
use crate::mem::{free_post, live, track_post, MemTracker, TRACKER_CAPACITY};
use crate::watchdog::{expiry_of, Watchdog, NANOS_PER_SEC};
use vstd::prelude::*;

verus! {

/// Largest id that a context can receive; ids travel in a timer signal's
/// pointer-sized value.
pub const MAX_CONTEXT_ID: u64 = 0x7fff_ffff_ffff_ffff;

/// The bookkeeping of one bounded run.
pub struct TimeoutContext {
    id: u64,
    mem: MemTracker,
    watchdog: Watchdog,
}

/// The mathematical state of a thread's context chain.
pub struct ChainView {
    /// The ids of the active contexts, outermost first.
    pub ids: Seq<u64>,
    /// Each active context's allocation ledger, outermost first.
    pub ledgers: Seq<Seq<usize>>,
    /// The id that the next context will receive.
    pub next_id: u64,
}

/// A ledger with no live allocation.
pub open spec fn empty_ledger() -> Seq<usize> {
    Seq::new(TRACKER_CAPACITY as nat, |i: int| 0usize)
}

/// The addresses that ending the contexts with ledgers `ls` gives back,
/// innermost context first.
pub open spec fn reclaimed(ls: Seq<Seq<usize>>) -> Seq<usize>
    decreases ls.len(),
{
    if ls.len() == 0 {
        Seq::empty()
    } else {
        live(ls.last()) + reclaimed(ls.drop_last())
    }
}

/// `h` names an active context of the chain.
pub open spec fn is_live(m: ChainView, h: Handle) -> bool {
    h.level < m.ids.len() && m.ids[h.level as int] == h.id
}

/// `h` names the innermost active context of the chain.
pub open spec fn is_current(m: ChainView, h: Handle) -> bool {
    is_live(m, h) && h.level + 1 == m.ids.len()
}

/// What `enter` does when it succeeds: a context with the next id and an
/// empty ledger becomes the innermost one.
pub open spec fn entered(before: ChainView, after: ChainView, h: Handle) -> bool {
    &&& h.level == before.ids.len()
    &&& h.id == before.next_id
    &&& after.ids == before.ids.push(before.next_id)
    &&& after.ledgers == before.ledgers.push(empty_ledger())
    &&& after.next_id == before.next_id + 1
}

/// What `complete` does: the innermost context `h` ends normally and its
/// ledger is given back.
pub open spec fn completed(before: ChainView, after: ChainView, h: Handle, r: Option<Seq<usize>>) -> bool {
    if is_current(before, h) {
        &&& r == Some(live(before.ledgers.last()))
        &&& after.ids == before.ids.drop_last()
        &&& after.ledgers == before.ledgers.drop_last()
        &&& after.next_id == before.next_id
    } else {
        r is None && after == before
    }
}

/// What `abort` does: context `h` and every context inside it end, and all
/// of their ledgers are given back; `h`'s outer context is current again.
pub open spec fn aborted(before: ChainView, after: ChainView, h: Handle, r: Option<Seq<usize>>) -> bool {
    if is_live(before, h) {
        &&& r == Some(reclaimed(before.ledgers.subrange(h.level as int, before.ledgers.len() as int)))
        &&& after.ids == before.ids.subrange(0, h.level as int)
        &&& after.ledgers == before.ledgers.subrange(0, h.level as int)
        &&& after.next_id == before.next_id
    } else {
        r is None && after == before
    }
}

/// The addresses in an optional list, as a sequence.
pub open spec fn seq_of(r: Option<Vec<usize>>) -> Option<Seq<usize>> {
    match r {
        Some(v) => Some(v@),
        None => None,
    }
}

/// The handle that the jump value `value` finds in the hand-off table.
pub open spec fn landed(slots: Seq<Option<Handle>>, value: i32) -> Option<Handle> {
    if 1 <= value <= slots.len() {
        slots[value - 1]
    } else {
        None
    }
}

/// What a watchdog's signal handler is to do.
#[derive(Debug, Clone, Copy, PartialEq, Eq, Structural)]
pub enum FireAction {
    /// Jump to the landing site of the run at `level`, passing `value`.
    Jump { level: usize, value: i32 },
    /// The signal belongs to no active context: do nothing.
    Ignore,
    /// No hand-off slot is free: the abort cannot be carried out safely.
    Exhausted,
}

/// What `fire` decides for a signal carrying `token`: the active context
/// with that id is aborted through a newly claimed hand-off slot.
pub open spec fn fired(
    m: ChainView,
    before: Seq<Option<Handle>>,
    after: Seq<Option<Handle>>,
    token: isize,
    r: FireAction,
) -> bool {
    match r {
        FireAction::Jump { level, value } => {
            &&& 0 <= token
            &&& level < m.ids.len()
            &&& m.ids[level as int] == token as u64
            &&& claim_post(before, after, Handle { level, id: token as u64 }, Some(value))
        },
        FireAction::Ignore => {
            &&& token < 0 || forall|i: int| 0 <= i < m.ids.len() ==> m.ids[i] != token as u64
            &&& after == before
        },
        FireAction::Exhausted => {
            &&& 0 <= token
            &&& exists|i: int| 0 <= i < m.ids.len() && m.ids[i] == token as u64
            &&& forall|i: int| 0 <= i < before.len() ==> before[i] is Some
            &&& after == before
        },
    }
}

/// The chain of active bounded runs on one thread, outermost first.
///
/// Each run pushes a context when it begins and pops it when it ends; an
/// abort pops the firing context together with every context nested in it.
pub struct ContextChain {
    contexts: Vec<TimeoutContext>,
    next_id: u64,
}

impl View for ContextChain {
    type V = ChainView;

    closed spec fn view(&self) -> ChainView {
        ChainView {
            ids: self.contexts@.map_values(|c: TimeoutContext| c.id),
            ledgers: self.contexts@.map_values(|c: TimeoutContext| c.mem@),
            next_id: self.next_id,
        }
    }
}

impl ContextChain {
    /// Ids grow from the outermost context inwards and stay below the next
    /// one; each ledger has its fixed size; each watchdog signals its
    /// context's id.
    pub closed spec fn wf(&self) -> bool {
        &&& self.next_id <= MAX_CONTEXT_ID
        &&& forall|i: int| 0 <= i < self.contexts@.len() ==> {
            &&& self.contexts@[i].mem.wf()
            &&& self.contexts@[i].id < self.next_id
            &&& self.contexts@[i].watchdog.token_spec() == self.contexts@[i].id as isize
        }
        &&& forall|i: int, j: int|
            0 <= i < j < self.contexts@.len() ==> self.contexts@[i].id < self.contexts@[j].id
    }

    proof fn lemma_view_len(&self)
        ensures
            self@.ids.len() == self.contexts@.len(),
            self@.ledgers.len() == self.contexts@.len(),
    {
    }

    /// The expiry pending on each active context's watchdog, outermost
    /// first.
    pub closed spec fn pending(&self) -> Seq<Option<(i64, i64)>> {
        self.contexts@.map_values(|c: TimeoutContext| c.watchdog.pending_spec())
    }

    /// A chain has one ledger for each active context.
    pub proof fn lemma_one_ledger_each(&self)
        ensures
            self@.ledgers.len() == self@.ids.len(),
    {
    }

    /// A chain with no active context.
    pub fn new() -> (r: ContextChain)
        ensures
            r.wf(),
            r@.ids.len() == 0,
            r@.ledgers.len() == 0,
            r@.next_id == 1,
    {
        ContextChain { contexts: Vec::new(), next_id: 1 }
    }

    /// Number of active contexts.
    pub fn depth(&self) -> (r: usize)
        requires
            self.wf(),
        ensures
            r == self@.ids.len(),
    {
        self.contexts.len()
    }

    /// The innermost active context, if any.
    pub fn current(&self) -> (r: Option<Handle>)
        requires
            self.wf(),
        ensures
            self@.ids.len() == 0 ==> r is None,
            self@.ids.len() > 0 ==> r == Some(
                Handle { level: (self@.ids.len() - 1) as usize, id: self@.ids.last() },
            ),
    {
        let n = self.contexts.len();
        if n == 0 {
            None
        } else {
            Some(Handle { level: n - 1, id: self.contexts[n - 1].id })
        }
    }

    /// Whether `h` names an active context: a watchdog whose context has
    /// ended must not abort anything.
    pub fn is_live(&self, h: Handle) -> (r: bool)
        requires
            self.wf(),
        ensures
            r == is_live(self@, h),
    {
        h.level < self.contexts.len() && self.contexts[h.level].id == h.id
    }

    /// Begins a bounded run: a new context, with an empty ledger and a
    /// disarmed watchdog that signals its id, becomes the innermost one.
    ///
    /// Returns `None`, leaving the chain as it was, when ids are used up or
    /// the system refuses a timer.
    pub fn enter(&mut self) -> (r: Option<Handle>)
        requires
            old(self).wf(),
        ensures
            final(self).wf(),
            r matches Some(h) ==> entered(old(self)@, final(self)@, h),
            r is Some ==> final(self).pending() == old(self).pending().push(None),
            r is None ==> final(self)@ == old(self)@ && final(self).pending() == old(self).pending(),
            old(self)@.next_id == MAX_CONTEXT_ID ==> r is None,
    {
        if self.next_id >= MAX_CONTEXT_ID {
            return None;
        }
        let id = self.next_id;
        let watchdog = match Watchdog::new(id as isize) {
            Some(w) => w,
            None => return None,
        };
        let level = self.contexts.len();
        let mem = MemTracker::new();
        assert(mem@ =~= empty_ledger());
        self.contexts.push(TimeoutContext { id, mem, watchdog });
        self.next_id = id + 1;
        assert(self@.ids =~= old(self)@.ids.push(id));
        assert(self@.ledgers =~= old(self)@.ledgers.push(empty_ledger()));
        assert(self.pending() =~= old(self).pending().push(None));
        Some(Handle { level, id })
    }

    /// Arms the watchdog of the current run `h` to fire after `secs` seconds
    /// and `nanos` nanoseconds of thread CPU time. A zero quota, or a handle
    /// that is not the current run, arms nothing. Returns whether it armed.
    pub fn arm(&mut self, h: Handle, secs: u64, nanos: u32) -> (r: bool)
        requires
            old(self).wf(),
            nanos < NANOS_PER_SEC,
        ensures
            final(self).wf(),
            final(self)@ == old(self)@,
            r ==> is_current(old(self)@, h),
            expiry_of(secs, nanos) is None ==> !r,
            r ==> final(self).pending() == old(self).pending().update(
                h.level as int,
                expiry_of(secs, nanos),
            ),
            !r ==> final(self).pending() == old(self).pending(),
    {
        let n = self.contexts.len();
        if n == 0 || h.level != n - 1 || self.contexts[n - 1].id != h.id {
            return false;
        }
        let mut c = match self.contexts.pop() {
            Some(c) => c,
            None => return false,
        };
        let r = c.watchdog.arm(secs, nanos);
        self.contexts.push(c);
        assert(self.contexts@ =~= old(self).contexts@.drop_last().push(c));
        assert(self@.ids =~= old(self)@.ids);
        assert(self@.ledgers =~= old(self)@.ledgers);
        if r {
            assert(self.pending() =~= old(self).pending().update(h.level as int, expiry_of(secs, nanos)));
        } else {
            assert(self.pending() =~= old(self).pending());
        }
        r
    }

    /// Records an allocation in the current run's ledger. With no run
    /// active there is nothing to record.
    ///
    /// Returns false only when the current ledger is full.
    pub fn track(&mut self, ptr: usize) -> (r: bool)
        requires
            old(self).wf(),
        ensures
            final(self).wf(),
            final(self)@.ids == old(self)@.ids,
            final(self)@.next_id == old(self)@.next_id,
            final(self).pending() == old(self).pending(),
            old(self)@.ids.len() == 0 ==> r && final(self)@ == old(self)@,
            old(self)@.ids.len() > 0 ==> {
                &&& final(self)@.ledgers.len() == old(self)@.ledgers.len()
                &&& final(self)@.ledgers.drop_last() == old(self)@.ledgers.drop_last()
                &&& track_post(old(self)@.ledgers.last(), final(self)@.ledgers.last(), ptr, r)
            },
    {
        let mut c = match self.contexts.pop() {
            Some(c) => c,
            None => return true,
        };
        let r = c.mem.track(ptr);
        self.contexts.push(c);
        proof {
            assert(self.contexts@ =~= old(self).contexts@.drop_last().push(c));
            assert(self@.ids =~= old(self)@.ids);
            assert(self@.ledgers.drop_last() =~= old(self)@.ledgers.drop_last());
            assert(self.pending() =~= old(self).pending());
        }
        r
    }

    /// Forgets a freed allocation in the current run's ledger, if it is
    /// there. With no run active there is nothing to forget.
    pub fn untrack(&mut self, ptr: usize)
        requires
            old(self).wf(),
        ensures
            final(self).wf(),
            final(self)@.ids == old(self)@.ids,
            final(self)@.next_id == old(self)@.next_id,
            final(self).pending() == old(self).pending(),
            old(self)@.ids.len() == 0 ==> final(self)@ == old(self)@,
            old(self)@.ids.len() > 0 ==> {
                &&& final(self)@.ledgers.len() == old(self)@.ledgers.len()
                &&& final(self)@.ledgers.drop_last() == old(self)@.ledgers.drop_last()
                &&& free_post(old(self)@.ledgers.last(), final(self)@.ledgers.last(), ptr)
            },
    {
        let mut c = match self.contexts.pop() {
            Some(c) => c,
            None => return ,
        };
        c.mem.free(ptr);
        self.contexts.push(c);
        proof {
            assert(self.contexts@ =~= old(self).contexts@.drop_last().push(c));
            assert(self@.ids =~= old(self)@.ids);
            assert(self@.ledgers.drop_last() =~= old(self)@.ledgers.drop_last());
            assert(self.pending() =~= old(self).pending());
        }
    }

    /// Ends the current run `h` normally: its watchdog is disarmed and
    /// deleted, its context popped, and the allocations still in its ledger
    /// handed back for release. `None`, with nothing changed, when `h` is
    /// not the current run.
    pub fn complete(&mut self, h: Handle) -> (r: Option<Vec<usize>>)
        requires
            old(self).wf(),
        ensures
            final(self).wf(),
            completed(old(self)@, final(self)@, h, seq_of(r)),
            final(self).pending() == old(self).pending().subrange(0, final(self)@.ids.len() as int),
    {
        let n = self.contexts.len();
        if n == 0 || h.level != n - 1 || self.contexts[n - 1].id != h.id {
            assert(self.pending() =~= old(self).pending().subrange(0, self@.ids.len() as int));
            return None;
        }
        let c = match self.contexts.pop() {
            Some(c) => c,
            None => return None,
        };
        let TimeoutContext { id, mut mem, mut watchdog } = c;
        let _ = watchdog.disarm();
        let freed = mem.free_all();
        assert(self@.ids =~= old(self)@.ids.drop_last());
        assert(self@.ledgers =~= old(self)@.ledgers.drop_last());
        assert(self.pending() =~= old(self).pending().subrange(0, self@.ids.len() as int));
        Some(freed)
    }

    /// Ends run `h` by force, together with every run nested in it: their
    /// watchdogs are disarmed and deleted, their contexts popped, and the
    /// allocations of all their ledgers handed back for release. `h`'s outer
    /// run is current again. `None`, with nothing changed, when `h` is not
    /// an active run.
    pub fn abort(&mut self, h: Handle) -> (r: Option<Vec<usize>>)
        requires
            old(self).wf(),
        ensures
            final(self).wf(),
            aborted(old(self)@, final(self)@, h, seq_of(r)),
            final(self).pending() == old(self).pending().subrange(0, final(self)@.ids.len() as int),
    {
        if !self.is_live(h) {
            assert(self.pending() =~= old(self).pending().subrange(0, self@.ids.len() as int));
            return None;
        }
        let ghost before = self@;
        let ghost n0 = self.contexts@.len();
        assert(self.pending() =~= old(self).pending().subrange(0, n0 as int));
        let mut r: Vec<usize> = Vec::new();
        proof {
            self.lemma_view_len();
            assert(before.ledgers.subrange(h.level as int, n0 as int) =~= before.ledgers.subrange(
                h.level as int,
                self.contexts@.len() as int,
            ));
            assert(r@ + reclaimed(before.ledgers.subrange(h.level as int, n0 as int)) =~= reclaimed(
                before.ledgers.subrange(h.level as int, n0 as int),
            ));
        }
        while self.contexts.len() > h.level
            invariant
                self.wf(),
                h.level <= self.contexts@.len() <= n0,
                n0 == before.ids.len(),
                n0 == before.ledgers.len(),
                self@.ids == before.ids.subrange(0, self.contexts@.len() as int),
                self@.ledgers == before.ledgers.subrange(0, self.contexts@.len() as int),
                self@.next_id == before.next_id,
                self.pending() == old(self).pending().subrange(0, self.contexts@.len() as int),
                old(self).pending().len() == n0,
                reclaimed(before.ledgers.subrange(h.level as int, n0 as int)) == r@ + reclaimed(
                    before.ledgers.subrange(h.level as int, self.contexts@.len() as int),
                ),
            decreases self.contexts@.len(),
        {
            let ghost len = self.contexts@.len() as int;
            let ghost cur = before.ledgers.subrange(h.level as int, len);
            let ghost cs = self.contexts@;
            let ghost v0 = self@;
            assert(v0.ledgers[len - 1] == cs[len - 1].mem@);
            assert(v0.ledgers[len - 1] == before.ledgers[len - 1]);
            let c = self.contexts.pop().unwrap();
            let TimeoutContext { id, mut mem, mut watchdog } = c;
            let _ = watchdog.disarm();
            proof {
                assert(c == cs[len - 1]);
                assert(mem@ == before.ledgers[len - 1]);
                assert(cur.last() == mem@);
                assert(cur.drop_last() =~= before.ledgers.subrange(h.level as int, len - 1));
            }
            let ghost r0 = r@;
            let mut freed = mem.free_all();
            r.append(&mut freed);
            proof {
                assert(r0 + reclaimed(cur) =~= r@ + reclaimed(cur.drop_last()));
                assert(self@.ids =~= before.ids.subrange(0, len - 1));
                assert(self@.ledgers =~= before.ledgers.subrange(0, len - 1));
                assert(self.pending() =~= old(self).pending().subrange(0, len - 1));
            }
        }
        proof {
            assert(before.ledgers.subrange(h.level as int, h.level as int) =~= Seq::<Seq<usize>>::empty());
            assert(r@ + Seq::<usize>::empty() =~= r@);
        }
        Some(r)
    }

    /// Decides what the watchdog signal carrying `token` does. It is run in
    /// the signal handler and allocates nothing: the active context whose id
    /// is `token` is to be aborted, and a hand-off slot is claimed to tell
    /// the landing site which one it was. A signal from a context that has
    /// already ended is ignored.
    pub fn fire(&self, table: &mut HandoffTable, token: isize) -> (r: FireAction)
        requires
            self.wf(),
            old(table).wf(),
        ensures
            final(table).wf(),
            fired(self@, old(table)@, final(table)@, token, r),
    {
        if token < 0 {
            return FireAction::Ignore;
        }
        let id = token as u64;
        let n = self.contexts.len();
        let mut i: usize = 0;
        while i < n
            invariant
                n == self.contexts@.len(),
                n == self@.ids.len(),
                i <= n,
                0 <= token,
                id == token as u64,
                table.wf(),
                table@ == old(table)@,
                forall|j: int| 0 <= j < i ==> self@.ids[j] != id,
            decreases n - i,
        {
            if self.contexts[i].id == id {
                assert(self@.ids[i as int] == id);
                let h = Handle { level: i, id };
                return match table.claim(h) {
                    Some(value) => FireAction::Jump { level: i, value },
                    None => FireAction::Exhausted,
                };
            }
            i = i + 1;
        }
        FireAction::Ignore
    }

    /// Recovers, at the landing site of an abort, the context named by the
    /// jump value `value`, and aborts it. The hand-off slot is cleared.
    /// `None` when the slot holds no active context.
    pub fn land(&mut self, table: &mut HandoffTable, value: i32) -> (r: Option<Vec<usize>>)
        requires
            old(self).wf(),
            old(table).wf(),
        ensures
            final(self).wf(),
            final(table).wf(),
            take_post(old(table)@, final(table)@, value, landed(old(table)@, value)),
            match landed(old(table)@, value) {
                Some(h) => aborted(old(self)@, final(self)@, h, seq_of(r)),
                None => r is None && final(self)@ == old(self)@,
            },
    {
        match table.take(value) {
            Some(h) => self.abort(h),
            None => None,
        }
    }
}

/// A tracked address of one ledger is among what ending that ledger's
/// context, or any set of contexts that holds it, gives back.
proof fn lemma_reclaimed_contains(ls: Seq<Seq<usize>>, k: int, j: int)
    requires
        0 <= k < ls.len(),
        0 <= j < ls[k].len(),
        ls[k][j] != 0,
    ensures
        reclaimed(ls).contains(ls[k][j]),
    decreases ls.len(),
{
    let p = ls[k][j];
    let rest = reclaimed(ls.drop_last());
    if k == ls.len() - 1 {
        ls[k].lemma_filter_contains(|q: usize| q != 0, j);
        let a = live(ls.last());
        let i = choose|i: int| 0 <= i < a.len() && a[i] == p;
        assert((a + rest)[i] == p);
    } else {
        assert(ls.drop_last()[k] == ls[k]);
        lemma_reclaimed_contains(ls.drop_last(), k, j);
        let a = live(ls.last());
        let i = choose|i: int| 0 <= i < rest.len() && rest[i] == p;
        assert((a + rest)[a.len() + i] == p);
    }
}

/// A bounded run that begins and then ends normally, with nothing tracked
/// in between, gives nothing back and leaves the chain's active contexts as
/// they were, so that running the same task again starts from the same
/// place, at the same depth.
pub proof fn law_run_restores_chain(
    m0: ChainView,
    m1: ChainView,
    m2: ChainView,
    m3: ChainView,
    h1: Handle,
    h2: Handle,
    r: Option<Seq<usize>>,
)
    requires
        m0.ledgers.len() == m0.ids.len(),
        entered(m0, m1, h1),
        completed(m1, m2, h1, r),
        entered(m2, m3, h2),
    ensures
        r == Some(Seq::<usize>::empty()),
        m2.ids == m0.ids,
        m2.ledgers == m0.ledgers,
        h2.level == h1.level,
        m3.ids.len() == m1.ids.len(),
        m3.ledgers == m1.ledgers,
{
    assert(m1.ids[h1.level as int] == h1.id);
    assert(m1.ids.drop_last() =~= m0.ids);
    assert(m1.ledgers.drop_last() =~= m0.ledgers);
    reveal(Seq::filter);
    assert(empty_ledger().filter(|p: usize| p != 0) =~= Seq::<usize>::empty()) by {
        lemma_zero_ledger_is_empty(empty_ledger());
    }
}

/// A ledger whose slots are all free gives nothing back.
proof fn lemma_zero_ledger_is_empty(s: Seq<usize>)
    requires
        forall|i: int| 0 <= i < s.len() ==> s[i] == 0,
    ensures
        live(s) == Seq::<usize>::empty(),
    decreases s.len(),
{
    reveal(Seq::filter);
    if s.len() > 0 {
        lemma_zero_ledger_is_empty(s.drop_last());
    }
}

/// Nesting, inner run aborted: when a run nested in another is aborted,
/// the outer run is current again, with its ledger as it was, and can still
/// end normally, returning the inner run's failure as its own result.
pub proof fn law_inner_abort_resumes_outer(
    m0: ChainView,
    m1: ChainView,
    m2: ChainView,
    m3: ChainView,
    m4: ChainView,
    outer: Handle,
    inner: Handle,
    r: Option<Seq<usize>>,
    r_outer: Option<Seq<usize>>,
)
    requires
        m0.ledgers.len() == m0.ids.len(),
        entered(m0, m1, outer),
        entered(m1, m2, inner),
        aborted(m2, m3, inner, r),
        completed(m3, m4, outer, r_outer),
    ensures
        r is Some,
        m3.ids == m1.ids,
        m3.ledgers == m1.ledgers,
        is_current(m3, outer),
        r_outer is Some,
        m4.ids == m0.ids,
        m4.ledgers == m0.ledgers,
{
    assert(m1.ids[outer.level as int] == outer.id);
    assert(m2.ids[inner.level as int] == inner.id);
    assert(m2.ids[outer.level as int] == outer.id);
    assert(m3.ids =~= m1.ids);
    assert(m3.ledgers =~= m1.ledgers);
    assert(m4.ids =~= m0.ids);
    assert(m4.ledgers =~= m0.ledgers);
}

/// Nesting, outer run aborted: when the outer run's watchdog fires while
/// an inner run is going on, both end at once; the chain is back where it
/// was before the outer run, and the inner run can neither end normally
/// nor be aborted later.
pub proof fn law_outer_abort_unwinds_inner(
    m0: ChainView,
    m1: ChainView,
    m2: ChainView,
    m3: ChainView,
    m4: ChainView,
    outer: Handle,
    inner: Handle,
    r: Option<Seq<usize>>,
    r_inner: Option<Seq<usize>>,
)
    requires
        m0.ledgers.len() == m0.ids.len(),
        entered(m0, m1, outer),
        entered(m1, m2, inner),
        aborted(m2, m3, outer, r),
        completed(m3, m4, inner, r_inner),
    ensures
        r is Some,
        m3.ids == m0.ids,
        m3.ledgers == m0.ledgers,
        !is_live(m3, inner),
        !is_live(m3, outer),
        r_inner is None,
{
    assert(m2.ids[outer.level as int] == outer.id);
    assert(m3.ids =~= m0.ids);
    assert(m3.ledgers =~= m0.ledgers);
}

/// An aborted run gives back every allocation still tracked by it or by a
/// run nested in it, and no ledger of those runs remains in the chain.
pub proof fn law_abort_reclaims_tracked(
    m: ChainView,
    m2: ChainView,
    h: Handle,
    r: Option<Seq<usize>>,
    k: int,
    j: int,
)
    requires
        is_live(m, h),
        m.ledgers.len() == m.ids.len(),
        aborted(m, m2, h, r),
        h.level <= k < m.ledgers.len(),
        0 <= j < m.ledgers[k].len(),
        m.ledgers[k][j] != 0,
    ensures
        r matches Some(freed) && freed.contains(m.ledgers[k][j]),
        m2.ledgers.len() == h.level,
        m2.ids.len() == h.level,
{
    let ls = m.ledgers.subrange(h.level as int, m.ledgers.len() as int);
    assert(ls[k - h.level] == m.ledgers[k]);
    lemma_reclaimed_contains(ls, k - h.level, j);
}

/// A watchdog signal that the handler turns into a jump lands on the very
/// context that fired, whichever run is current at the time, and the
/// landing leaves the hand-off table as it was before the signal.
pub proof fn law_fire_lands_on_firing_context(
    m: ChainView,
    t0: Seq<Option<Handle>>,
    t1: Seq<Option<Handle>>,
    t2: Seq<Option<Handle>>,
    token: isize,
    level: usize,
    value: i32,
)
    requires
        fired(m, t0, t1, token, FireAction::Jump { level, value }),
        take_post(t1, t2, value, landed(t1, value)),
    ensures
        landed(t1, value) == Some(Handle { level, id: token as u64 }),
        is_live(m, Handle { level, id: token as u64 }),
        t2 == t0,
{
    assert(t2 =~= t0);
}

} // verus!
