use cputimeout::watchdog::{timer_expiry, MAX_TIMER_SECS};
use cputimeout::{ContextChain, FireAction, Handle, HandoffTable, Watchdog};

#[test]
fn watchdog_zero_quota_is_not_armed() {
    let mut w = Watchdog::new(5).expect("timer");
    assert_eq!(w.token(), 5);
    assert!(!w.is_armed());
    assert!(!w.arm(0, 0));
    assert!(!w.is_armed());
}

#[test]
fn expiry_of_quota() {
    assert_eq!(timer_expiry(0, 0), None);
    assert_eq!(timer_expiry(0, 50_000_000), Some((0, 50_000_000)));
    assert_eq!(timer_expiry(3, 7), Some((3, 7)));
    assert_eq!(timer_expiry(u64::MAX, 1), Some((MAX_TIMER_SECS as i64, 1)));
    assert_eq!(timer_expiry(MAX_TIMER_SECS, 0), Some((i64::MAX, 0)));
}

#[test]
fn watchdog_arms_and_disarms() {
    let mut w = Watchdog::new(6).expect("timer");
    assert!(w.arm(1000, 0));
    assert!(w.is_armed());
    assert_eq!(w.pending(), Some((1000, 0)));
    assert!(!w.arm(0, 0));
    assert_eq!(w.pending(), Some((1000, 0)));
    assert!(w.disarm());
    assert!(!w.is_armed());
    assert_eq!(w.pending(), None);
    assert!(w.arm(u64::MAX, 500_000_000));
    assert_eq!(w.pending(), Some((i64::MAX, 500_000_000)));
    assert!(w.disarm());
}

#[test]
fn run_that_completes_restores_chain() {
    let mut c = ContextChain::new();
    assert_eq!(c.current(), None);
    let h = c.enter().expect("enter");
    assert_eq!(h, Handle { level: 0, id: 1 });
    assert_eq!(c.current(), Some(h));
    assert!(c.arm(h, 1000, 0));
    assert_eq!(c.complete(h), Some(vec![]));
    assert_eq!(c.depth(), 0);
    let h2 = c.enter().expect("enter");
    assert_eq!(h2.level, h.level);
    assert_eq!(c.complete(h2), Some(vec![]));
}

#[test]
fn completed_run_hands_back_unfreed_allocations() {
    let mut c = ContextChain::new();
    assert!(c.track(0x50));
    let h = c.enter().unwrap();
    assert!(c.track(0x100));
    assert!(c.track(0x200));
    c.untrack(0x100);
    c.untrack(0x50);
    assert_eq!(c.complete(h), Some(vec![0x200]));
}

#[test]
fn inner_abort_resumes_outer() {
    let mut c = ContextChain::new();
    let mut t = HandoffTable::new();
    let outer = c.enter().unwrap();
    assert!(c.arm(outer, 100, 0));
    assert!(c.track(0x10));
    let inner = c.enter().unwrap();
    assert!(c.arm(inner, 50, 0));
    assert!(c.track(0x20));
    let act = c.fire(&mut t, inner.id as isize);
    assert_eq!(act, FireAction::Jump { level: 1, value: 1 });
    assert_eq!(c.land(&mut t, 1), Some(vec![0x20]));
    assert_eq!(c.current(), Some(outer));
    assert_eq!(c.complete(outer), Some(vec![0x10]));
    assert_eq!(c.depth(), 0);
}

#[test]
fn outer_abort_unwinds_inner() {
    let mut c = ContextChain::new();
    let mut t = HandoffTable::new();
    let outer = c.enter().unwrap();
    assert!(c.arm(outer, 50, 0));
    assert!(c.track(0x10));
    let inner = c.enter().unwrap();
    assert!(c.arm(inner, 50, 0));
    assert!(c.track(0x20));
    assert!(c.track(0x30));
    let act = c.fire(&mut t, outer.id as isize);
    assert_eq!(act, FireAction::Jump { level: 0, value: 1 });
    assert_eq!(c.land(&mut t, 1), Some(vec![0x20, 0x30, 0x10]));
    assert_eq!(c.depth(), 0);
    assert!(!c.is_live(inner));
    assert_eq!(c.complete(inner), None);
    assert_eq!(c.fire(&mut t, inner.id as isize), FireAction::Ignore);
}

#[test]
fn aborted_run_leaves_no_tracked_allocation() {
    let mut c = ContextChain::new();
    let mut t = HandoffTable::new();
    let h = c.enter().unwrap();
    let n: usize = 40;
    for i in 0..n {
        assert!(c.track(0x1000 + 16 * i));
    }
    let v = match c.fire(&mut t, h.id as isize) {
        FireAction::Jump { value, .. } => value,
        other => panic!("unexpected {:?}", other),
    };
    let freed = c.land(&mut t, v).unwrap();
    assert_eq!(freed.len(), n);
    for i in 0..n {
        assert!(freed.contains(&(0x1000 + 16 * i)));
    }
    assert_eq!(c.depth(), 0);
    assert!(c.track(0x9999));
    assert_eq!(c.abort(h), None);
}

#[test]
fn stale_or_foreign_signal_is_ignored() {
    let mut c = ContextChain::new();
    let mut t = HandoffTable::new();
    let h = c.enter().unwrap();
    assert_eq!(c.fire(&mut t, -1), FireAction::Ignore);
    assert_eq!(c.fire(&mut t, 77), FireAction::Ignore);
    assert_eq!(c.land(&mut t, 1), None);
    assert_eq!(c.current(), Some(h));
}

#[test]
fn full_handoff_table_is_exhausted() {
    let mut c = ContextChain::new();
    let mut t = HandoffTable::new();
    let h = c.enter().unwrap();
    for i in 0..10 {
        assert_eq!(c.fire(&mut t, h.id as isize), FireAction::Jump { level: 0, value: i + 1 });
    }
    assert_eq!(c.fire(&mut t, h.id as isize), FireAction::Exhausted);
}

#[test]
fn separate_chains_do_not_share_contexts() {
    let mut a = ContextChain::new();
    let mut b = ContextChain::new();
    let mut ta = HandoffTable::new();
    let mut tb = HandoffTable::new();
    let ha = a.enter().unwrap();
    assert!(a.track(0xa0));
    let hb1 = b.enter().unwrap();
    let hb2 = b.enter().unwrap();
    assert!(b.track(0xb0));
    let va = match a.fire(&mut ta, ha.id as isize) {
        FireAction::Jump { value, .. } => value,
        other => panic!("unexpected {:?}", other),
    };
    assert_eq!(tb.take(va), None);
    assert_eq!(b.land(&mut tb, va), None);
    assert_eq!(a.land(&mut ta, va), Some(vec![0xa0]));
    assert_eq!(b.current(), Some(hb2));
    assert_eq!(b.complete(hb2), Some(vec![0xb0]));
    assert_eq!(b.complete(hb1), Some(vec![]));
}

#[test]
fn arm_of_handle_that_is_not_current_arms_nothing() {
    let mut c = ContextChain::new();
    let outer = c.enter().unwrap();
    let inner = c.enter().unwrap();
    assert!(!c.arm(outer, 1, 0));
    assert!(!c.arm(inner, 0, 0));
    assert!(c.arm(inner, 1000, 0));
    assert_eq!(c.complete(outer), None);
    assert_eq!(c.complete(inner), Some(vec![]));
    assert_eq!(c.complete(outer), Some(vec![]));
}
