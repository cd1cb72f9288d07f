use cputimeout::mem::TRACKER_CAPACITY;
use cputimeout::MemTracker;

#[test]
fn new_tracker_holds_nothing() {
    let mut t = MemTracker::new();
    assert_eq!(t.free_all(), Vec::<usize>::new());
    let mut d = MemTracker::default();
    assert_eq!(d.free_all(), Vec::<usize>::new());
}

#[test]
fn free_all_returns_live_allocations_in_slot_order() {
    let mut t = MemTracker::new();
    assert!(t.track(0x1000));
    assert!(t.track(0x2000));
    assert!(t.track(0x3000));
    t.free(0x2000);
    assert!(t.track(0x4000));
    assert_eq!(t.free_all(), vec![0x1000, 0x4000, 0x3000]);
    assert_eq!(t.free_all(), Vec::<usize>::new());
}

#[test]
fn free_of_untracked_pointer_is_ignored() {
    let mut t = MemTracker::new();
    assert!(t.track(0x10));
    t.free(0x20);
    assert_eq!(t.free_all(), vec![0x10]);
}

#[test]
fn full_tracker_refuses_another_allocation() {
    let mut t = MemTracker::new();
    for i in 0..TRACKER_CAPACITY {
        assert!(t.track(0x100 + i * 16));
    }
    assert!(!t.track(0xdead0));
    let all = t.free_all();
    assert_eq!(all.len(), TRACKER_CAPACITY);
    assert!(!all.contains(&0xdead0));
    assert!(t.track(0xdead0));
}

#[test]
fn timed_out_error_has_a_message() {
    assert_eq!(cputimeout::Error::TimedOut.message(), "task timed out");
    assert_eq!(cputimeout::Error::TimedOut, cputimeout::Error::TimedOut);
}
