use cputimeout::handoff::HANDOFF_CAPACITY;
use cputimeout::{Handle, HandoffTable};

#[test]
fn claims_give_slot_index_plus_one() {
    let mut t = HandoffTable::new();
    for i in 0..HANDOFF_CAPACITY {
        let h = Handle { level: i, id: i as u64 + 7 };
        assert_eq!(t.claim(h), Some(i as i32 + 1));
    }
    assert_eq!(t.claim(Handle { level: 0, id: 99 }), None);
}

#[test]
fn take_returns_claimed_handle_once() {
    let mut t = HandoffTable::new();
    let h = Handle { level: 2, id: 41 };
    let v = t.claim(h).unwrap();
    assert_eq!(v, 1);
    assert_eq!(t.take(v), Some(h));
    assert_eq!(t.take(v), None);
    assert_eq!(t.claim(Handle { level: 0, id: 1 }), Some(1));
}

#[test]
fn take_of_value_naming_no_slot_is_none() {
    let mut t = HandoffTable::new();
    t.claim(Handle { level: 0, id: 1 }).unwrap();
    assert_eq!(t.take(0), None);
    assert_eq!(t.take(-3), None);
    assert_eq!(t.take(HANDOFF_CAPACITY as i32 + 1), None);
    assert_eq!(t.take(1), Some(Handle { level: 0, id: 1 }));
}

#[test]
fn freed_slot_is_reused_first() {
    let mut t = HandoffTable::new();
    let a = t.claim(Handle { level: 0, id: 1 }).unwrap();
    let b = t.claim(Handle { level: 1, id: 2 }).unwrap();
    assert_eq!((a, b), (1, 2));
    assert_eq!(t.take(a), Some(Handle { level: 0, id: 1 }));
    assert_eq!(t.claim(Handle { level: 3, id: 9 }), Some(1));
    assert_eq!(t.take(b), Some(Handle { level: 1, id: 2 }));
}
