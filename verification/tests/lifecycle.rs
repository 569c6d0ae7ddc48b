//! Lifecycle edges: the dangling observer, the outstanding observer after
//! the payload dies, the exact counter words, and the weak-side bookkeeping.

use weakarc::store::{Arc, Store, Weak};

#[derive(Debug, Default, Clone)]
struct DropMonitor(std::sync::Arc<()>);

impl DropMonitor {
    fn is_unique(&self) -> bool {
        std::sync::Arc::strong_count(&self.0) == 1
    }
}

#[test]
fn dangling_upgrade_always_fails() {
    let mut store: Store<u32> = Store::new();
    let w = Weak::new();
    assert!(w.is_dangling());
    assert!(Weak::upgrade(&w, &mut store).is_none());
    assert!(Weak::upgrade(&w, &mut store).is_none());
    // it never allocated and never touched any shared state
    assert_eq!(store.slot_count(), 0);
    Weak::release(w, &mut store);
    assert_eq!(store.slot_count(), 0);
}

#[test]
fn dangling_clone_stays_dangling() {
    let mut store: Store<u32> = Store::new();
    let w = Weak::new();
    let w2 = Weak::clone(&w, &mut store);
    assert!(w2.is_dangling());
    assert_eq!(store.slot_count(), 0);
    Weak::release(w, &mut store);
    Weak::release(w2, &mut store);
}

#[test]
fn observer_survives_the_payload() {
    // downgrade once, upgrade, drop the upgraded handle, then the first
    // handle: the payload dies exactly at the first handle's drop, with the
    // observer still outstanding, and a late upgrade finds nothing
    let mut store: Store<DropMonitor> = Store::new();
    let monitor = DropMonitor::default();
    let v = Arc::new(&mut store, monitor.clone());
    let w = Arc::downgrade(&v, &mut store);
    let upgraded = Weak::upgrade(&w, &mut store).unwrap();
    assert!(!monitor.is_unique());
    Arc::release(upgraded, &mut store);
    assert!(!monitor.is_unique());
    Arc::release(v, &mut store);
    assert!(monitor.is_unique());
    assert!(Weak::upgrade(&w, &mut store).is_none());
    Weak::release(w, &mut store);
}

#[test]
fn two_observers_race_the_last_drop() {
    // two upgrade attempts around the drop of the sole strong handle: the
    // payload is destroyed exactly once, whatever each attempt found
    let mut store: Store<DropMonitor> = Store::new();
    let monitor = DropMonitor::default();
    let v = Arc::new(&mut store, monitor.clone());
    let w1 = Arc::downgrade(&v, &mut store);
    let w2 = Arc::downgrade(&v, &mut store);
    assert!(!monitor.is_unique());
    Arc::release(v, &mut store);
    assert!(monitor.is_unique());
    assert!(Weak::upgrade(&w1, &mut store).is_none());
    assert!(Weak::upgrade(&w2, &mut store).is_none());
    assert!(monitor.is_unique());
    Weak::release(w1, &mut store);
    Weak::release(w2, &mut store);
}

#[test]
fn deref_reads_the_payload() {
    let mut store: Store<u32> = Store::new();
    let v = Arc::new(&mut store, 7u32);
    assert_eq!(*Arc::deref(&v, &store), 7);
    let v2 = Arc::clone(&v, &mut store);
    assert_eq!(*Arc::deref(&v2, &store), 7);
    Arc::release(v, &mut store);
    assert_eq!(*Arc::deref(&v2, &store), 7);
    Arc::release(v2, &mut store);
}

#[test]
fn counter_words_step_exactly() {
    // the debug view shows the raw words: strong counts in units of four
    // with the weak-exist flag as bit zero, weak units in ones, and the
    // implicit group unit created by the first downgrade
    let mut store: Store<u32> = Store::new();
    let v = Arc::new(&mut store, 1u32);
    assert_eq!(Arc::counters(&v, &store), (4, 0));
    let v2 = Arc::clone(&v, &mut store);
    assert_eq!(Arc::counters(&v, &store), (8, 0));
    let w = Arc::downgrade(&v, &mut store);
    assert_eq!(Arc::counters(&v, &store), (9, 2));
    let w2 = Weak::clone(&w, &mut store);
    assert_eq!(Arc::counters(&v, &store), (9, 3));
    let w3 = Arc::downgrade(&v2, &mut store);
    assert_eq!(Arc::counters(&v, &store), (9, 4));
    Weak::release(w2, &mut store);
    Weak::release(w3, &mut store);
    assert_eq!(Arc::counters(&v, &store), (9, 2));
    Weak::release(w, &mut store);
    // the group unit alone remains on the weak side
    assert_eq!(Arc::counters(&v, &store), (9, 1));
    Arc::release(v2, &mut store);
    assert_eq!(Arc::counters(&v, &store), (5, 1));
    Arc::release(v, &mut store);
    assert_eq!(store.slot_count(), 1);
}

#[test]
fn upgrade_extends_the_strong_side() {
    // an upgraded handle takes a whole strong unit; the upgraded handle
    // alone keeps the payload alive after the first handle drops
    let mut store: Store<u32> = Store::new();
    let v = Arc::new(&mut store, 3u32);
    let w = Arc::downgrade(&v, &mut store);
    let u = Weak::upgrade(&w, &mut store).unwrap();
    assert_eq!(Arc::counters(&v, &store), (9, 2));
    Arc::release(v, &mut store);
    assert_eq!(*Arc::deref(&u, &store), 3);
    assert_eq!(Arc::counters(&u, &store), (5, 2));
    Arc::release(u, &mut store);
    assert!(Weak::upgrade(&w, &mut store).is_none());
    Weak::release(w, &mut store);
}

#[test]
fn each_store_slot_is_independent() {
    let mut store: Store<u32> = Store::new();
    let a = Arc::new(&mut store, 10u32);
    let b = Arc::new(&mut store, 20u32);
    assert_eq!(store.slot_count(), 2);
    assert_eq!(*Arc::deref(&a, &store), 10);
    assert_eq!(*Arc::deref(&b, &store), 20);
    Arc::release(a, &mut store);
    assert_eq!(*Arc::deref(&b, &store), 20);
    assert_eq!(Arc::counters(&b, &store), (4, 0));
    Arc::release(b, &mut store);
}
