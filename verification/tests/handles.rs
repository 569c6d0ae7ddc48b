//! The handle lifecycle, driven through a payload that reports whether any
//! copy of it is still alive anywhere.

use weakarc::store::{Arc, Store, Weak};

/// A payload whose liveness is observable from outside: as long as the
/// store still holds the payload, the inner shared counter is not unique.
#[derive(Debug, Default, Clone)]
struct DropMonitor(std::sync::Arc<()>);

impl DropMonitor {
    fn is_unique(&self) -> bool {
        std::sync::Arc::strong_count(&self.0) == 1
    }
}

fn new_monitored_arc(store: &mut Store<DropMonitor>) -> (DropMonitor, Arc) {
    let monitor = DropMonitor::default();
    let arc = Arc::new(store, monitor.clone());
    (monitor, arc)
}

#[test]
fn trivial_drop() {
    let mut store: Store<DropMonitor> = Store::new();
    let (monitor, v1) = new_monitored_arc(&mut store);
    assert!(!monitor.is_unique());
    Arc::release(v1, &mut store);
    assert!(monitor.is_unique());
}

#[test]
fn trivial_clone() {
    let mut store: Store<DropMonitor> = Store::new();
    let (monitor, v1) = new_monitored_arc(&mut store);
    let v2 = Arc::clone(&v1, &mut store);
    let v3 = Arc::clone(&v2, &mut store);
    Arc::release(v1, &mut store);
    Arc::release(v2, &mut store);
    assert!(!monitor.is_unique());
    Arc::release(v3, &mut store);
    assert!(monitor.is_unique());
}

#[test]
fn trivial_upgrade() {
    let mut store: Store<DropMonitor> = Store::new();
    let (monitor, v1) = new_monitored_arc(&mut store);
    let w1 = Arc::downgrade(&v1, &mut store);
    if let Some(upgraded) = Weak::upgrade(&w1, &mut store) {
        Arc::release(upgraded, &mut store);
    }
    assert!(!monitor.is_unique());
    Arc::release(v1, &mut store);
    assert!(monitor.is_unique());
    Weak::release(w1, &mut store);
}

#[test]
fn clone_clone() {
    // one interleaving: two contenders each clone-then-drop their own
    // handle while the first handle is dropped early
    let mut store: Store<DropMonitor> = Store::new();
    let (monitor, v1) = new_monitored_arc(&mut store);
    let first = Arc::clone(&v1, &mut store);
    let second = Arc::clone(&v1, &mut store);
    assert!(!monitor.is_unique());
    Arc::release(v1, &mut store);
    let first_inner = Arc::clone(&first, &mut store);
    Arc::release(first, &mut store);
    Arc::release(first_inner, &mut store);
    let second_inner = Arc::clone(&second, &mut store);
    Arc::release(second, &mut store);
    assert!(!monitor.is_unique());
    Arc::release(second_inner, &mut store);
    assert!(monitor.is_unique());
}

#[test]
fn clone_drop_upgrade() {
    // one interleaving: a cloning contender, an upgrading contender, and
    // the drop of the first handle between them
    let mut store: Store<DropMonitor> = Store::new();
    let (monitor, v) = new_monitored_arc(&mut store);
    let v2 = Arc::clone(&v, &mut store);
    let w = Arc::downgrade(&v, &mut store);
    assert!(!monitor.is_unique());
    Arc::release(v, &mut store);
    let v3 = Arc::clone(&v2, &mut store);
    Arc::release(v2, &mut store);
    let upgraded = Weak::upgrade(&w, &mut store);
    assert!(upgraded.is_some());
    if let Some(u) = upgraded {
        Arc::release(u, &mut store);
    }
    Weak::release(w, &mut store);
    Arc::release(v3, &mut store);
    assert!(monitor.is_unique());
}

#[test]
fn upgrade_upgrade() {
    // one interleaving: one upgrade lands before the sole strong handle is
    // dropped, the other after
    let mut store: Store<DropMonitor> = Store::new();
    let (monitor, v) = new_monitored_arc(&mut store);
    let w1 = Arc::downgrade(&v, &mut store);
    let w2 = Arc::downgrade(&v, &mut store);
    let early = Weak::upgrade(&w1, &mut store);
    assert!(early.is_some());
    Arc::release(v, &mut store);
    if let Some(u) = early {
        Arc::release(u, &mut store);
    }
    let late = Weak::upgrade(&w2, &mut store);
    assert!(late.is_none());
    Weak::release(w1, &mut store);
    Weak::release(w2, &mut store);
    assert!(monitor.is_unique());
}
