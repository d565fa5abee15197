//! The bounded connection table: admission at capacity, id reuse, and
//! single removal.

use echo_core::connection::Connection;
use echo_core::connection::WriteOutcome;
use echo_core::table::ConnTable;
use echo_core::MAX_CONNECTIONS;

#[test]
fn capacity_refusal_leaves_existing_connections_working() {
    let k: usize = 10;
    let mut t = ConnTable::new(k);
    let mut ids = Vec::new();
    for _ in 0..k {
        ids.push(t.accept().expect("below capacity, admission is owed"));
    }
    assert_eq!(t.len(), k);

    // The (k+1)-th concurrent attempt is refused...
    assert!(t.accept().is_none());
    assert_eq!(t.len(), k);

    // ...and every existing connection still echoes.
    for &id in &ids {
        let mut c = t.get(id).expect("still live").duplicate();
        let payload = b"ping".to_vec();
        c.note_echo(&payload, WriteOutcome::WouldBlock);
        let m = c.next_write().unwrap();
        assert_eq!(m, payload);
        c.note_flush(&m, WriteOutcome::Written(m.len()));
        assert_eq!(c.queue_len(), 0);
        assert!(!c.is_closed());
        t.update(id, c);
    }
    assert_eq!(t.len(), k);
}

#[test]
fn admission_grants_distinct_ids() {
    let mut t = ConnTable::new(4);
    let a = t.accept().unwrap();
    let b = t.accept().unwrap();
    let c = t.accept().unwrap();
    assert_ne!(a, b);
    assert_ne!(b, c);
    assert_ne!(a, c);
    assert_eq!(t.len(), 3);
}

#[test]
fn id_reuse_hands_out_fresh_state() {
    let mut t = ConnTable::new(5);
    let a = t.accept().unwrap();

    // The first occupant leaves bytes behind in its queue.
    let mut c = t.get(a).unwrap().duplicate();
    c.note_echo(&b"residue".to_vec(), WriteOutcome::WouldBlock);
    c.mark_closed();
    t.update(a, c);
    assert!(t.get(a).unwrap().queue_len() > 0);

    // It is removed; the slab hands the freed id to the next admission.
    assert!(t.remove(a));
    let b = t.accept().unwrap();
    assert_eq!(b, a, "the freed id is reused");

    // The new occupant starts fresh: no residual bytes, not closed.
    let c2 = t.get(b).unwrap();
    assert_eq!(c2.queue_len(), 0);
    assert!(!c2.is_closed());
    assert_eq!(c2.id(), b);
}

#[test]
fn removal_happens_exactly_once() {
    let mut t = ConnTable::new(3);
    let id = t.accept().unwrap();
    assert_eq!(t.len(), 1);
    assert!(t.remove(id));
    assert_eq!(t.len(), 0);
    assert!(t.get(id).is_none());

    // Repeating the removal is a no-op, not an error.
    assert!(!t.remove(id));
    assert_eq!(t.len(), 0);
}

#[test]
fn removing_unknown_id_changes_nothing() {
    let mut t = ConnTable::new(3);
    let id = t.accept().unwrap();
    assert!(!t.remove(id + 1000));
    assert_eq!(t.len(), 1);
    assert!(t.get(id).is_some());
}

#[test]
fn stored_update_is_visible() {
    let mut t = ConnTable::new(2);
    let id = t.accept().unwrap();
    let mut c = t.get(id).unwrap().duplicate();
    c.note_echo(&b"abc".to_vec(), WriteOutcome::Written(1));
    t.update(id, c);
    assert_eq!(t.get(id).unwrap().queue_len(), 1);
}

#[test]
fn default_bound_and_fresh_connection() {
    let t = ConnTable::new(MAX_CONNECTIONS);
    assert_eq!(t.capacity(), 1000);
    assert_eq!(t.len(), 0);

    let c = Connection::new(42);
    assert_eq!(c.id(), 42);
    assert_eq!(c.queue_len(), 0);
    assert!(!c.is_closed());
}
