//! Tests of the buffer pool and the selector-identity guard.

use mio_uds_windows::pool::{Buffer, BufferPool};
use mio_uds_windows::poll::{IdSource, SelectorId};
use mio_uds_windows::ready::Error;

#[test]
fn pool_get_hands_out_requested_capacity() {
    let mut pool = BufferPool::new(4);
    let b = pool.get(256);
    assert!(b.reserved() >= 256);
    assert_eq!(b.len(), 0);
    assert_eq!(pool.in_use(), 1);
    assert_eq!(pool.stored(), 0);
}

#[test]
fn pool_put_recycles_and_get_reuses() {
    let mut pool = BufferPool::new(4);
    let b = pool.get(16);
    pool.put(b);
    assert_eq!(pool.stored(), 1);
    assert_eq!(pool.in_use(), 0);
    let b2 = pool.get(8);
    assert_eq!(pool.stored(), 0);
    assert!(b2.reserved() >= 8);
    assert_eq!(b2.len(), 0);
}

#[test]
fn pool_reshapes_recycled_buffer_to_larger_hint() {
    let mut pool = BufferPool::new(2);
    let b = pool.get(4);
    pool.put(b);
    let b2 = pool.get(1024);
    assert!(b2.reserved() >= 1024);
}

#[test]
fn pool_size_never_exceeds_bound() {
    let mut pool = BufferPool::new(2);
    let b1 = pool.get(8);
    let b2 = pool.get(8);
    let b3 = pool.get(8);
    assert_eq!(pool.in_use(), 3);
    pool.put(b1);
    pool.put(b2);
    pool.put(b3);
    // the third buffer was dropped, not stored: the bound holds
    assert_eq!(pool.stored(), 2);
    assert_eq!(pool.in_use(), 0);
}

#[test]
fn pool_outstanding_tracks_gets_and_puts() {
    let mut pool = BufferPool::new(3);
    let a = pool.get(1);
    let b = pool.get(1);
    assert_eq!(pool.in_use(), 2);
    pool.put(a);
    assert_eq!(pool.in_use(), 1);
    pool.put(b);
    assert_eq!(pool.in_use(), 0);
}

#[test]
fn buffer_load_copies_contents() {
    let mut b = Buffer::with_capacity(2);
    let data = vec![1u8, 2, 3, 4];
    b.load(&data);
    assert_eq!(b.len(), 4);
    assert!(b.reserved() >= 4);
    assert_eq!(b.byte_at(0), 1);
    assert_eq!(b.byte_at(3), 4);
    b.clear();
    assert_eq!(b.len(), 0);
}

#[test]
fn id_source_is_nonzero_and_increasing() {
    let mut ids = IdSource::new();
    let a = ids.allocate();
    let b = ids.allocate();
    let c = ids.allocate();
    assert_ne!(a, 0);
    assert!(a < b && b < c);
}

#[test]
fn guard_rejects_second_selector_and_accepts_same() {
    let mut g = SelectorId::new();
    assert_eq!(g.current_id(), 0);
    assert!(g.associate_selector(1).is_ok());
    // a different selector is refused and the binding is unchanged
    assert_eq!(g.associate_selector(2), Err(Error::AlreadyAssociated));
    assert_eq!(g.current_id(), 1);
    // re-association with the same selector is a no-op success
    assert!(g.associate_selector(1).is_ok());
    assert_eq!(g.current_id(), 1);
}

#[test]
fn guard_clone_is_an_independent_snapshot() {
    let mut g = SelectorId::new();
    g.associate_selector(7).unwrap();
    let mut h = g;
    assert_eq!(h.current_id(), 7);
    h.disassociate();
    assert!(h.associate_selector(9).is_ok());
    // the first guard keeps its own binding
    assert_eq!(g.current_id(), 7);
}
