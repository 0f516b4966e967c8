//! The identity manager: sync identifier, compare-and-reset, and what
//! `reset` and `wipe` each keep and clear.

use tabs_bridge::bridge::TabsStoreBridge;

fn is_hex(b: u8) -> bool {
    (b'0'..=b'9').contains(&b) || (b'a'..=b'f').contains(&b)
}

#[test]
fn sync_id_initially_none() {
    let engine = TabsStoreBridge::new();
    assert_eq!(engine.sync_id(), None);
    assert_eq!(engine.last_sync(), 0);
}

#[test]
fn reset_sync_id_connects_fresh_identifier() {
    let mut engine = TabsStoreBridge::new();
    engine.set_last_sync(500);
    let id = engine.reset_sync_id();
    assert_eq!(id.len(), 16);
    assert!(id.iter().all(|&b| is_hex(b)));
    assert_eq!(engine.sync_id(), Some(id));
    assert_eq!(engine.last_sync(), 0);
}

#[test]
fn ensure_current_sync_id_resets_only_once() {
    let mut engine = TabsStoreBridge::new();
    engine.set_last_sync(99);

    // The candidate is not current: the engine adopts it and resets
    // its bookkeeping.
    let adopted = engine.ensure_current_sync_id(&b"orchestrator-id".to_vec());
    assert_eq!(adopted, b"orchestrator-id".to_vec());
    assert_eq!(engine.sync_id(), Some(b"orchestrator-id".to_vec()));
    assert_eq!(engine.last_sync(), 0);

    // The same candidate again: a no-op returning it; no second reset.
    engine.set_last_sync(77);
    let again = engine.ensure_current_sync_id(&b"orchestrator-id".to_vec());
    assert_eq!(again, b"orchestrator-id".to_vec());
    assert_eq!(engine.sync_id(), Some(b"orchestrator-id".to_vec()));
    assert_eq!(engine.last_sync(), 77);
}

#[test]
fn ensure_current_sync_id_adopts_new_candidate() {
    let mut engine = TabsStoreBridge::new();
    engine.ensure_current_sync_id(&b"first".to_vec());
    engine.set_last_sync(12);
    let adopted = engine.ensure_current_sync_id(&b"second".to_vec());
    assert_eq!(adopted, b"second".to_vec());
    assert_eq!(engine.sync_id(), Some(b"second".to_vec()));
    assert_eq!(engine.last_sync(), 0);
}

#[test]
fn reset_clears_identity_but_keeps_records() {
    let mut engine = TabsStoreBridge::new();
    engine.store_local(b"a".to_vec(), vec![1]);
    engine.ensure_current_sync_id(&b"id-x".to_vec());
    engine.set_last_sync(5);

    engine.reset().unwrap();
    assert_eq!(engine.sync_id(), None);
    assert_eq!(engine.last_sync(), 0);
    assert_eq!(engine.get().record_count(), 1);
}

#[test]
fn wipe_deletes_records_but_keeps_identity() {
    // The chosen policy: wiping user data does not change who the
    // engine is — identifier and timestamp survive a wipe.
    let mut engine = TabsStoreBridge::new();
    engine.store_local(b"a".to_vec(), vec![1]);
    engine.ensure_current_sync_id(&b"id-x".to_vec());
    engine.set_last_sync(5);

    engine.wipe().unwrap();
    assert_eq!(engine.get().record_count(), 0);
    assert_eq!(engine.sync_id(), Some(b"id-x".to_vec()));
    assert_eq!(engine.last_sync(), 5);
}
