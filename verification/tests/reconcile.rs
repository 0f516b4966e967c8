//! Reconciliation: identical records reconcile silently, new records
//! insert without divergence, local edits win and go out, and wiped
//! stores stay empty.

use tabs_bridge::bridge::TabsStoreBridge;
use tabs_bridge::envelope::{encode, Envelope};

fn raw_batch(entries: &[(&[u8], &[u8])]) -> Vec<Vec<u8>> {
    entries
        .iter()
        .map(|(id, payload)| encode(&Envelope::new(id.to_vec(), payload.to_vec())))
        .collect()
}

#[test]
fn identical_incoming_reconciles_silently() {
    // Local record {id: "a", value: 1}; the incoming batch holds the
    // identical record: empty outgoing set, one record reconciled.
    let mut engine = TabsStoreBridge::new();
    engine.store_local(b"a".to_vec(), vec![1]);
    engine.sync_started().unwrap();
    engine.store_incoming(&raw_batch(&[(b"a", &[1])])).unwrap();

    let result = engine.apply().unwrap();
    assert!(result.envelopes.is_empty());
    assert_eq!(result.num_reconciled, Some(1));

    let store = engine.get();
    let rec = store.get_record(&b"a".to_vec()).unwrap();
    assert_eq!(rec.payload, vec![1]);
    assert!(!rec.changed);
}

#[test]
fn new_incoming_inserts_without_divergence() {
    // Empty store; incoming [{id: "b", value: 5}]: inserted locally,
    // outgoing set empty, nothing reconciled.
    let mut engine = TabsStoreBridge::new();
    engine.sync_started().unwrap();
    engine.store_incoming(&raw_batch(&[(b"b", &[5])])).unwrap();

    let result = engine.apply().unwrap();
    assert!(result.envelopes.is_empty());
    assert_eq!(result.num_reconciled, Some(0));

    let store = engine.get();
    assert_eq!(store.record_count(), 1);
    let rec = store.get_record(&b"b".to_vec()).unwrap();
    assert_eq!(rec.payload, vec![5]);
    assert!(!rec.changed);
}

#[test]
fn apply_after_wipe_sees_empty_store() {
    // Records exist, then wipe: a subsequent apply with no incoming
    // records returns an empty outgoing set and the store is empty.
    let mut engine = TabsStoreBridge::new();
    engine.store_local(b"a".to_vec(), vec![1]);
    engine.store_local(b"b".to_vec(), vec![2]);
    assert_eq!(engine.get().record_count(), 2);

    engine.wipe().unwrap();
    engine.sync_started().unwrap();
    let result = engine.apply().unwrap();
    assert!(result.envelopes.is_empty());
    assert_eq!(engine.get().record_count(), 0);
}

#[test]
fn local_edit_wins_and_goes_out() {
    // The local record carries an unsynced edit and the incoming
    // payload differs: the local value is kept and re-sent.
    let mut engine = TabsStoreBridge::new();
    engine.store_local(b"a".to_vec(), vec![1]);
    engine.sync_started().unwrap();
    engine.store_incoming(&raw_batch(&[(b"a", &[2])])).unwrap();

    let result = engine.apply().unwrap();
    assert_eq!(result.num_reconciled, Some(0));
    assert_eq!(result.envelopes.len(), 1);
    assert_eq!(result.envelopes[0].id, b"a".to_vec());
    assert_eq!(result.envelopes[0].payload, vec![1]);

    let rec = engine.get().get_record(&b"a".to_vec()).unwrap();
    assert_eq!(rec.payload, vec![1]);
    assert!(!rec.changed);
}

#[test]
fn incoming_overwrites_synced_record() {
    // The local record has no unsynced edit: the incoming payload wins
    // and nothing goes out.
    let mut engine = TabsStoreBridge::new();
    engine.sync_started().unwrap();
    engine.store_incoming(&raw_batch(&[(b"a", &[1])])).unwrap();
    engine.apply().unwrap();
    engine.sync_finished().unwrap();

    engine.sync_started().unwrap();
    engine.store_incoming(&raw_batch(&[(b"a", &[2])])).unwrap();
    let result = engine.apply().unwrap();
    assert!(result.envelopes.is_empty());
    assert_eq!(result.num_reconciled, Some(0));

    let rec = engine.get().get_record(&b"a".to_vec()).unwrap();
    assert_eq!(rec.payload, vec![2]);
    assert!(!rec.changed);
}

#[test]
fn outgoing_batch_drained_once() {
    // Two local edits go out together, in table order, exactly once.
    let mut engine = TabsStoreBridge::new();
    engine.store_local(b"a".to_vec(), vec![1]);
    engine.store_local(b"b".to_vec(), vec![2]);
    engine.sync_started().unwrap();
    engine.store_incoming(&Vec::new()).unwrap();

    let result = engine.apply().unwrap();
    assert_eq!(result.envelopes.len(), 2);
    assert_eq!(result.envelopes[0].id, b"a".to_vec());
    assert_eq!(result.envelopes[1].id, b"b".to_vec());

    let again = engine.apply().unwrap();
    assert!(again.envelopes.is_empty());
}

#[test]
fn set_uploaded_clears_marks_and_timestamp() {
    let mut engine = TabsStoreBridge::new();
    engine.sync_started().unwrap();
    engine.store_incoming(&Vec::new()).unwrap();
    engine.apply().unwrap();

    // An edit lands after apply; the orchestrator confirms it uploaded.
    engine.store_local(b"c".to_vec(), vec![3]);
    assert!(engine.get().get_record(&b"c".to_vec()).unwrap().changed);

    engine.set_uploaded(4321, &vec![b"c".to_vec()]).unwrap();
    assert!(!engine.get().get_record(&b"c".to_vec()).unwrap().changed);
    assert_eq!(engine.last_sync(), 4321);
}

#[test]
fn set_local_replaces_payload() {
    let mut engine = TabsStoreBridge::new();
    engine.store_local(b"a".to_vec(), vec![1]);
    engine.store_local(b"a".to_vec(), vec![9]);
    let store = engine.get();
    assert_eq!(store.record_count(), 1);
    assert_eq!(store.get_record(&b"a".to_vec()).unwrap().payload, vec![9]);
}
