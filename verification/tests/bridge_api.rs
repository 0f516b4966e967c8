//! The host-facing bridge: pass-through behaviour, static metadata,
//! and the teardown path.

use tabs_bridge::envelope::{encode, Envelope};
use tabs_bridge::error::Error;
use tabs_bridge::TabsBridge;

fn raw_batch(entries: &[(&[u8], &[u8])]) -> Vec<Vec<u8>> {
    entries
        .iter()
        .map(|(id, payload)| encode(&Envelope::new(id.to_vec(), payload.to_vec())))
        .collect()
}

#[test]
fn static_metadata() {
    let bridge = TabsBridge::new();
    assert_eq!(bridge.get_storage_version(), 1);
    assert!(bridge.get_allow_skipped_record());
}

#[test]
fn bridge_full_pass() {
    let mut bridge = TabsBridge::new();
    assert_eq!(bridge.get_last_sync(), Ok(0));
    assert_eq!(bridge.get_sync_id().unwrap(), None);

    let adopted = bridge.ensure_current_sync_id(&b"server-id".to_vec()).unwrap();
    assert_eq!(adopted, b"server-id".to_vec());

    bridge.sync_started().unwrap();
    bridge.store_incoming(&raw_batch(&[(b"a", &[1])])).unwrap();
    let result = bridge.apply().unwrap();
    assert!(result.envelopes.is_empty());
    assert_eq!(result.num_reconciled, Some(0));

    bridge.set_uploaded(2000, &Vec::new()).unwrap();
    assert_eq!(bridge.get_last_sync(), Ok(2000));
    bridge.sync_finished().unwrap();

    let engine = bridge.store().unwrap();
    assert_eq!(engine.get().record_count(), 1);
}

#[test]
fn bridge_reports_invalid_sequence() {
    let mut bridge = TabsBridge::new();
    assert_eq!(bridge.store_incoming(&Vec::new()), Err(Error::InvalidSequence));
    assert!(matches!(bridge.apply(), Err(Error::InvalidSequence)));
    assert_eq!(bridge.set_uploaded(1, &Vec::new()), Err(Error::InvalidSequence));
}

#[test]
fn teardown_makes_every_call_fail() {
    let mut bridge = TabsBridge::new();
    bridge.teardown().unwrap();

    assert!(bridge.store().is_err());
    assert_eq!(bridge.get_last_sync(), Err(Error::AlreadyTornDown));
    assert_eq!(bridge.set_last_sync(1), Err(Error::AlreadyTornDown));
    assert!(matches!(bridge.get_sync_id(), Err(Error::AlreadyTornDown)));
    assert!(matches!(bridge.reset_sync_id(), Err(Error::AlreadyTornDown)));
    assert!(
        matches!(bridge.ensure_current_sync_id(&b"x".to_vec()), Err(Error::AlreadyTornDown))
    );
    assert_eq!(bridge.sync_started(), Err(Error::AlreadyTornDown));
    assert_eq!(bridge.store_incoming(&Vec::new()), Err(Error::AlreadyTornDown));
    assert!(matches!(bridge.apply(), Err(Error::AlreadyTornDown)));
    assert_eq!(bridge.set_uploaded(1, &Vec::new()), Err(Error::AlreadyTornDown));
    assert_eq!(bridge.sync_finished(), Err(Error::AlreadyTornDown));
    assert_eq!(bridge.reset(), Err(Error::AlreadyTornDown));
    assert_eq!(bridge.wipe(), Err(Error::AlreadyTornDown));

    // Teardown is idempotent.
    assert!(bridge.teardown().is_ok());
}

#[test]
fn bridge_reset_sync_id_connects() {
    let mut bridge = TabsBridge::new();
    let id = bridge.reset_sync_id().unwrap();
    assert_eq!(id.len(), 16);
    assert_eq!(bridge.get_sync_id().unwrap(), Some(id));
}
