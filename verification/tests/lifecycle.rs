//! The session state machine: legal passes run without
//! `InvalidSequence`; any call from a state where it is not allowed
//! reports `InvalidSequence` and changes nothing.

use tabs_bridge::bridge::TabsStoreBridge;
use tabs_bridge::envelope::{encode, Envelope};
use tabs_bridge::error::{DecodeError, Error};
use tabs_bridge::machine::EngineState;

fn raw_batch(entries: &[(&[u8], &[u8])]) -> Vec<Vec<u8>> {
    entries
        .iter()
        .map(|(id, payload)| encode(&Envelope::new(id.to_vec(), payload.to_vec())))
        .collect()
}

#[test]
fn canonical_pass_no_invalid_sequence() {
    let mut engine = TabsStoreBridge::new();
    assert_eq!(engine.session_state(), EngineState::Idle);

    assert!(engine.sync_started().is_ok());
    assert_eq!(engine.session_state(), EngineState::Started);

    assert!(engine.store_incoming(&raw_batch(&[(b"a", &[1])])).is_ok());
    assert_eq!(engine.session_state(), EngineState::Started);

    assert!(engine.apply().is_ok());
    assert_eq!(engine.session_state(), EngineState::AwaitingApply);

    assert!(engine.set_uploaded(1000, &vec![b"a".to_vec()]).is_ok());
    assert_eq!(engine.session_state(), EngineState::Uploaded);

    assert!(engine.sync_finished().is_ok());
    assert_eq!(engine.session_state(), EngineState::Idle);
}

#[test]
fn store_incoming_before_start_invalid() {
    let mut engine = TabsStoreBridge::new();
    let r = engine.store_incoming(&raw_batch(&[(b"a", &[1])]));
    assert_eq!(r, Err(Error::InvalidSequence));
    assert_eq!(engine.session_state(), EngineState::Idle);
    assert_eq!(engine.get().record_count(), 0);
}

#[test]
fn store_incoming_after_apply_invalid() {
    let mut engine = TabsStoreBridge::new();
    engine.sync_started().unwrap();
    engine.store_incoming(&raw_batch(&[(b"a", &[1])])).unwrap();
    engine.apply().unwrap();
    let r = engine.store_incoming(&raw_batch(&[(b"b", &[2])]));
    assert_eq!(r, Err(Error::InvalidSequence));
    assert_eq!(engine.session_state(), EngineState::AwaitingApply);
}

#[test]
fn apply_from_idle_invalid() {
    let mut engine = TabsStoreBridge::new();
    let r = engine.apply();
    assert!(matches!(r, Err(Error::InvalidSequence)));
    assert_eq!(engine.session_state(), EngineState::Idle);
}

#[test]
fn set_uploaded_before_apply_invalid() {
    let mut engine = TabsStoreBridge::new();
    engine.sync_started().unwrap();
    let r = engine.set_uploaded(1000, &Vec::new());
    assert_eq!(r, Err(Error::InvalidSequence));
    assert_eq!(engine.session_state(), EngineState::Started);
}

#[test]
fn sync_finished_always_legal_idempotent() {
    let mut engine = TabsStoreBridge::new();
    assert!(engine.sync_finished().is_ok());
    assert!(engine.sync_finished().is_ok());
    assert_eq!(engine.session_state(), EngineState::Idle);
    engine.sync_started().unwrap();
    assert!(engine.sync_finished().is_ok());
    assert_eq!(engine.session_state(), EngineState::Idle);
}

#[test]
fn malformed_batch_leaves_buffer_unmodified() {
    let mut engine = TabsStoreBridge::new();
    engine.sync_started().unwrap();
    engine.store_incoming(&raw_batch(&[(b"a", &[1])])).unwrap();

    // One good entry, then a truncated one: the whole call fails and
    // the previously buffered batch stays.
    let bad = vec![encode(&Envelope::new(b"b".to_vec(), vec![2])), vec![9, 9]];
    let r = engine.store_incoming(&bad);
    assert_eq!(r, Err(Error::Decode(DecodeError::Truncated)));

    let result = engine.apply().unwrap();
    assert!(result.envelopes.is_empty());
    let store = engine.get();
    assert_eq!(store.record_count(), 1);
    assert!(store.get_record(&b"a".to_vec()).is_some());
    assert!(store.get_record(&b"b".to_vec()).is_none());
}

#[test]
fn second_apply_yields_empty_outgoing() {
    let mut engine = TabsStoreBridge::new();
    engine.store_local(b"a".to_vec(), vec![7]);
    engine.sync_started().unwrap();
    engine.store_incoming(&raw_batch(&[(b"b", &[5])])).unwrap();

    let first = engine.apply().unwrap();
    assert_eq!(first.envelopes.len(), 1);
    assert_eq!(first.envelopes[0].id, b"a".to_vec());

    // No new store_incoming: the buffer is drained and every changed
    // mark was cleared, so the second apply has nothing to send.
    let second = engine.apply().unwrap();
    assert!(second.envelopes.is_empty());
    assert_eq!(second.num_reconciled, Some(0));
    assert_eq!(engine.session_state(), EngineState::AwaitingApply);
}

#[test]
fn sync_started_restarts_after_error() {
    let mut engine = TabsStoreBridge::new();
    engine.sync_started().unwrap();
    engine.store_incoming(&raw_batch(&[(b"a", &[1])])).unwrap();
    engine.apply().unwrap();
    // The orchestrator gives up mid-pass and retries from the start.
    assert!(engine.sync_started().is_ok());
    assert_eq!(engine.session_state(), EngineState::Started);
    // The retry starts with an empty buffer: nothing carries across.
    let result = engine.apply().unwrap();
    assert_eq!(result.num_reconciled, Some(0));
}
