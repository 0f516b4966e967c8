//! A bridged synchronization engine for a tab collection: a verified
//! state machine that lets an external sync orchestrator drive a local
//! record store through a fixed lifecycle (start, exchange records,
//! reconcile, finish), with an envelope codec for the records on the
//! wire and an identity manager for the engine's sync identifier.
//!
//! [`TabsBridge`] is the entry point the host talks to: a pure
//! pass-through around the canonical engine
//! [`bridge::TabsStoreBridge`], which owns the store, the incoming
//! buffer and the association. The bridge adds exactly one thing:
//! teardown. Once torn down, every call reports `AlreadyTornDown`.

use vstd::prelude::*;

pub mod bridge;
pub mod envelope;
pub mod error;
pub mod guid;
pub mod machine;
pub mod store;

use crate::bridge::{
    model_wf, ApplyResult, AssocModel, BridgeModel, ensure_model, TabsStoreBridge,
};
use crate::envelope::{all_decode, decoded_batch, first_decode_error, raws_of};
use crate::error::Error;
use crate::guid::is_hex_digit;
use crate::machine::{call_allowed, EngineState, LifecycleCall};
use crate::store::{apply_batch, clear_changed, clear_changed_for, outgoing_of, reconciled_count};

verus! {

/// The engine as the host sees it: a live engine with its model, or an
/// instance already torn down.
pub struct TabsBridge {
    engine: Option<TabsStoreBridge>,
}

impl View for TabsBridge {
    type V = Option<BridgeModel>;

    closed spec fn view(&self) -> Option<BridgeModel> {
        match self.engine {
            Some(e) => Some(e@),
            None => None,
        }
    }
}

impl TabsBridge {
    /// A live bridge holds a well-formed engine.
    pub open spec fn wf(&self) -> bool {
        self@ matches Some(m) ==> model_wf(m)
    }

    /// Creates a bridge around a fresh engine.
    pub fn new() -> (b: TabsBridge)
        ensures
            b.wf(),
            b@ == Some(
                BridgeModel {
                    state: EngineState::Idle,
                    buffer: Seq::empty(),
                    assoc: AssocModel::Disconnected,
                    last_sync: 0,
                    records: Seq::empty(),
                },
            ),
    {
        TabsBridge { engine: Some(TabsStoreBridge::new()) }
    }

    /// The engine behind this bridge, or `AlreadyTornDown` once it is
    /// gone.
    pub fn store(&self) -> (r: Result<&TabsStoreBridge, Error>)
        ensures
            (r is Ok) == (self@ is Some),
            r matches Ok(e) ==> Some(e@) == self@,
            r matches Err(er) ==> er == Error::AlreadyTornDown,
    {
        match &self.engine {
            Some(e) => Ok(e),
            None => Err(Error::AlreadyTornDown),
        }
    }

    /// Tears the engine down. Idempotent; afterwards every engine call
    /// reports `AlreadyTornDown`.
    pub fn teardown(&mut self) -> (r: Result<(), Error>)
        ensures
            r is Ok,
            final(self)@ is None,
            final(self).wf(),
    {
        self.engine = None;
        Ok(())
    }

    /// The schema version of the storage this engine syncs.
    pub fn get_storage_version(&self) -> (v: i32)
        ensures
            v == 1,
    {
        1
    }

    /// Whether the orchestrator may skip records too large for the
    /// server: merging can produce oversized records, and the engine
    /// tolerates their omission.
    pub fn get_allow_skipped_record(&self) -> (v: bool)
        ensures
            v == true,
    {
        true
    }

    /// When the engine last synced; 0 means never.
    pub fn get_last_sync(&self) -> (r: Result<i64, Error>)
        ensures
            (r is Ok) == (self@ is Some),
            r matches Ok(ms) ==> ms == self@->Some_0.last_sync,
            r matches Err(er) ==> er == Error::AlreadyTornDown,
    {
        match &self.engine {
            Some(e) => Ok(e.last_sync()),
            None => Err(Error::AlreadyTornDown),
        }
    }

    /// Records the last-synced timestamp.
    pub fn set_last_sync(&mut self, millis: i64) -> (r: Result<(), Error>)
        requires
            old(self).wf(),
        ensures
            final(self).wf(),
            old(self)@ is None ==> r == Err::<(), Error>(Error::AlreadyTornDown) && final(self)@ is None,
            old(self)@ matches Some(m) ==> r is Ok && final(self)@ == Some(
                BridgeModel { last_sync: millis, ..m },
            ),
    {
        match &mut self.engine {
            Some(e) => {
                e.set_last_sync(millis);
                Ok(())
            },
            None => Err(Error::AlreadyTornDown),
        }
    }

    /// The current sync identifier, or nothing while disconnected.
    pub fn get_sync_id(&self) -> (r: Result<Option<Vec<u8>>, Error>)
        ensures
            (r is Ok) == (self@ is Some),
            r matches Ok(id) ==> {
                &&& (id is Some) == (self@->Some_0.assoc is Connected)
                &&& id matches Some(v) ==> v@ == self@->Some_0.assoc->Connected_0
            },
            r matches Err(er) ==> er == Error::AlreadyTornDown,
    {
        match &self.engine {
            Some(e) => Ok(e.sync_id()),
            None => Err(Error::AlreadyTornDown),
        }
    }

    /// Generates and adopts a fresh random identifier; see
    /// [`TabsStoreBridge::reset_sync_id`].
    pub fn reset_sync_id(&mut self) -> (r: Result<Vec<u8>, Error>)
        requires
            old(self).wf(),
        ensures
            final(self).wf(),
            old(self)@ is None ==> r == Err::<Vec<u8>, Error>(Error::AlreadyTornDown) && final(self)@ is None,
            old(self)@ matches Some(m) ==> {
                &&& r is Ok
                &&& r->Ok_0@.len() == 16
                &&& forall|i: int|
                    0 <= i < r->Ok_0@.len() ==> is_hex_digit(#[trigger] r->Ok_0@[i])
                &&& final(self)@ == Some(
                    BridgeModel {
                        assoc: AssocModel::Connected(r->Ok_0@),
                        last_sync: 0,
                        ..m
                    },
                )
            },
    {
        match &mut self.engine {
            Some(e) => Ok(e.reset_sync_id()),
            None => Err(Error::AlreadyTornDown),
        }
    }

    /// Adopts the orchestrator's identifier unless it is already
    /// current; see [`TabsStoreBridge::ensure_current_sync_id`].
    pub fn ensure_current_sync_id(&mut self, candidate: &Vec<u8>) -> (r: Result<Vec<u8>, Error>)
        requires
            old(self).wf(),
        ensures
            final(self).wf(),
            old(self)@ is None ==> r == Err::<Vec<u8>, Error>(Error::AlreadyTornDown) && final(self)@ is None,
            old(self)@ matches Some(m) ==> {
                &&& r is Ok
                &&& r->Ok_0@ == candidate@
                &&& final(self)@ == Some(ensure_model(m, candidate@))
            },
    {
        match &mut self.engine {
            Some(e) => Ok(e.ensure_current_sync_id(candidate)),
            None => Err(Error::AlreadyTornDown),
        }
    }

    /// Starts a sync pass; see [`TabsStoreBridge::sync_started`].
    pub fn sync_started(&mut self) -> (r: Result<(), Error>)
        requires
            old(self).wf(),
        ensures
            final(self).wf(),
            old(self)@ is None ==> r == Err::<(), Error>(Error::AlreadyTornDown) && final(self)@ is None,
            old(self)@ matches Some(m) ==> r is Ok && final(self)@ == Some(
                BridgeModel { state: EngineState::Started, buffer: Seq::empty(), ..m },
            ),
    {
        match &mut self.engine {
            Some(e) => e.sync_started(),
            None => Err(Error::AlreadyTornDown),
        }
    }

    /// Buffers an incoming batch; see
    /// [`TabsStoreBridge::store_incoming`].
    pub fn store_incoming(&mut self, raw: &Vec<Vec<u8>>) -> (r: Result<(), Error>)
        requires
            old(self).wf(),
        ensures
            final(self).wf(),
            old(self)@ is None ==> r == Err::<(), Error>(Error::AlreadyTornDown) && final(self)@ is None,
            old(self)@ matches Some(m) ==> {
                &&& !call_allowed(m.state, LifecycleCall::StoreIncoming) ==> r == Err::<
                    (),
                    Error,
                >(Error::InvalidSequence) && final(self)@ == Some(m)
                &&& call_allowed(m.state, LifecycleCall::StoreIncoming) && all_decode(
                    raws_of(raw@),
                ) ==> r is Ok && final(self)@ == Some(
                    BridgeModel { buffer: decoded_batch(raws_of(raw@)), ..m },
                )
                &&& call_allowed(m.state, LifecycleCall::StoreIncoming) && !all_decode(
                    raws_of(raw@),
                ) ==> r == Err::<(), Error>(Error::Decode(first_decode_error(raws_of(raw@))))
                    && final(self)@ == Some(m)
            },
    {
        match &mut self.engine {
            Some(e) => e.store_incoming(raw),
            None => Err(Error::AlreadyTornDown),
        }
    }

    /// Reconciles the buffered batch; see [`TabsStoreBridge::apply`].
    pub fn apply(&mut self) -> (r: Result<ApplyResult, Error>)
        requires
            old(self).wf(),
        ensures
            final(self).wf(),
            old(self)@ is None ==> r == Err::<ApplyResult, Error>(Error::AlreadyTornDown)
                && final(self)@ is None,
            old(self)@ matches Some(m) ==> {
                &&& !call_allowed(m.state, LifecycleCall::Apply) ==> r == Err::<
                    ApplyResult,
                    Error,
                >(Error::InvalidSequence) && final(self)@ == Some(m)
                &&& call_allowed(m.state, LifecycleCall::Apply) ==> {
                    &&& r is Ok
                    &&& final(self)@ == Some(
                        BridgeModel {
                            state: EngineState::AwaitingApply,
                            buffer: Seq::empty(),
                            records: clear_changed(apply_batch(m.records, m.buffer)),
                            ..m
                        },
                    )
                    &&& crate::store::views_of(r->Ok_0.envelopes@) == outgoing_of(
                        apply_batch(m.records, m.buffer),
                    )
                    &&& r->Ok_0.num_reconciled matches Some(n) && n == reconciled_count(
                        m.records,
                        m.buffer,
                    )
                }
            },
    {
        match &mut self.engine {
            Some(e) => e.apply(),
            None => Err(Error::AlreadyTornDown),
        }
    }

    /// Confirms an upload; see [`TabsStoreBridge::set_uploaded`].
    pub fn set_uploaded(&mut self, server_modified_millis: i64, ids: &Vec<Vec<u8>>) -> (r: Result<
        (),
        Error,
    >)
        requires
            old(self).wf(),
        ensures
            final(self).wf(),
            old(self)@ is None ==> r == Err::<(), Error>(Error::AlreadyTornDown) && final(self)@ is None,
            old(self)@ matches Some(m) ==> {
                &&& !call_allowed(m.state, LifecycleCall::SetUploaded) ==> r == Err::<
                    (),
                    Error,
                >(Error::InvalidSequence) && final(self)@ == Some(m)
                &&& call_allowed(m.state, LifecycleCall::SetUploaded) ==> r is Ok && final(self)@ == Some(
                    BridgeModel {
                        state: EngineState::Uploaded,
                        last_sync: server_modified_millis,
                        records: clear_changed_for(m.records, raws_of(ids@)),
                        ..m
                    },
                )
            },
    {
        match &mut self.engine {
            Some(e) => e.set_uploaded(server_modified_millis, ids),
            None => Err(Error::AlreadyTornDown),
        }
    }

    /// Ends the pass; see [`TabsStoreBridge::sync_finished`].
    pub fn sync_finished(&mut self) -> (r: Result<(), Error>)
        requires
            old(self).wf(),
        ensures
            final(self).wf(),
            old(self)@ is None ==> r == Err::<(), Error>(Error::AlreadyTornDown) && final(self)@ is None,
            old(self)@ matches Some(m) ==> r is Ok && final(self)@ == Some(
                BridgeModel { state: EngineState::Idle, buffer: Seq::empty(), ..m },
            ),
    {
        match &mut self.engine {
            Some(e) => e.sync_finished(),
            None => Err(Error::AlreadyTornDown),
        }
    }

    /// Drops association and timestamp, keeps records; see
    /// [`TabsStoreBridge::reset`].
    pub fn reset(&mut self) -> (r: Result<(), Error>)
        requires
            old(self).wf(),
        ensures
            final(self).wf(),
            old(self)@ is None ==> r == Err::<(), Error>(Error::AlreadyTornDown) && final(self)@ is None,
            old(self)@ matches Some(m) ==> r is Ok && final(self)@ == Some(
                BridgeModel {
                    state: EngineState::Idle,
                    buffer: Seq::empty(),
                    assoc: AssocModel::Disconnected,
                    last_sync: 0,
                    records: m.records,
                },
            ),
    {
        match &mut self.engine {
            Some(e) => e.reset(),
            None => Err(Error::AlreadyTornDown),
        }
    }

    /// Deletes every record, keeps the identity; see
    /// [`TabsStoreBridge::wipe`].
    pub fn wipe(&mut self) -> (r: Result<(), Error>)
        requires
            old(self).wf(),
        ensures
            final(self).wf(),
            old(self)@ is None ==> r == Err::<(), Error>(Error::AlreadyTornDown) && final(self)@ is None,
            old(self)@ matches Some(m) ==> r is Ok && final(self)@ == Some(
                BridgeModel {
                    state: EngineState::Idle,
                    buffer: Seq::empty(),
                    records: Seq::empty(),
                    ..m
                },
            ),
    {
        match &mut self.engine {
            Some(e) => e.wipe(),
            None => Err(Error::AlreadyTornDown),
        }
    }
}

} // verus!
