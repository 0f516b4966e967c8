//! The bridged sync engine: one canonical engine type implementing the
//! whole session-state-machine contract over the record store, the
//! incoming buffer and the sync association.
//!
//! The engine is driven by an external orchestrator through the
//! lifecycle calls of [`crate::machine`]. Each method here promises, in
//! its contract, exactly the table of that module: a guarded call
//! returns `InvalidSequence` if and only if it is not allowed in the
//! current session state, and an error leaves the engine unchanged.
//!
//! Concurrency: the host dispatches each operation onto one serial
//! queue, so at most one operation is in flight per engine; `&mut self`
//! here is the verified form of that single-writer discipline.
//!
//! Timestamps: incoming records carry no per-record server timestamp
//! at this boundary. The engine keeps one last-synced timestamp, moved
//! by `set_uploaded` and `set_last_sync`; this is deliberate, and the
//! contracts of those two methods pin it.

use vstd::prelude::*;

use crate::envelope::{
    all_decode, bytes_eq, clone_bytes, decode, decoded_batch, first_decode_error,
    lemma_first_decode_error, raws_of, spec_decode, Envelope, EnvelopeModel,
};
use crate::error::Error;
use crate::guid::{is_hex_digit, random_guid};
use crate::machine::{call_allowed, EngineState, LifecycleCall};
use crate::store::{
    apply_batch, clear_changed, clear_changed_for, ids_codable, outgoing_of, reconciled_count,
    unique_ids, views_of, RecordModel, TabsStore,
};

verus! {

/// The engine's belief about its sync identifier: connected under one
/// identifier, or not associated at all.
pub enum SyncAssociation {
    Connected(Vec<u8>),
    Disconnected,
}

/// The model of a [`SyncAssociation`].
#[verifier::ext_equal]
pub ghost enum AssocModel {
    Connected(Seq<u8>),
    Disconnected,
}

impl View for SyncAssociation {
    type V = AssocModel;

    open spec fn view(&self) -> AssocModel {
        match self {
            SyncAssociation::Connected(id) => AssocModel::Connected(id@),
            SyncAssociation::Disconnected => AssocModel::Disconnected,
        }
    }
}

/// What `apply` hands back: the outgoing set, and how many incoming
/// records merged without conflict (`None` would mean "unknown"; this
/// engine always knows the count).
pub struct ApplyResult {
    pub envelopes: Vec<Envelope>,
    pub num_reconciled: Option<usize>,
}

/// The mathematical model of the whole engine.
#[verifier::ext_equal]
pub ghost struct BridgeModel {
    /// Where the current sync pass stands.
    pub state: EngineState,
    /// The envelopes received since the last `store_incoming`.
    pub buffer: Seq<EnvelopeModel>,
    /// The sync association.
    pub assoc: AssocModel,
    /// When the engine last synced, in milliseconds; 0 means never.
    pub last_sync: i64,
    /// The stored records.
    pub records: Seq<RecordModel>,
}

/// The engine after `ensure_current_sync_id(candidate)`: if the
/// candidate is already current nothing moves; otherwise the
/// orchestrator's identifier wins — the engine adopts it and resets its
/// local bookkeeping (the timestamp), keeping user data.
pub open spec fn ensure_model(m: BridgeModel, candidate: Seq<u8>) -> BridgeModel {
    if m.assoc == AssocModel::Connected(candidate) {
        m
    } else {
        BridgeModel { assoc: AssocModel::Connected(candidate), last_sync: 0, ..m }
    }
}

/// Whether `ensure_current_sync_id(candidate)` would reset.
pub open spec fn ensure_triggers_reset(m: BridgeModel, candidate: Seq<u8>) -> bool {
    m.assoc != AssocModel::Connected(candidate)
}

/// Law: two `ensure_current_sync_id` calls in a row with the same
/// candidate reset at most once — after the first, the candidate is
/// current, so the second triggers no reset and changes nothing.
pub proof fn lemma_ensure_current_idempotent(m: BridgeModel, candidate: Seq<u8>)
    ensures
        !ensure_triggers_reset(ensure_model(m, candidate), candidate),
        ensure_model(ensure_model(m, candidate), candidate) == ensure_model(m, candidate),
{
}

/// The engine's model right after an `apply`: the pass awaits its
/// upload, the buffer is drained, and every changed mark was collected
/// into the outgoing set and cleared.
pub open spec fn applied_model(m: BridgeModel) -> BridgeModel {
    BridgeModel {
        state: EngineState::AwaitingApply,
        buffer: Seq::empty(),
        records: clear_changed(apply_batch(m.records, m.buffer)),
        ..m
    }
}

/// Law: an `apply` right after an `apply`, with no `store_incoming`
/// between them, produces an empty outgoing set — the first call
/// drained the buffer and cleared every changed mark.
pub proof fn lemma_second_apply_outgoing_empty(m: BridgeModel)
    ensures
        outgoing_of(apply_batch(applied_model(m).records, applied_model(m).buffer))
            == Seq::<EnvelopeModel>::empty(),
{
    crate::store::lemma_second_apply_empty(m.records, m.buffer);
}

/// The canonical bridged engine for the tab collection.
pub struct TabsStoreBridge {
    state: EngineState,
    buffer: Vec<Envelope>,
    assoc: SyncAssociation,
    last_sync_millis: i64,
    inner: TabsStore,
}

impl View for TabsStoreBridge {
    type V = BridgeModel;

    closed spec fn view(&self) -> BridgeModel {
        BridgeModel {
            state: self.state,
            buffer: views_of(self.buffer@),
            assoc: self.assoc@,
            last_sync: self.last_sync_millis,
            records: self.inner@,
        }
    }
}

/// Every buffered envelope can be re-encoded: nonempty identifier that
/// fits the codec's header.
pub open spec fn buffer_codable(buffer: Seq<EnvelopeModel>) -> bool {
    forall|i: int| 0 <= i < buffer.len() ==> 1 <= (#[trigger] buffer[i]).id.len() <= u32::MAX
}

/// The engine's invariant: record identifiers are unique and codable,
/// and so is every buffered envelope.
pub open spec fn model_wf(m: BridgeModel) -> bool {
    unique_ids(m.records) && ids_codable(m.records) && buffer_codable(m.buffer)
}

impl TabsStoreBridge {
    /// The engine's invariant, over its model.
    pub open spec fn wf(&self) -> bool {
        model_wf(self@)
    }

    /// A fresh engine: idle, empty store, no association, never synced.
    pub fn new() -> (b: TabsStoreBridge)
        ensures
            b.wf(),
            b@ == (BridgeModel {
                state: EngineState::Idle,
                buffer: Seq::empty(),
                assoc: AssocModel::Disconnected,
                last_sync: 0,
                records: Seq::empty(),
            }),
    {
        let b = TabsStoreBridge {
            state: EngineState::Idle,
            buffer: Vec::new(),
            assoc: SyncAssociation::Disconnected,
            last_sync_millis: 0,
            inner: TabsStore::new(),
        };
        proof {
            assert(b@ =~= (BridgeModel {
                state: EngineState::Idle,
                buffer: Seq::empty(),
                assoc: AssocModel::Disconnected,
                last_sync: 0,
                records: Seq::empty(),
            }));
        }
        b
    }

    /// The record store this engine owns.
    pub fn get(&self) -> (s: &TabsStore)
        ensures
            s@ == self@.records,
    {
        &self.inner
    }

    /// Local edits go through the engine to the store it owns.
    pub fn store_local(&mut self, id: Vec<u8>, payload: Vec<u8>)
        requires
            old(self).wf(),
            1 <= id@.len() <= u32::MAX,
        ensures
            final(self).wf(),
            final(self)@ == (BridgeModel {
                records: crate::store::set_local_model(old(self)@.records, id@, payload@),
                ..old(self)@
            }),
    {
        self.inner.set_local(id, payload);
    }

    /// Where the current sync pass stands.
    pub fn session_state(&self) -> (s: EngineState)
        ensures
            s == self@.state,
    {
        self.state
    }

    /// When the engine last synced; 0 means never.
    pub fn last_sync(&self) -> (r: i64)
        ensures
            r == self@.last_sync,
    {
        self.last_sync_millis
    }

    /// Records the last-synced timestamp.
    pub fn set_last_sync(&mut self, millis: i64)
        requires
            old(self).wf(),
        ensures
            final(self).wf(),
            final(self)@ == (BridgeModel { last_sync: millis, ..old(self)@ }),
    {
        self.last_sync_millis = millis;
    }

    /// The current sync identifier, or nothing while disconnected.
    pub fn sync_id(&self) -> (r: Option<Vec<u8>>)
        ensures
            (r is Some) == (self@.assoc is Connected),
            r matches Some(v) ==> v@ == self@.assoc->Connected_0,
    {
        match &self.assoc {
            SyncAssociation::Connected(id) => Some(clone_bytes(id)),
            SyncAssociation::Disconnected => None,
        }
    }

    /// Generates a fresh random identifier, drops the old association
    /// in its favour, and clears the last-synced timestamp; stored
    /// records are kept. Returns the new identifier.
    pub fn reset_sync_id(&mut self) -> (r: Vec<u8>)
        requires
            old(self).wf(),
        ensures
            final(self).wf(),
            r@.len() == 16,
            forall|i: int| 0 <= i < r@.len() ==> is_hex_digit(#[trigger] r@[i]),
            final(self)@ == (BridgeModel {
                assoc: AssocModel::Connected(r@),
                last_sync: 0,
                ..old(self)@
            }),
    {
        let id = random_guid();
        self.assoc = SyncAssociation::Connected(clone_bytes(&id));
        self.last_sync_millis = 0;
        id
    }

    /// Makes `candidate` the engine's identifier: a no-op when it
    /// already is; otherwise the orchestrator's identifier wins and the
    /// local bookkeeping is reset (user data is kept). Returns the
    /// adopted identifier.
    pub fn ensure_current_sync_id(&mut self, candidate: &Vec<u8>) -> (r: Vec<u8>)
        requires
            old(self).wf(),
        ensures
            final(self).wf(),
            r@ == candidate@,
            final(self)@ == ensure_model(old(self)@, candidate@),
    {
        let same = match &self.assoc {
            SyncAssociation::Connected(cur) => bytes_eq(cur, candidate),
            SyncAssociation::Disconnected => false,
        };
        if !same {
            self.assoc = SyncAssociation::Connected(clone_bytes(candidate));
            self.last_sync_millis = 0;
        }
        clone_bytes(candidate)
    }

    /// Starts a sync pass. Always legal: it is also how the
    /// orchestrator retries a whole pass after an error. The incoming
    /// buffer starts the pass empty; no data carries across passes.
    pub fn sync_started(&mut self) -> (r: Result<(), Error>)
        requires
            old(self).wf(),
        ensures
            final(self).wf(),
            r is Ok,
            final(self)@ == (BridgeModel {
                state: EngineState::Started,
                buffer: Seq::empty(),
                ..old(self)@
            }),
    {
        self.state = EngineState::Started;
        self.buffer = Vec::new();
        proof {
            assert(views_of(Seq::<Envelope>::empty()) =~= Seq::<EnvelopeModel>::empty());
        }
        Ok(())
    }

    /// Decodes an incoming batch and replaces the buffer's whole
    /// contents with it. If any entry is malformed the call fails and
    /// the buffer is left unmodified — no partial buffering. Refused
    /// with `InvalidSequence` once the pass has applied.
    pub fn store_incoming(&mut self, raw: &Vec<Vec<u8>>) -> (r: Result<(), Error>)
        requires
            old(self).wf(),
        ensures
            final(self).wf(),
            !call_allowed(old(self)@.state, LifecycleCall::StoreIncoming) ==> r == Err::<
                (),
                Error,
            >(Error::InvalidSequence) && final(self)@ == old(self)@,
            call_allowed(old(self)@.state, LifecycleCall::StoreIncoming) && all_decode(
                raws_of(raw@),
            ) ==> r is Ok && final(self)@ == (BridgeModel {
                buffer: decoded_batch(raws_of(raw@)),
                ..old(self)@
            }),
            call_allowed(old(self)@.state, LifecycleCall::StoreIncoming) && !all_decode(
                raws_of(raw@),
            ) ==> r == Err::<(), Error>(Error::Decode(first_decode_error(raws_of(raw@))))
                && final(self)@ == old(self)@,
    {
        if !matches!(self.state, EngineState::Started) {
            return Err(Error::InvalidSequence);
        }
        let mut envs: Vec<Envelope> = Vec::new();
        let mut i: usize = 0;
        while i < raw.len()
            invariant
                *self == *old(self),
                self.wf(),
                self@.state == EngineState::Started,
                i <= raw@.len(),
                forall|k: int| 0 <= k < i ==> spec_decode(#[trigger] raws_of(raw@)[k]) is Ok,
                envs@.len() == i,
                forall|k: int|
                    0 <= k < i ==> (#[trigger] envs@[k])@ == spec_decode(raws_of(raw@)[k])->Ok_0,
                buffer_codable(views_of(envs@)),
            decreases raw.len() - i,
        {
            match decode(&raw[i]) {
                Ok(e) => {
                    proof {
                        assert(raws_of(raw@)[i as int] == raw@[i as int]@);
                        let d = spec_decode(raws_of(raw@)[i as int]);
                        assert(e@ == d->Ok_0);
                        assert(1 <= d->Ok_0.id.len() <= u32::MAX);
                        assert(buffer_codable(views_of(envs@.push(e))));
                    }
                    envs.push(e);
                },
                Err(de) => {
                    proof {
                        assert(raws_of(raw@)[i as int] == raw@[i as int]@);
                        lemma_first_decode_error(raws_of(raw@), i as int);
                    }
                    return Err(Error::Decode(de));
                },
            }
            i = i + 1;
        }
        proof {
            assert(views_of(envs@) =~= decoded_batch(raws_of(raw@)));
        }
        self.buffer = envs;
        proof {
            assert(self@ =~= (BridgeModel { buffer: decoded_batch(raws_of(raw@)), ..old(self)@ }));
        }
        Ok(())
    }

    /// Reconciles the buffered batch against the store, drains the
    /// buffer, and returns the outgoing set with the reconciled count.
    /// Legal in `Started` and again right after an `apply`, where the
    /// drained buffer makes the repeat harmless.
    pub fn apply(&mut self) -> (r: Result<ApplyResult, Error>)
        requires
            old(self).wf(),
        ensures
            final(self).wf(),
            !call_allowed(old(self)@.state, LifecycleCall::Apply) ==> r == Err::<
                ApplyResult,
                Error,
            >(Error::InvalidSequence) && final(self)@ == old(self)@,
            call_allowed(old(self)@.state, LifecycleCall::Apply) ==> {
                &&& r is Ok
                &&& final(self)@ == (BridgeModel {
                    state: EngineState::AwaitingApply,
                    buffer: Seq::empty(),
                    records: clear_changed(
                        apply_batch(old(self)@.records, old(self)@.buffer),
                    ),
                    ..old(self)@
                })
                &&& views_of(r->Ok_0.envelopes@) == outgoing_of(
                    apply_batch(old(self)@.records, old(self)@.buffer),
                )
                &&& r->Ok_0.num_reconciled matches Some(n) && n == reconciled_count(
                    old(self)@.records,
                    old(self)@.buffer,
                )
            },
    {
        let allowed = matches!(self.state, EngineState::Started)
            || matches!(self.state, EngineState::AwaitingApply);
        if !allowed {
            return Err(Error::InvalidSequence);
        }
        proof {
            assert(views_of(self.buffer@) == self@.buffer);
            assert forall|k: int| 0 <= k < self.buffer@.len() implies 1 <= (
            #[trigger] self.buffer@[k])@.id.len() <= u32::MAX by {
                assert(self@.buffer[k] == self.buffer@[k]@);
            }
        }
        let reconciled = self.inner.apply_incoming(&self.buffer);
        let out = self.inner.drain_outgoing();
        self.buffer = Vec::new();
        self.state = EngineState::AwaitingApply;
        proof {
            assert(views_of(Seq::<Envelope>::empty()) =~= Seq::<EnvelopeModel>::empty());
        }
        Ok(ApplyResult { envelopes: out, num_reconciled: Some(reconciled) })
    }

    /// Confirms an upload: clears the changed mark of the uploaded
    /// records and moves the last-synced timestamp to the server's.
    /// Refused with `InvalidSequence` until `apply` has run this pass.
    pub fn set_uploaded(&mut self, server_modified_millis: i64, ids: &Vec<Vec<u8>>) -> (r: Result<
        (),
        Error,
    >)
        requires
            old(self).wf(),
        ensures
            final(self).wf(),
            !call_allowed(old(self)@.state, LifecycleCall::SetUploaded) ==> r == Err::<
                (),
                Error,
            >(Error::InvalidSequence) && final(self)@ == old(self)@,
            call_allowed(old(self)@.state, LifecycleCall::SetUploaded) ==> r is Ok
                && final(self)@ == (BridgeModel {
                state: EngineState::Uploaded,
                last_sync: server_modified_millis,
                records: clear_changed_for(old(self)@.records, raws_of(ids@)),
                ..old(self)@
            }),
    {
        let allowed = matches!(self.state, EngineState::AwaitingApply)
            || matches!(self.state, EngineState::Uploaded);
        if !allowed {
            return Err(Error::InvalidSequence);
        }
        self.inner.clear_marks(ids);
        self.last_sync_millis = server_modified_millis;
        self.state = EngineState::Uploaded;
        Ok(())
    }

    /// Ends the pass and empties the buffer. Always legal and
    /// idempotent: it is also the cleanup path after an
    /// orchestrator-side error.
    pub fn sync_finished(&mut self) -> (r: Result<(), Error>)
        requires
            old(self).wf(),
        ensures
            final(self).wf(),
            r is Ok,
            final(self)@ == (BridgeModel {
                state: EngineState::Idle,
                buffer: Seq::empty(),
                ..old(self)@
            }),
    {
        self.state = EngineState::Idle;
        self.buffer = Vec::new();
        proof {
            assert(views_of(Seq::<Envelope>::empty()) =~= Seq::<EnvelopeModel>::empty());
        }
        Ok(())
    }

    /// Drops the association and the last-synced timestamp and empties
    /// the buffer. Stored records are not deleted. Always legal.
    pub fn reset(&mut self) -> (r: Result<(), Error>)
        requires
            old(self).wf(),
        ensures
            final(self).wf(),
            r is Ok,
            final(self)@ == (BridgeModel {
                state: EngineState::Idle,
                buffer: Seq::empty(),
                assoc: AssocModel::Disconnected,
                last_sync: 0,
                records: old(self)@.records,
            }),
    {
        self.state = EngineState::Idle;
        self.buffer = Vec::new();
        self.assoc = SyncAssociation::Disconnected;
        self.last_sync_millis = 0;
        proof {
            assert(views_of(Seq::<Envelope>::empty()) =~= Seq::<EnvelopeModel>::empty());
        }
        Ok(())
    }

    /// Deletes every stored record and empties the buffer. The sync
    /// identifier and the timestamp are deliberately kept: wiping user
    /// data does not change who the engine is. Always legal.
    pub fn wipe(&mut self) -> (r: Result<(), Error>)
        requires
            old(self).wf(),
        ensures
            final(self).wf(),
            r is Ok,
            final(self)@ == (BridgeModel {
                state: EngineState::Idle,
                buffer: Seq::empty(),
                records: Seq::empty(),
                ..old(self)@
            }),
    {
        self.state = EngineState::Idle;
        self.buffer = Vec::new();
        self.inner.delete_all();
        proof {
            assert(views_of(Seq::<Envelope>::empty()) =~= Seq::<EnvelopeModel>::empty());
        }
        Ok(())
    }
}

} // verus!
