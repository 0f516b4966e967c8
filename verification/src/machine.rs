//! The sync session state machine: which lifecycle calls are legal in
//! which session state, and which state each call leads to.
//!
//! The orchestrator is an external, possibly buggy caller; this table
//! exists so that illegal call sequences surface as a distinct error
//! (`InvalidSequence`) instead of silently corrupting store state. The
//! engine methods in [`crate::bridge`] promise to follow exactly this
//! table: a call returns `InvalidSequence` if and only if it is not
//! allowed here, and then leaves the engine unchanged.

use vstd::prelude::*;

verus! {

/// Where a sync pass stands. The initial state is `Idle`; a finished
/// pass returns to `Idle`.
#[derive(Clone, Copy, Debug, PartialEq, Eq, Structural)]
pub enum EngineState {
    /// No sync pass is under way.
    Idle,
    /// `sync_started` ran; the engine accepts incoming batches.
    Started,
    /// `apply` ran; the outgoing set is with the orchestrator.
    AwaitingApply,
    /// `set_uploaded` ran; the pass only awaits `sync_finished`.
    Uploaded,
}

/// The lifecycle calls the state machine guards. Calls that only read or
/// set bookkeeping (timestamps, the sync identifier) are legal in every
/// state and are not listed.
#[derive(Clone, Copy, Debug, PartialEq, Eq, Structural)]
pub enum LifecycleCall {
    SyncStarted,
    StoreIncoming,
    Apply,
    SetUploaded,
    SyncFinished,
    Reset,
    Wipe,
}

/// Whether `call` is legal in state `s`.
///
/// `sync_started` is always legal: it is how the orchestrator retries a
/// whole pass after a failure. `sync_finished`, `reset` and `wipe` are
/// always legal because they are also the cleanup paths after an
/// orchestrator-side error. `store_incoming` is refused once the pass
/// has applied. `apply` is legal again right after an `apply`, so a
/// repeated call drains nothing and is harmless. `set_uploaded` is
/// refused until `apply` has run.
pub open spec fn call_allowed(s: EngineState, call: LifecycleCall) -> bool {
    match call {
        LifecycleCall::SyncStarted => true,
        LifecycleCall::StoreIncoming => s == EngineState::Started,
        LifecycleCall::Apply => s == EngineState::Started || s == EngineState::AwaitingApply,
        LifecycleCall::SetUploaded => s == EngineState::AwaitingApply || s
            == EngineState::Uploaded,
        LifecycleCall::SyncFinished => true,
        LifecycleCall::Reset => true,
        LifecycleCall::Wipe => true,
    }
}

/// The state after `call` runs in state `s`, provided it was allowed.
pub open spec fn call_next(s: EngineState, call: LifecycleCall) -> EngineState {
    match call {
        LifecycleCall::SyncStarted => EngineState::Started,
        LifecycleCall::StoreIncoming => EngineState::Started,
        LifecycleCall::Apply => EngineState::AwaitingApply,
        LifecycleCall::SetUploaded => EngineState::Uploaded,
        LifecycleCall::SyncFinished => EngineState::Idle,
        LifecycleCall::Reset => EngineState::Idle,
        LifecycleCall::Wipe => EngineState::Idle,
    }
}

/// The state reached from `s0` after the first `i` calls of `calls`,
/// stepping through the table without regard to legality.
pub open spec fn state_after(s0: EngineState, calls: Seq<LifecycleCall>, i: int) -> EngineState
    recommends
        0 <= i <= calls.len(),
    decreases i,
{
    if i <= 0 {
        s0
    } else {
        call_next(state_after(s0, calls, i - 1), calls[i - 1])
    }
}

/// A run is legal when every call is allowed in the state it meets.
pub open spec fn legal_run(s0: EngineState, calls: Seq<LifecycleCall>) -> bool {
    forall|i: int| 0 <= i < calls.len() ==> call_allowed(state_after(s0, calls, i), calls[i])
}

/// Law: along a legal run every call is allowed at the state it meets,
/// so by the engine contracts no call in the run returns
/// `InvalidSequence`; and a prefix of a legal run is itself legal, so
/// the guarantee holds while the run unfolds.
pub proof fn lemma_legal_run_prefix(s0: EngineState, calls: Seq<LifecycleCall>, k: int)
    requires
        legal_run(s0, calls),
        0 <= k <= calls.len(),
    ensures
        legal_run(s0, calls.take(k)),
        forall|i: int| 0 <= i < k ==> call_allowed(state_after(s0, calls, i), calls[i]),
{
    assert forall|i: int| 0 <= i < k implies call_allowed(
        state_after(s0, calls.take(k), i),
        calls.take(k)[i],
    ) by {
        lemma_state_after_take(s0, calls, k, i);
    }
}

/// States reached do not depend on the calls beyond the point reached.
pub proof fn lemma_state_after_take(s0: EngineState, calls: Seq<LifecycleCall>, k: int, i: int)
    requires
        0 <= i <= k <= calls.len(),
    ensures
        state_after(s0, calls.take(k), i) == state_after(s0, calls, i),
    decreases i,
{
    if i > 0 {
        lemma_state_after_take(s0, calls, k, i - 1);
    }
}

/// Law: the canonical pass — started, incoming stored, applied,
/// uploaded, finished — is a legal run from `Idle`, and it ends `Idle`
/// again.
pub proof fn lemma_canonical_pass_legal()
    ensures
        legal_run(
            EngineState::Idle,
            seq![
                LifecycleCall::SyncStarted,
                LifecycleCall::StoreIncoming,
                LifecycleCall::Apply,
                LifecycleCall::SetUploaded,
                LifecycleCall::SyncFinished,
            ],
        ),
        state_after(
            EngineState::Idle,
            seq![
                LifecycleCall::SyncStarted,
                LifecycleCall::StoreIncoming,
                LifecycleCall::Apply,
                LifecycleCall::SetUploaded,
                LifecycleCall::SyncFinished,
            ],
            5,
        ) == EngineState::Idle,
{
    let calls = seq![
        LifecycleCall::SyncStarted,
        LifecycleCall::StoreIncoming,
        LifecycleCall::Apply,
        LifecycleCall::SetUploaded,
        LifecycleCall::SyncFinished,
    ];
    assert(state_after(EngineState::Idle, calls, 0) == EngineState::Idle);
    assert(state_after(EngineState::Idle, calls, 1) == EngineState::Started);
    assert(state_after(EngineState::Idle, calls, 2) == EngineState::Started);
    assert(state_after(EngineState::Idle, calls, 3) == EngineState::AwaitingApply);
    assert(state_after(EngineState::Idle, calls, 4) == EngineState::Uploaded);
    assert(state_after(EngineState::Idle, calls, 5) == EngineState::Idle);
    assert forall|i: int| 0 <= i < calls.len() implies call_allowed(
        state_after(EngineState::Idle, calls, i),
        calls[i],
    ) by {
        assert(0 <= i < 5);
    }
}

} // verus!
