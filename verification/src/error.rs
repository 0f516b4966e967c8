//! The error taxonomy the engine reports to the orchestrator.

use vstd::prelude::*;

verus! {

/// Why a raw record failed to decode into an [`crate::envelope::Envelope`].
#[derive(Clone, Copy, Debug, PartialEq, Eq, Structural)]
pub enum DecodeError {
    /// The raw bytes are shorter than the fixed header.
    Truncated,
    /// The header claims an identifier longer than the bytes that follow.
    IdOutOfBounds,
    /// The identifier has length zero; every record needs one.
    EmptyId,
}

/// Errors surfaced by the engine. None is silently swallowed: each call's
/// result carries exactly one of these when the call is refused.
#[derive(Clone, Copy, Debug, PartialEq, Eq, Structural)]
pub enum Error {
    /// A lifecycle call arrived in a session state where it is not legal.
    /// This reports a caller bug; the engine's state is left unchanged.
    InvalidSequence,
    /// An incoming raw record was malformed; the incoming buffer is left
    /// unmodified.
    Decode(DecodeError),
    /// The engine was used after it was torn down; fatal for the instance.
    AlreadyTornDown,
}

} // verus!
