//! Error taxonomy of the signaling core.
//!
//! Decode failures are contained where they occur: a malformed message is
//! dropped, never fatal to a session.  Protocol failures end the session
//! and are not retried.  A capacity failure rejects a single send on the
//! bounded backend without tearing the transport down.

use vstd::prelude::*;

verus! {

/// A message, or a field of one, could not be decoded.
#[derive(Clone, Copy, Debug, PartialEq, Eq, Structural)]
pub enum DecodeError {
    /// The bytes are not a well-formed document.
    Syntax,
    /// Nesting exceeds the fixed depth bound.
    TooDeep,
    /// A string is not valid UTF-8.
    InvalidString,
    /// A required field is absent.
    MissingField,
    /// A field is present but has the wrong shape.
    WrongType,
    /// The envelope discriminant names a different message kind than the
    /// one being decoded; a mismatch is an error, not a silent default.
    WrongPayloadType,
}

/// The remote peer answered in a way that ends the session.
#[derive(Clone, Copy, Debug, PartialEq, Eq, Structural)]
pub enum ProtocolError {
    /// The answer status was `offline`.
    PeerOffline,
    /// The answer status was `in_use`.
    RoomInUse,
    /// Required setup is missing, such as an unconfigured room.
    NotConfigured,
}

/// The outbound queue of the bounded backend is full; one send is
/// rejected, the transport stays up.
#[derive(Clone, Copy, Debug, PartialEq, Eq, Structural)]
pub struct CapacityError;

} // verus!
