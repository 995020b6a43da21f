//! Errors that end a session.

use vstd::prelude::*;

verus! {

/// Why bytes received from the endpoint could not be turned into typed values.
#[derive(Clone, Copy, Debug, PartialEq, Eq, Structural)]
pub enum DecodeError {
    /// A transport buffer was not valid UTF-8.
    InvalidUtf8,
    /// An event was shorter than the field prefix plus one byte, or did not
    /// start with the field prefix.
    Framing,
    /// A payload was not JSON, or not JSON of the expected shape.
    Json,
}

/// Why a session ended before the endpoint had finished its answer.
#[derive(Clone, Copy, Debug, PartialEq, Eq, Structural)]
pub enum SessionError {
    /// The connection could not be made, was reset, or the endpoint answered
    /// with a status that is not a success.
    Transport,
    /// What came in could not be decoded.
    Decode(DecodeError),
    /// A chunk did not hold exactly one choice.
    ProtocolViolation,
}

/// Why a request could not be built.
#[derive(Clone, Copy, Debug, PartialEq, Eq, Structural)]
pub enum RequestError {
    /// The dialog to send holds no message.
    EmptyDialog,
}

} // verus!
