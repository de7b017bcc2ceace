//! The error taxonomy of the node connection.
//!
//! The transport layer reports failures as explicit tagged variants, so the
//! retry classifier can match on them instead of inspecting error types at
//! run time. The daemon-level [`BitcoindError`] mirrors the three ways a
//! node interaction goes wrong: a malformed or unexpected answer, a
//! transport-level failure, and a short batch answer.

use vstd::prelude::*;

verus! {

/// One failure of a single request to the node, as the transport saw it.
#[derive(Clone, Copy, PartialEq, Eq, Structural, Debug)]
pub enum TransportError {
    /// The configured endpoint is not a well-formed URL. Misconfiguration:
    /// never retried.
    InvalidUrl,
    /// The socket to the node could not be used at all. Misconfiguration or
    /// a dead node: never retried.
    SocketError,
    /// The node answered with bytes that do not frame an HTTP response.
    HttpParse,
    /// Any other transport failure: a busy or restarting node.
    OtherTransport,
    /// The answer was not the JSON we expect at the serialization layer.
    Json,
    /// The node itself rejected the request with an application-level error
    /// of this code. Surfaced to the caller, never retried.
    Rpc { code: i32 },
}

/// An error of one logical interaction with the node.
#[derive(Debug)]
pub enum BitcoindError {
    /// The node's answer did not hold what the daemon relies on: a missing
    /// or ill-typed field, a value that does not parse. Fatal for the call.
    Custom(String),
    /// The transport failed and the retry policy gave up, or the node
    /// rejected the request.
    Server(TransportError),
    /// A batch of requests came back with fewer answers than requests.
    BatchMissingResponse,
}

} // verus!
