//! The failures a caller can see. Every public operation returns a typed
//! success or one of these; none of them is silently retried inside the
//! client.

use vstd::prelude::*;
use crate::value::Value;

verus! {

/// The failure taxonomy of the client.
#[derive(Debug, PartialEq)]
pub enum McpError {
    /// The transport could not be established, or no correlation id was left.
    Connection,
    /// Malformed bytes arrived; fatal to the connection.
    Protocol,
    /// A request was not answered within its timeout; local to that request.
    Timeout,
    /// The handshake failed or the protocol versions are incompatible; the
    /// session never reaches `Ready`.
    Handshake,
    /// The server knows no tool of the requested name.
    ToolNotFound,
    /// The server knows no resource under the requested URI.
    ResourceNotFound,
    /// The remote tool ran and failed; carries the remote diagnostic payload.
    Invocation { code: u64, data: Value },
    /// An operation was attempted outside the `Ready` state.
    InvalidState,
    /// The transport closed while the request was pending, or a request was
    /// issued after it closed.
    ConnectionClosed,
}

} // verus!
