//! The session state machine. A session is born uninitialized, enters the
//! handshake when `initialize` is sent, becomes ready exactly when the server
//! answers with the protocol version that was requested, and closes on
//! handshake failure, explicit close or transport failure. The negotiated
//! capabilities are stored when the session becomes ready and never change
//! afterwards.

use vstd::prelude::*;
use crate::error::McpError;

verus! {

/// The lifecycle of a session.
#[derive(Clone, Copy, Debug, PartialEq, Eq, Structural)]
pub enum SessionState {
    Uninitialized,
    Handshaking,
    Ready,
    Closed,
}

/// The feature set agreed during the handshake; immutable for the rest of
/// the session once it is ready.
#[derive(Debug, PartialEq)]
pub struct Capabilities {
    pub protocol_version: Vec<u8>,
}

/// The session: its state, the protocol version the handshake asked for, and
/// the negotiated capabilities once ready.
#[derive(Debug)]
pub struct Session {
    pub state: SessionState,
    pub requested_version: Vec<u8>,
    pub capabilities: Option<Capabilities>,
}

impl Session {
    /// Capabilities exist exactly from the moment the session became ready.
    pub open spec fn wf(self) -> bool {
        match self.state {
            SessionState::Uninitialized => self.capabilities is None,
            SessionState::Handshaking => self.capabilities is None,
            SessionState::Ready => self.capabilities is Some,
            SessionState::Closed => true,
        }
    }

    pub fn new() -> (s: Session)
        ensures
            s.wf(),
            s.state == SessionState::Uninitialized,
            s.capabilities is None,
    {
        Session {
            state: SessionState::Uninitialized,
            requested_version: Vec::new(),
            capabilities: None,
        }
    }

    /// Start the handshake: permitted only while nothing has been sent yet.
    /// After a close, the failure is the closed connection, not the state.
    pub fn begin_handshake(&mut self, protocol_version: Vec<u8>) -> (r: Result<(), McpError>)
        requires
            old(self).wf(),
        ensures
            final(self).wf(),
            match r {
                Ok(()) => old(self).state == SessionState::Uninitialized && final(self).state
                    == SessionState::Handshaking && final(self).requested_version@
                    == protocol_version@ && final(self).capabilities is None,
                Err(e) => *final(self) == *old(self) && old(self).state
                    != SessionState::Uninitialized && e == (
                if old(self).state == SessionState::Closed {
                    McpError::ConnectionClosed
                } else {
                    McpError::InvalidState
                }),
            },
    {
        match self.state {
            SessionState::Uninitialized => {
                self.state = SessionState::Handshaking;
                self.requested_version = protocol_version;
                Ok(())
            },
            SessionState::Closed => Err(McpError::ConnectionClosed),
            _ => Err(McpError::InvalidState),
        }
    }

    /// Accept the server's protocol version and become ready — but only from
    /// within the handshake, and only when it is the version that was
    /// requested. Returns whether the session became ready.
    pub fn try_ready(&mut self, server_version: Vec<u8>) -> (r: bool)
        requires
            old(self).wf(),
        ensures
            final(self).wf(),
            r == (old(self).state == SessionState::Handshaking && server_version@ == old(self).requested_version@),
            r ==> final(self).state == SessionState::Ready && (final(self).capabilities
                matches Some(c) && c.protocol_version@ == server_version@) && final(self).requested_version@ == old(self).requested_version@,
            !r ==> *final(self) == *old(self),
    {
        if !matches!(self.state, SessionState::Handshaking) {
            return false;
        }
        if !crate::value::bytes_eq(&server_version, &self.requested_version) {
            return false;
        }
        self.state = SessionState::Ready;
        self.capabilities = Some(Capabilities { protocol_version: server_version });
        true
    }

    /// Close the session: after a handshake failure, an explicit close or a
    /// transport failure, no further operation is permitted.
    pub fn close(&mut self)
        requires
            old(self).wf(),
        ensures
            final(self).wf(),
            final(self).state == SessionState::Closed,
            final(self).requested_version@ == old(self).requested_version@,
            final(self).capabilities == old(self).capabilities,
    {
        self.state = SessionState::Closed;
    }
}

} // verus!
