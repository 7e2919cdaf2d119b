//! The client facade: session, correlator and codec combined into one pure
//! state machine. Every step takes plain values — an instruction from the
//! caller, bytes from the wire, the clock — and returns plain values: the
//! bytes to send, or what to hand which caller. The surrounding program owns
//! the process and its pipes and drives this core in a loop; nothing here
//! performs I/O.

use vstd::prelude::*;
use crate::correlate::{Correlator, Pending};
use crate::error::McpError;
use crate::message::{
    Op, Request, Outcome, SpecOutcome, SpecRequest, SpecResponse, method_name, spec_method_name,
    encode_request, decode_response, spec_enc_request, spec_dec_response,
};
use crate::session::{Session, SessionState};
use crate::value::{Value, SpecValue, copy_bytes};

verus! {

/// The failure code a server reports for an unknown tool.
pub const CODE_TOOL_NOT_FOUND: u64 = 1;

/// The failure code a server reports for an unknown resource.
pub const CODE_RESOURCE_NOT_FOUND: u64 = 2;

/// The default per-request timeout, in the units of the caller's clock.
pub const DEFAULT_TIMEOUT: u64 = 30000;

/// What handling one inbound message yields.
#[derive(Debug, PartialEq)]
pub enum Delivery {
    /// The response reached the one caller whose request id matches; `op` is
    /// the operation that caller had issued.
    Completed { id: u64, op: Op, result: Result<Value, McpError> },
    /// No slot awaits the response id — it was never issued, was already
    /// answered, timed out or was cancelled — so the message is dropped
    /// without any effect on the waiting callers.
    Ignored,
}

/// The deadline of a request issued at `now`: its timeout later, saturated.
pub open spec fn spec_deadline(now: u64, timeout: u64) -> u64 {
    if now + timeout <= u64::MAX {
        (now + timeout) as u64
    } else {
        u64::MAX
    }
}

/// The parameters of a tool call: the tool's name and its arguments, as an
/// ordered mapping.
pub open spec fn spec_call_tool_params(name: Seq<u8>, args: SpecValue) -> SpecValue {
    SpecValue::Obj(
        seq![
            (seq![110u8, 97u8, 109u8, 101u8], SpecValue::Str(name)),  // "name"
            (seq![97u8, 114u8, 103u8, 117u8, 109u8, 101u8, 110u8, 116u8, 115u8], args),  // "arguments"
        ],
    )
}

/// The client: the session lifecycle, the correlation table, and the
/// configured per-request timeout.
#[derive(Debug)]
pub struct Client {
    pub session: Session,
    pub correlator: Correlator,
    pub timeout: u64,
}

/// An operation was accepted in the ready session: a fresh id was assigned,
/// its slot opened with the configured deadline, and the encoded request is
/// exactly the wire form of that operation under that id.
pub open spec fn submitted(
    pre: Client,
    post: Client,
    op: Op,
    params: SpecValue,
    now: u64,
    id: u64,
    bytes: Seq<u8>,
) -> bool {
    &&& pre.session.state == SessionState::Ready
    &&& post.session == pre.session
    &&& post.timeout == pre.timeout
    &&& id == pre.correlator.next_id
    &&& post.correlator.next_id == pre.correlator.next_id + 1
    &&& post.correlator.pending@ == pre.correlator.pending@.push(
        Pending { id, op, deadline: spec_deadline(now, pre.timeout) },
    )
    &&& post.correlator.has_pending(id)
    &&& bytes == spec_enc_request(SpecRequest { id, method: spec_method_name(op), params })
}

/// An operation was refused without any effect: outside `Ready` no wire call
/// is attempted — after a close the failure is the closed connection, in the
/// earlier states the invalid state — and with the id space spent no request
/// can be correlated.
pub open spec fn submit_refused(pre: Client, post: Client, e: McpError) -> bool {
    &&& post == pre
    &&& ((pre.session.state == SessionState::Closed && e == McpError::ConnectionClosed) || (
    pre.session.state != SessionState::Closed && pre.session.state != SessionState::Ready
        && e == McpError::InvalidState) || (pre.session.state == SessionState::Ready
        && pre.correlator.next_id == u64::MAX && e == McpError::Connection))
}

/// A well-formed response reached the one caller whose request id matches:
/// that slot alone closes, the operation the caller issued comes back with
/// it, and the outcome is typed — a result value on success; on failure the
/// remote code mapped to the tool or resource error, or the invocation error
/// carrying the remote payload; for the handshake, readiness exactly on the
/// requested protocol version and `Handshake` otherwise.
pub open spec fn delivered(
    pre: Client,
    post: Client,
    sresp: SpecResponse,
    id: u64,
    op: Op,
    result: Result<Value, McpError>,
) -> bool {
    &&& id == sresp.id
    &&& !post.correlator.has_pending(sresp.id)
    &&& forall|j: u64|
        j != sresp.id ==> (post.correlator.has_pending(j) <==> pre.correlator.has_pending(j))
    &&& post.correlator.next_id == pre.correlator.next_id
    &&& exists|i: int|
        0 <= i < pre.correlator.pending@.len() && (#[trigger] pre.correlator.pending@[i]).id
            == sresp.id && pre.correlator.pending@[i].op == op
    &&& if op == Op::Initialize {
        match sresp.outcome {
            SpecOutcome::Success(v) => if pre.session.state == SessionState::Handshaking && v
                == SpecValue::Str(pre.session.requested_version@) {
                post.session.state == SessionState::Ready && (post.session.capabilities
                    matches Some(c) && c.protocol_version@ == pre.session.requested_version@) && (
                result matches Ok(rv) && rv.deep_view() == v)
            } else {
                post.session.state == SessionState::Closed && result == Err::<Value, McpError>(
                    McpError::Handshake,
                )
            },
            SpecOutcome::Failure { .. } => post.session.state == SessionState::Closed && result
                == Err::<Value, McpError>(McpError::Handshake),
        }
    } else {
        &&& post.session == pre.session
        &&& match sresp.outcome {
            SpecOutcome::Success(v) => result matches Ok(rv) && rv.deep_view() == v,
            SpecOutcome::Failure { code, data } => if code == CODE_TOOL_NOT_FOUND {
                result == Err::<Value, McpError>(McpError::ToolNotFound)
            } else if code == CODE_RESOURCE_NOT_FOUND {
                result == Err::<Value, McpError>(McpError::ResourceNotFound)
            } else {
                result matches Err(McpError::Invocation { code: c, data: d }) && c == code
                    && d.deep_view() == data
            },
        }
    }
}

impl Client {
    pub open spec fn wf(self) -> bool {
        self.session.wf() && self.correlator.wf()
    }

    /// A fresh client around a connection that has not yet been initialized.
    pub fn new(timeout: u64) -> (c: Client)
        ensures
            c.wf(),
            c.session.state == SessionState::Uninitialized,
            c.correlator.pending@.len() == 0,
            c.correlator.next_id == 0,
            c.timeout == timeout,
    {
        Client { session: Session::new(), correlator: Correlator::new(), timeout }
    }

    fn deadline(&self, now: u64) -> (d: u64)
        ensures
            d == spec_deadline(now, self.timeout),
    {
        if self.timeout <= u64::MAX - now {
            now + self.timeout
        } else {
            u64::MAX
        }
    }

    /// Start the handshake: permitted only on a fresh client. On success the
    /// returned bytes carry the initialize request — its parameters are the
    /// requested protocol version — and the session awaits the answer.
    pub fn initialize(&mut self, protocol_version: Vec<u8>, now: u64) -> (r: Result<
        (u64, Vec<u8>),
        McpError,
    >)
        requires
            old(self).wf(),
        ensures
            final(self).wf(),
            match r {
                Ok((id, bytes)) => {
                    &&& old(self).session.state == SessionState::Uninitialized
                    &&& final(self).session.state == SessionState::Handshaking
                    &&& final(self).session.requested_version@ == protocol_version@
                    &&& final(self).timeout == old(self).timeout
                    &&& id == old(self).correlator.next_id
                    &&& final(self).correlator.next_id == old(self).correlator.next_id + 1
                    &&& final(self).correlator.pending@ == old(self).correlator.pending@.push(
                        Pending {
                            id,
                            op: Op::Initialize,
                            deadline: spec_deadline(now, old(self).timeout),
                        },
                    )
                    &&& final(self).correlator.has_pending(id)
                    &&& bytes@ == spec_enc_request(
                        SpecRequest {
                            id,
                            method: spec_method_name(Op::Initialize),
                            params: SpecValue::Str(protocol_version@),
                        },
                    )
                },
                Err(e) => *final(self) == *old(self) && ((old(self).session.state
                    == SessionState::Closed && e == McpError::ConnectionClosed) || (old(self).session.state != SessionState::Closed && old(self).session.state
                    != SessionState::Uninitialized && e == McpError::InvalidState) || (old(self).session.state == SessionState::Uninitialized && old(self).correlator.next_id
                    == u64::MAX && e == McpError::Connection)),
            },
    {
        if !matches!(self.session.state, SessionState::Uninitialized) {
            if matches!(self.session.state, SessionState::Closed) {
                return Err(McpError::ConnectionClosed);
            }
            return Err(McpError::InvalidState);
        }
        let deadline = self.deadline(now);
        let id = match self.correlator.register(Op::Initialize, deadline) {
            None => {
                return Err(McpError::Connection);
            },
            Some(id) => id,
        };
        let req = Request {
            id,
            method: method_name(Op::Initialize),
            params: Value::Str(copy_bytes(&protocol_version)),
        };
        let bytes = encode_request(&req);
        match self.session.begin_handshake(protocol_version) {
            Ok(()) => {},
            Err(e) => {
                return Err(e);
            },
        }
        Ok((id, bytes))
    }

    /// Submit one operation in the ready session: assign it a fresh id, open
    /// its pending slot, and hand back the bytes to put on the wire.
    pub fn submit(&mut self, op: Op, params: Value, now: u64) -> (r: Result<
        (u64, Vec<u8>),
        McpError,
    >)
        requires
            old(self).wf(),
        ensures
            final(self).wf(),
            match r {
                Ok((id, bytes)) => submitted(
                    *old(self),
                    *final(self),
                    op,
                    params.deep_view(),
                    now,
                    id,
                    bytes@,
                ),
                Err(e) => submit_refused(*old(self), *final(self), e),
            },
    {
        if !matches!(self.session.state, SessionState::Ready) {
            if matches!(self.session.state, SessionState::Closed) {
                return Err(McpError::ConnectionClosed);
            }
            return Err(McpError::InvalidState);
        }
        let deadline = self.deadline(now);
        let id = match self.correlator.register(op, deadline) {
            None => {
                return Err(McpError::Connection);
            },
            Some(id) => id,
        };
        let req = Request { id, method: method_name(op), params };
        let bytes = encode_request(&req);
        Ok((id, bytes))
    }

    /// Ask the server for its tools. Permitted only in `Ready`.
    pub fn list_tools(&mut self, now: u64) -> (r: Result<(u64, Vec<u8>), McpError>)
        requires
            old(self).wf(),
        ensures
            final(self).wf(),
            match r {
                Ok((id, bytes)) => submitted(
                    *old(self),
                    *final(self),
                    Op::ListTools,
                    SpecValue::Null,
                    now,
                    id,
                    bytes@,
                ),
                Err(e) => submit_refused(*old(self), *final(self), e),
            },
    {
        self.submit(Op::ListTools, Value::Null, now)
    }

    /// Ask the server for its resources. Permitted only in `Ready`.
    pub fn list_resources(&mut self, now: u64) -> (r: Result<(u64, Vec<u8>), McpError>)
        requires
            old(self).wf(),
        ensures
            final(self).wf(),
            match r {
                Ok((id, bytes)) => submitted(
                    *old(self),
                    *final(self),
                    Op::ListResources,
                    SpecValue::Null,
                    now,
                    id,
                    bytes@,
                ),
                Err(e) => submit_refused(*old(self), *final(self), e),
            },
    {
        self.submit(Op::ListResources, Value::Null, now)
    }

    /// Ask the server to read the resource under `uri`. Permitted only in
    /// `Ready`.
    pub fn read_resource(&mut self, uri: Vec<u8>, now: u64) -> (r: Result<
        (u64, Vec<u8>),
        McpError,
    >)
        requires
            old(self).wf(),
        ensures
            final(self).wf(),
            match r {
                Ok((id, bytes)) => submitted(
                    *old(self),
                    *final(self),
                    Op::ReadResource,
                    SpecValue::Str(uri@),
                    now,
                    id,
                    bytes@,
                ),
                Err(e) => submit_refused(*old(self), *final(self), e),
            },
    {
        self.submit(Op::ReadResource, Value::Str(uri), now)
    }

    /// Ask the server to run the tool `name` with `args`. Permitted only in
    /// `Ready`.
    pub fn call_tool(&mut self, name: Vec<u8>, args: Value, now: u64) -> (r: Result<
        (u64, Vec<u8>),
        McpError,
    >)
        requires
            old(self).wf(),
        ensures
            final(self).wf(),
            match r {
                Ok((id, bytes)) => submitted(
                    *old(self),
                    *final(self),
                    Op::CallTool,
                    spec_call_tool_params(name@, args.deep_view()),
                    now,
                    id,
                    bytes@,
                ),
                Err(e) => submit_refused(*old(self), *final(self), e),
            },
    {
        let mut key_name: Vec<u8> = Vec::new();
        key_name.push(110);
        key_name.push(97);
        key_name.push(109);
        key_name.push(101);
        let mut key_args: Vec<u8> = Vec::new();
        key_args.push(97);
        key_args.push(114);
        key_args.push(103);
        key_args.push(117);
        key_args.push(109);
        key_args.push(101);
        key_args.push(110);
        key_args.push(116);
        key_args.push(115);
        let ghost kn = key_name@;
        let ghost ka = key_args@;
        let ghost nm = name@;
        let ghost ag = args.deep_view();
        let mut pairs: Vec<(Vec<u8>, Value)> = Vec::new();
        pairs.push((key_name, Value::Str(name)));
        pairs.push((key_args, args));
        let params = Value::Obj(pairs);
        proof {
            assert(kn =~= seq![110u8, 97u8, 109u8, 101u8]);
            assert(ka =~= seq![97u8, 114u8, 103u8, 117u8, 109u8, 101u8, 110u8, 116u8, 115u8]);
            assert(crate::value::deep_pairs(pairs@) =~= seq![
                (seq![110u8, 97u8, 109u8, 101u8], SpecValue::Str(nm)),
                (seq![97u8, 114u8, 103u8, 117u8, 109u8, 101u8, 110u8, 116u8, 115u8], ag),
            ]);
            assert(params.deep_view() == spec_call_tool_params(nm, ag));
        }
        self.submit(Op::CallTool, params, now)
    }

    /// Take one inbound message. A malformed message is fatal: the session
    /// closes and every pending caller is dropped. A well-formed response
    /// reaches exactly the caller whose request id matches — no other slot
    /// is touched — and one whose id matches no slot is discarded without
    /// effect.
    pub fn on_message(&mut self, bytes: &Vec<u8>) -> (r: Result<Delivery, McpError>)
        requires
            old(self).wf(),
        ensures
            final(self).wf(),
            final(self).timeout == old(self).timeout,
            match spec_dec_response(bytes@) {
                None => r == Err::<Delivery, McpError>(McpError::Protocol) && final(self).session.state == SessionState::Closed && final(self).correlator.pending@.len()
                    == 0,
                Some(sresp) => if !old(self).correlator.has_pending(sresp.id) {
                    r == Ok::<Delivery, McpError>(Delivery::Ignored) && *final(self) == *old(self)
                } else {
                    match r {
                        Ok(d) => d matches Delivery::Completed { id, op, result } && delivered(
                            *old(self),
                            *final(self),
                            sresp,
                            id,
                            op,
                            result,
                        ),
                        Err(_) => false,
                    }
                },
            },
    {
        let resp = match decode_response(bytes) {
            None => {
                self.session.close();
                let _dropped = self.correlator.take_all();
                return Err(McpError::Protocol);
            },
            Some(resp) => resp,
        };
        let p = match self.correlator.remove_pending(resp.id) {
            None => {
                return Ok(Delivery::Ignored);
            },
            Some(p) => p,
        };
        let result: Result<Value, McpError> = if matches!(p.op, Op::Initialize) {
            match resp.outcome {
                Outcome::Success(v) => match v {
                    Value::Str(s) => {
                        let became = self.session.try_ready(copy_bytes(&s));
                        if became {
                            Ok(Value::Str(s))
                        } else {
                            self.session.close();
                            Err(McpError::Handshake)
                        }
                    },
                    _ => {
                        self.session.close();
                        Err(McpError::Handshake)
                    },
                },
                Outcome::Failure { .. } => {
                    self.session.close();
                    Err(McpError::Handshake)
                },
            }
        } else {
            match resp.outcome {
                Outcome::Success(v) => Ok(v),
                Outcome::Failure { code, data } => if code == CODE_TOOL_NOT_FOUND {
                    Err(McpError::ToolNotFound)
                } else if code == CODE_RESOURCE_NOT_FOUND {
                    Err(McpError::ResourceNotFound)
                } else {
                    Err(McpError::Invocation { code, data })
                },
            }
        };
        Ok(Delivery::Completed { id: p.id, op: p.op, result })
    }

    /// Let time pass: take one request whose deadline lies before `now`, if
    /// any does. That caller — and only that caller — fails with the timeout;
    /// its slot is gone, so a response arriving later is discarded. Call
    /// repeatedly until `None`, which says every pending request has time
    /// left.
    pub fn on_tick(&mut self, now: u64) -> (r: Option<(u64, Op)>)
        requires
            old(self).wf(),
        ensures
            final(self).wf(),
            final(self).session == old(self).session,
            final(self).timeout == old(self).timeout,
            final(self).correlator.next_id == old(self).correlator.next_id,
            match r {
                Some((id, op)) => old(self).correlator.has_pending(id) && !final(self).correlator.has_pending(id) && (forall|j: u64|
                    j != id ==> (final(self).correlator.has_pending(j) <==> old(self).correlator.has_pending(j))) && (exists|i: int|
                    0 <= i < old(self).correlator.pending@.len() && (#[trigger] old(self).correlator.pending@[i]).id == id && old(self).correlator.pending@[i].op == op
                        && old(self).correlator.pending@[i].deadline < now),
                None => (forall|i: int|
                    0 <= i < old(self).correlator.pending@.len() ==> (#[trigger] old(self).correlator.pending@[i]).deadline >= now) && *final(self) == *old(self),
            },
    {
        match self.correlator.expire_one(now) {
            Some(p) => Some((p.id, p.op)),
            None => None,
        }
    }

    /// Withdraw a request: its slot is removed without an error to the
    /// transport, and a response arriving later is discarded as unexpected.
    /// Returns whether the request was still pending.
    pub fn cancel(&mut self, id: u64) -> (r: bool)
        requires
            old(self).wf(),
        ensures
            final(self).wf(),
            final(self).session == old(self).session,
            final(self).timeout == old(self).timeout,
            final(self).correlator.next_id == old(self).correlator.next_id,
            r == old(self).correlator.has_pending(id),
            !final(self).correlator.has_pending(id),
            forall|j: u64|
                j != id ==> (final(self).correlator.has_pending(j) <==> old(self).correlator.has_pending(j)),
    {
        match self.correlator.remove_pending(id) {
            Some(_) => true,
            None => false,
        }
    }

    /// The transport reported a closed connection: the session closes and
    /// every pending caller is handed back at once, to be failed together.
    pub fn on_transport_closed(&mut self) -> (dropped: Vec<Pending>)
        requires
            old(self).wf(),
        ensures
            final(self).wf(),
            final(self).session.state == SessionState::Closed,
            final(self).timeout == old(self).timeout,
            final(self).correlator.next_id == old(self).correlator.next_id,
            final(self).correlator.pending@.len() == 0,
            dropped@ == old(self).correlator.pending@,
    {
        self.session.close();
        self.correlator.take_all()
    }
}

} // verus!
