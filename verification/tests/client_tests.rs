use mcp_client::client::{
    Client, Delivery, CODE_RESOURCE_NOT_FOUND, CODE_TOOL_NOT_FOUND, DEFAULT_TIMEOUT,
};
use mcp_client::correlate::Correlator;
use mcp_client::error::McpError;
use mcp_client::message::{decode_request, encode_response, Op, Outcome, Response};
use mcp_client::session::SessionState;
use mcp_client::value::Value;

const VERSION: &[u8] = b"2024-11-05";

/// A client whose handshake has completed: initialize sent and answered with
/// the requested protocol version.
fn ready_client() -> Client {
    let mut c = Client::new(DEFAULT_TIMEOUT);
    let (id, bytes) = c.initialize(VERSION.to_vec(), 0).expect("fresh client initializes");
    let req = decode_request(&bytes).expect("initialize request is well-formed");
    assert_eq!(req.id, id);
    assert_eq!(req.method, b"initialize".to_vec());
    assert_eq!(req.params, Value::Str(VERSION.to_vec()));
    let answer = encode_response(&Response {
        id,
        outcome: Outcome::Success(Value::Str(VERSION.to_vec())),
    });
    match c.on_message(&answer).expect("handshake answer is handled") {
        Delivery::Completed { id: rid, op, result } => {
            assert_eq!(rid, id);
            assert_eq!(op, Op::Initialize);
            assert_eq!(result.expect("handshake succeeds"), Value::Str(VERSION.to_vec()));
        }
        other => panic!("expected a completion, got {:?}", other),
    }
    assert_eq!(c.session.state, SessionState::Ready);
    c
}

#[test]
fn correlator_ids_are_monotonic_and_unique() {
    let mut c = Correlator::new();
    let a = c.register(Op::ListTools, 10).expect("ids left");
    let b = c.register(Op::ListTools, 10).expect("ids left");
    let d = c.register(Op::CallTool, 10).expect("ids left");
    assert_eq!((a, b, d), (0, 1, 2));
}

#[test]
fn response_reaches_only_the_matching_slot() {
    let mut c = Correlator::new();
    let a = c.register(Op::CallTool, 10).expect("ids left");
    let b = c.register(Op::CallTool, 10).expect("ids left");
    let hit = c.remove_pending(b).expect("slot b is pending");
    assert_eq!(hit.id, b);
    assert!(c.remove_pending(b).is_none());
    let hit = c.remove_pending(a).expect("slot a is untouched");
    assert_eq!(hit.id, a);
}

#[test]
fn unknown_response_id_is_discarded() {
    let mut c = Correlator::new();
    c.register(Op::ListTools, 10).expect("ids left");
    assert!(c.remove_pending(99).is_none());
}

#[test]
fn expiry_takes_only_overdue_slots() {
    let mut c = Correlator::new();
    let a = c.register(Op::ListTools, 5).expect("ids left");
    let b = c.register(Op::ListTools, 50).expect("ids left");
    let late = c.expire_one(10).expect("slot a is overdue");
    assert_eq!((late.id, late.deadline), (a, 5));
    assert!(c.expire_one(10).is_none());
    assert!(c.remove_pending(b).is_some());
}

#[test]
fn call_tool_before_initialize_is_invalid_state() {
    let mut c = Client::new(DEFAULT_TIMEOUT);
    let r = c.call_tool(b"write_file".to_vec(), Value::Null, 0);
    assert_eq!(r.unwrap_err(), McpError::InvalidState);
}

#[test]
fn call_tool_during_handshake_is_invalid_state() {
    let mut c = Client::new(DEFAULT_TIMEOUT);
    c.initialize(VERSION.to_vec(), 0).expect("fresh client initializes");
    let r = c.call_tool(b"write_file".to_vec(), Value::Null, 0);
    assert_eq!(r.unwrap_err(), McpError::InvalidState);
}

#[test]
fn second_initialize_is_invalid_state() {
    let mut c = ready_client();
    let r = c.initialize(VERSION.to_vec(), 0);
    assert_eq!(r.unwrap_err(), McpError::InvalidState);
}

#[test]
fn handshake_version_mismatch_fails_and_closes() {
    let mut c = Client::new(DEFAULT_TIMEOUT);
    let (id, _) = c.initialize(VERSION.to_vec(), 0).expect("fresh client initializes");
    let answer = encode_response(&Response {
        id,
        outcome: Outcome::Success(Value::Str(b"1999-01-01".to_vec())),
    });
    match c.on_message(&answer).expect("answer is handled") {
        Delivery::Completed { result, .. } => {
            assert_eq!(result.unwrap_err(), McpError::Handshake);
        }
        other => panic!("expected a completion, got {:?}", other),
    }
    assert_eq!(c.session.state, SessionState::Closed);
}

#[test]
fn handshake_failure_outcome_fails_and_closes() {
    let mut c = Client::new(DEFAULT_TIMEOUT);
    let (id, _) = c.initialize(VERSION.to_vec(), 0).expect("fresh client initializes");
    let answer = encode_response(&Response {
        id,
        outcome: Outcome::Failure { code: 10, data: Value::Null },
    });
    match c.on_message(&answer).expect("answer is handled") {
        Delivery::Completed { result, .. } => {
            assert_eq!(result.unwrap_err(), McpError::Handshake);
        }
        other => panic!("expected a completion, got {:?}", other),
    }
    assert_eq!(c.session.state, SessionState::Closed);
}

#[test]
fn scenario_list_read_then_closed_connection() {
    let mut c = ready_client();

    let (id, bytes) = c.list_resources(100).expect("ready client lists resources");
    let req = decode_request(&bytes).expect("request is well-formed");
    assert_eq!(req.method, b"resources/list".to_vec());
    let listing = Value::Arr(vec![Value::Str(b"file:///a.txt".to_vec())]);
    let answer = encode_response(&Response { id, outcome: Outcome::Success(listing) });
    match c.on_message(&answer).expect("listing is handled") {
        Delivery::Completed { id: rid, op, result } => {
            assert_eq!(rid, id);
            assert_eq!(op, Op::ListResources);
            let expected = Value::Arr(vec![Value::Str(b"file:///a.txt".to_vec())]);
            assert_eq!(result.expect("listing succeeds"), expected);
        }
        other => panic!("expected a completion, got {:?}", other),
    }

    let (id, bytes) = c.read_resource(b"file:///a.txt".to_vec(), 200).expect("ready client reads");
    let req = decode_request(&bytes).expect("request is well-formed");
    assert_eq!(req.method, b"resources/read".to_vec());
    assert_eq!(req.params, Value::Str(b"file:///a.txt".to_vec()));
    let answer = encode_response(&Response {
        id,
        outcome: Outcome::Success(Value::Str(b"contents of a".to_vec())),
    });
    match c.on_message(&answer).expect("content is handled") {
        Delivery::Completed { result, .. } => {
            assert_eq!(result.expect("read succeeds"), Value::Str(b"contents of a".to_vec()));
        }
        other => panic!("expected a completion, got {:?}", other),
    }

    let dropped = c.on_transport_closed();
    assert!(dropped.is_empty());
    let r = c.list_resources(300);
    assert_eq!(r.unwrap_err(), McpError::ConnectionClosed);
}

#[test]
fn scenario_out_of_order_responses_reach_their_own_callers() {
    let mut c = ready_client();
    let (id1, _) = c.call_tool(b"one".to_vec(), Value::Int(1), 0).expect("first call");
    let (id2, _) = c.call_tool(b"two".to_vec(), Value::Int(2), 0).expect("second call");
    assert_ne!(id1, id2);

    // the wire delivers the second answer first
    let second = encode_response(&Response {
        id: id2,
        outcome: Outcome::Success(Value::Str(b"for two".to_vec())),
    });
    match c.on_message(&second).expect("second answer is handled") {
        Delivery::Completed { id, op, result } => {
            assert_eq!(id, id2);
            assert_eq!(op, Op::CallTool);
            assert_eq!(result.expect("second call succeeds"), Value::Str(b"for two".to_vec()));
        }
        other => panic!("expected a completion, got {:?}", other),
    }
    let first = encode_response(&Response {
        id: id1,
        outcome: Outcome::Success(Value::Str(b"for one".to_vec())),
    });
    match c.on_message(&first).expect("first answer is handled") {
        Delivery::Completed { id, result, .. } => {
            assert_eq!(id, id1);
            assert_eq!(result.expect("first call succeeds"), Value::Str(b"for one".to_vec()));
        }
        other => panic!("expected a completion, got {:?}", other),
    }
}

#[test]
fn timeout_fails_request_and_late_response_is_discarded() {
    let mut c = ready_client();
    let (id, _) = c.call_tool(b"slow".to_vec(), Value::Null, 1000).expect("call accepted");
    // nothing is overdue before the deadline
    assert!(c.on_tick(1000 + DEFAULT_TIMEOUT).is_none());
    // past the deadline the caller times out
    let (tid, top) = c.on_tick(1001 + DEFAULT_TIMEOUT).expect("request is overdue");
    assert_eq!((tid, top), (id, Op::CallTool));
    assert!(c.on_tick(1001 + DEFAULT_TIMEOUT).is_none());
    // and the late response is discarded without effect
    let late = encode_response(&Response { id, outcome: Outcome::Success(Value::Null) });
    assert_eq!(c.on_message(&late).expect("late answer is handled"), Delivery::Ignored);
    assert_eq!(c.session.state, SessionState::Ready);
}

#[test]
fn cancelled_request_no_longer_waits() {
    let mut c = ready_client();
    let (id, _) = c.call_tool(b"t".to_vec(), Value::Null, 0).expect("call accepted");
    assert!(c.cancel(id));
    assert!(!c.cancel(id));
    let late = encode_response(&Response { id, outcome: Outcome::Success(Value::Null) });
    assert_eq!(c.on_message(&late).expect("late answer is handled"), Delivery::Ignored);
}

#[test]
fn remote_failures_map_to_typed_errors() {
    let mut c = ready_client();

    let (id, _) = c.call_tool(b"missing".to_vec(), Value::Null, 0).expect("call accepted");
    let answer = encode_response(&Response {
        id,
        outcome: Outcome::Failure { code: CODE_TOOL_NOT_FOUND, data: Value::Null },
    });
    match c.on_message(&answer).expect("answer is handled") {
        Delivery::Completed { result, .. } => {
            assert_eq!(result.unwrap_err(), McpError::ToolNotFound)
        }
        other => panic!("expected a completion, got {:?}", other),
    }

    let (id, _) = c.read_resource(b"file:///nope".to_vec(), 0).expect("read accepted");
    let answer = encode_response(&Response {
        id,
        outcome: Outcome::Failure { code: CODE_RESOURCE_NOT_FOUND, data: Value::Null },
    });
    match c.on_message(&answer).expect("answer is handled") {
        Delivery::Completed { result, .. } => {
            assert_eq!(result.unwrap_err(), McpError::ResourceNotFound)
        }
        other => panic!("expected a completion, got {:?}", other),
    }

    let (id, _) = c.call_tool(b"broken".to_vec(), Value::Null, 0).expect("call accepted");
    let answer = encode_response(&Response {
        id,
        outcome: Outcome::Failure { code: 99, data: Value::Str(b"stack trace".to_vec()) },
    });
    match c.on_message(&answer).expect("answer is handled") {
        Delivery::Completed { result, .. } => {
            let expected = McpError::Invocation { code: 99, data: Value::Str(b"stack trace".to_vec()) };
            assert_eq!(result.unwrap_err(), expected)
        }
        other => panic!("expected a completion, got {:?}", other),
    }
}

#[test]
fn malformed_message_is_fatal() {
    let mut c = ready_client();
    let (id, _) = c.call_tool(b"t".to_vec(), Value::Null, 0).expect("call accepted");
    let garbage: Vec<u8> = vec![255, 1, 2];
    assert_eq!(c.on_message(&garbage).unwrap_err(), McpError::Protocol);
    assert_eq!(c.session.state, SessionState::Closed);
    // the pending caller was dropped with the connection
    let late = encode_response(&Response { id, outcome: Outcome::Success(Value::Null) });
    assert_eq!(c.on_message(&late).expect("late answer is handled"), Delivery::Ignored);
}

#[test]
fn transport_close_drops_all_pending_callers() {
    let mut c = ready_client();
    let (id1, _) = c.call_tool(b"a".to_vec(), Value::Null, 0).expect("call accepted");
    let (id2, _) = c.call_tool(b"b".to_vec(), Value::Null, 0).expect("call accepted");
    let dropped = c.on_transport_closed();
    let ids: Vec<u64> = dropped.iter().map(|p| p.id).collect();
    assert_eq!(ids, vec![id1, id2]);
    assert_eq!(c.session.state, SessionState::Closed);
    assert_eq!(c.call_tool(b"c".to_vec(), Value::Null, 0).unwrap_err(), McpError::ConnectionClosed);
}

#[test]
fn spent_id_space_is_a_connection_failure() {
    let mut c = ready_client();
    c.correlator.next_id = u64::MAX;
    let r = c.call_tool(b"t".to_vec(), Value::Null, 0);
    assert_eq!(r.unwrap_err(), McpError::Connection);
}
