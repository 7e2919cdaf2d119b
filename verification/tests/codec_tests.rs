use mcp_client::codec::{decode_value, encode_value};
use mcp_client::frame::{frame_message, FrameBuffer};
use mcp_client::message::{
    decode_request, decode_response, encode_request, encode_response, method_name, Op, Outcome,
    Request, Response,
};
use mcp_client::value::Value;

fn enc(v: &Value) -> Vec<u8> {
    let mut out: Vec<u8> = Vec::new();
    encode_value(v, &mut out);
    out
}

fn round_trip(v: Value) {
    let bytes = enc(&v);
    let (back, used) = decode_value(&bytes, 0).expect("encoding must decode");
    assert_eq!(used, bytes.len());
    assert_eq!(back, v);
}

#[test]
fn null_has_exact_encoding() {
    assert_eq!(enc(&Value::Null), vec![0u8]);
}

#[test]
fn bool_has_exact_encoding() {
    assert_eq!(enc(&Value::Bool(false)), vec![1u8, 0]);
    assert_eq!(enc(&Value::Bool(true)), vec![1u8, 1]);
}

#[test]
fn int_has_exact_encoding() {
    assert_eq!(enc(&Value::Int(5)), vec![2u8, 0, 0, 0, 0, 0, 0, 0, 0, 5]);
    // -1 encodes as sign 1 with magnitude 0
    assert_eq!(enc(&Value::Int(-1)), vec![2u8, 1, 0, 0, 0, 0, 0, 0, 0, 0]);
}

#[test]
fn str_has_exact_encoding() {
    assert_eq!(
        enc(&Value::Str(b"ab".to_vec())),
        vec![3u8, 0, 0, 0, 0, 0, 0, 0, 2, 97, 98]
    );
}

#[test]
fn scalar_round_trips() {
    round_trip(Value::Null);
    round_trip(Value::Bool(true));
    round_trip(Value::Bool(false));
    round_trip(Value::Int(0));
    round_trip(Value::Int(123456789));
    round_trip(Value::Int(-123456789));
    round_trip(Value::Int(i64::MAX));
    round_trip(Value::Int(i64::MIN));
    round_trip(Value::Str(Vec::new()));
    round_trip(Value::Str(b"file:///a.txt".to_vec()));
}

#[test]
fn nested_value_round_trips() {
    let v = Value::Obj(vec![
        (b"tools".to_vec(), Value::Arr(vec![
            Value::Str(b"write_file".to_vec()),
            Value::Obj(vec![(b"n".to_vec(), Value::Int(-7))]),
        ])),
        (b"ok".to_vec(), Value::Bool(true)),
        (b"empty".to_vec(), Value::Arr(Vec::new())),
    ]);
    round_trip(v);
}

#[test]
fn unknown_tag_is_rejected() {
    assert!(decode_value(&vec![9u8], 0).is_none());
}

#[test]
fn truncated_value_is_rejected() {
    let bytes = enc(&Value::Str(b"abcdef".to_vec()));
    let cut = bytes[..bytes.len() - 1].to_vec();
    assert!(decode_value(&cut, 0).is_none());
}

#[test]
fn non_canonical_bool_is_rejected() {
    assert!(decode_value(&vec![1u8, 2u8], 0).is_none());
}

#[test]
fn request_round_trips() {
    let r = Request {
        id: 42,
        method: method_name(Op::CallTool),
        params: Value::Obj(vec![(b"name".to_vec(), Value::Str(b"find_imports".to_vec()))]),
    };
    let bytes = encode_request(&r);
    let back = decode_request(&bytes).expect("encoded request must decode");
    assert_eq!(back, r);
}

#[test]
fn request_with_trailing_bytes_is_rejected() {
    let r = Request { id: 1, method: b"tools/list".to_vec(), params: Value::Null };
    let mut bytes = encode_request(&r);
    bytes.push(0);
    assert!(decode_request(&bytes).is_none());
}

#[test]
fn response_round_trips() {
    let ok = Response { id: 7, outcome: Outcome::Success(Value::Str(b"hello".to_vec())) };
    let bytes = encode_response(&ok);
    assert_eq!(decode_response(&bytes).expect("must decode"), ok);

    let fail = Response {
        id: 8,
        outcome: Outcome::Failure { code: 3, data: Value::Str(b"boom".to_vec()) },
    };
    let bytes = encode_response(&fail);
    assert_eq!(decode_response(&bytes).expect("must decode"), fail);
}

#[test]
fn short_response_is_rejected() {
    assert!(decode_response(&vec![0u8; 5]).is_none());
}

#[test]
fn frame_layout_is_count_then_payload() {
    let framed = frame_message(&b"xyz".to_vec());
    assert_eq!(framed, vec![0u8, 0, 0, 0, 0, 0, 0, 3, 120, 121, 122]);
}

#[test]
fn partial_frames_are_buffered_not_rejected() {
    let framed = frame_message(&b"payload".to_vec());
    let mut buf = FrameBuffer::new();
    buf.feed(&framed[..4].to_vec());
    assert!(buf.next_frame().is_none());
    buf.feed(&framed[4..10].to_vec());
    assert!(buf.next_frame().is_none());
    buf.feed(&framed[10..].to_vec());
    assert_eq!(buf.next_frame().expect("frame is complete"), b"payload".to_vec());
    assert!(buf.next_frame().is_none());
}

#[test]
fn two_frames_step_out_in_order() {
    let mut buf = FrameBuffer::new();
    let mut bytes = frame_message(&b"one".to_vec());
    bytes.extend_from_slice(&frame_message(&b"two".to_vec()));
    buf.feed(&bytes);
    assert_eq!(buf.next_frame().expect("first frame"), b"one".to_vec());
    assert_eq!(buf.next_frame().expect("second frame"), b"two".to_vec());
    assert!(buf.next_frame().is_none());
}
