//! Requests and responses, and their wire form. A request names a method and
//! carries structured parameters under a correlation id; a response carries
//! either a result value or a remote failure under the id of the request it
//! answers. Encoding is total for well-formed messages; decoding accepts
//! exactly the encodings and reads the message back — the round-trip laws are
//! proved here.

use vstd::prelude::*;
use crate::value::{Value, SpecValue};
use crate::codec::{
    u64_bytes, u64_of_bytes, lemma_u64_bytes_roundtrip, spec_enc_value, spec_dec_value,
    lemma_dec_enc_value, lemma_subrange_cat, push_u64, push_bytes, encode_value, decode_value,
    read_u64,
};

verus! {

/// One outbound call: a correlation id, a method name (UTF-8 bytes), and its
/// parameters.
#[derive(Debug, PartialEq)]
pub struct Request {
    pub id: u64,
    pub method: Vec<u8>,
    pub params: Value,
}

/// The model of a request.
pub struct SpecRequest {
    pub id: u64,
    pub method: Seq<u8>,
    pub params: SpecValue,
}

impl Request {
    pub open spec fn deep_view(self) -> SpecRequest {
        SpecRequest { id: self.id, method: self.method@, params: self.params.deep_view() }
    }
}

impl SpecRequest {
    /// The method name fits its 64-bit count and the parameters are
    /// well-formed; every request built at run time satisfies this.
    pub open spec fn wf(self) -> bool {
        self.method.len() <= u64::MAX && self.params.wf()
    }
}

/// What a response carries: the result of the call, or the remote failure,
/// with a numeric code and a diagnostic payload.
#[derive(Debug, PartialEq)]
pub enum Outcome {
    Success(Value),
    Failure { code: u64, data: Value },
}

/// The model of an outcome.
pub enum SpecOutcome {
    Success(SpecValue),
    Failure { code: u64, data: SpecValue },
}

impl Outcome {
    pub open spec fn deep_view(self) -> SpecOutcome {
        match self {
            Outcome::Success(v) => SpecOutcome::Success(v.deep_view()),
            Outcome::Failure { code, data } => SpecOutcome::Failure {
                code,
                data: data.deep_view(),
            },
        }
    }
}

impl SpecOutcome {
    pub open spec fn wf(self) -> bool {
        match self {
            SpecOutcome::Success(v) => v.wf(),
            SpecOutcome::Failure { code, data } => data.wf(),
        }
    }
}

/// One inbound answer: the id of the request it answers and its outcome.
#[derive(Debug, PartialEq)]
pub struct Response {
    pub id: u64,
    pub outcome: Outcome,
}

/// The model of a response.
pub struct SpecResponse {
    pub id: u64,
    pub outcome: SpecOutcome,
}

impl Response {
    pub open spec fn deep_view(self) -> SpecResponse {
        SpecResponse { id: self.id, outcome: self.outcome.deep_view() }
    }
}

impl SpecResponse {
    pub open spec fn wf(self) -> bool {
        self.outcome.wf()
    }
}

// ---------------------------------------------------------------------------
// Wire form, at the level of the model
// ---------------------------------------------------------------------------

/// A request on the wire: id, counted method name, parameters.
pub open spec fn spec_enc_request(r: SpecRequest) -> Seq<u8> {
    u64_bytes(r.id) + u64_bytes(r.method.len() as u64) + r.method + spec_enc_value(r.params)
}

/// Read a whole message back as a request, or `None` where the bytes are not
/// exactly the encoding of one.
pub open spec fn spec_dec_request(s: Seq<u8>) -> Option<SpecRequest> {
    if s.len() >= 16 {
        let id = u64_of_bytes(s.subrange(0, 8));
        let m = u64_of_bytes(s.subrange(8, 16)) as int;
        if 16 + m <= s.len() {
            match spec_dec_value(s, 16 + m) {
                Some((v, p)) => if p == s.len() {
                    Some(SpecRequest { id, method: s.subrange(16, 16 + m), params: v })
                } else {
                    None
                },
                None => None,
            }
        } else {
            None
        }
    } else {
        None
    }
}

/// A response on the wire: id, a tag for success or failure, then the result
/// value, or the failure code and its payload.
pub open spec fn spec_enc_response(r: SpecResponse) -> Seq<u8> {
    match r.outcome {
        SpecOutcome::Success(v) => u64_bytes(r.id) + seq![0u8] + spec_enc_value(v),
        SpecOutcome::Failure { code, data } => u64_bytes(r.id) + seq![1u8] + u64_bytes(code)
            + spec_enc_value(data),
    }
}

/// Read a whole message back as a response, or `None` where the bytes are not
/// exactly the encoding of one.
pub open spec fn spec_dec_response(s: Seq<u8>) -> Option<SpecResponse> {
    if s.len() >= 9 {
        let id = u64_of_bytes(s.subrange(0, 8));
        if s[8] == 0 {
            match spec_dec_value(s, 9) {
                Some((v, p)) => if p == s.len() {
                    Some(SpecResponse { id, outcome: SpecOutcome::Success(v) })
                } else {
                    None
                },
                None => None,
            }
        } else if s[8] == 1 {
            if s.len() >= 17 {
                let code = u64_of_bytes(s.subrange(9, 17));
                match spec_dec_value(s, 17) {
                    Some((v, p)) => if p == s.len() {
                        Some(SpecResponse { id, outcome: SpecOutcome::Failure { code, data: v } })
                    } else {
                        None
                    },
                    None => None,
                }
            } else {
                None
            }
        } else {
            None
        }
    } else {
        None
    }
}

// ---------------------------------------------------------------------------
// The round-trip laws: decoding an encoded message yields the message.
// ---------------------------------------------------------------------------

/// For every well-formed request, decoding its encoding yields it back.
pub proof fn lemma_request_roundtrip(r: SpecRequest)
    requires
        r.wf(),
    ensures
        spec_dec_request(spec_enc_request(r)) == Some(r),
{
    let s = spec_enc_request(r);
    let ev = spec_enc_value(r.params);
    let mb = u64_bytes(r.method.len() as u64);
    assert(s.subrange(0, s.len() as int) =~= s);
    lemma_subrange_cat(s, 0, (u64_bytes(r.id) + mb) + r.method, ev);
    lemma_subrange_cat(s, 0, u64_bytes(r.id) + mb, r.method);
    lemma_subrange_cat(s, 0, u64_bytes(r.id), mb);
    lemma_u64_bytes_roundtrip(r.id);
    lemma_u64_bytes_roundtrip(r.method.len() as u64);
    assert(s.subrange(0, 8) == u64_bytes(r.id));
    assert(s.subrange(8, 16) == mb);
    assert(s.subrange(16, 16 + r.method.len() as int) == r.method);
    lemma_dec_enc_value(s, 16 + r.method.len() as int, r.params);
}

/// For every well-formed response, decoding its encoding yields it back.
pub proof fn lemma_response_roundtrip(r: SpecResponse)
    requires
        r.wf(),
    ensures
        spec_dec_response(spec_enc_response(r)) == Some(r),
{
    let s = spec_enc_response(r);
    assert(s.subrange(0, s.len() as int) =~= s);
    match r.outcome {
        SpecOutcome::Success(v) => {
            let ev = spec_enc_value(v);
            lemma_subrange_cat(s, 0, u64_bytes(r.id) + seq![0u8], ev);
            lemma_subrange_cat(s, 0, u64_bytes(r.id), seq![0u8]);
            lemma_u64_bytes_roundtrip(r.id);
            assert(s.subrange(0, 8) == u64_bytes(r.id));
            assert(s[8] == s.subrange(8, 9)[0]);
            lemma_dec_enc_value(s, 9, v);
        },
        SpecOutcome::Failure { code, data } => {
            let ev = spec_enc_value(data);
            lemma_subrange_cat(s, 0, (u64_bytes(r.id) + seq![1u8]) + u64_bytes(code), ev);
            lemma_subrange_cat(s, 0, u64_bytes(r.id) + seq![1u8], u64_bytes(code));
            lemma_subrange_cat(s, 0, u64_bytes(r.id), seq![1u8]);
            lemma_u64_bytes_roundtrip(r.id);
            lemma_u64_bytes_roundtrip(code);
            assert(s.subrange(0, 8) == u64_bytes(r.id));
            assert(s[8] == s.subrange(8, 9)[0]);
            assert(s.subrange(9, 17) == u64_bytes(code));
            lemma_dec_enc_value(s, 17, data);
        },
    }
}

// ---------------------------------------------------------------------------
// The executable message codec
// ---------------------------------------------------------------------------

/// Encode a request for the wire.
pub fn encode_request(r: &Request) -> (out: Vec<u8>)
    ensures
        out@ == spec_enc_request(r.deep_view()),
{
    let mut out: Vec<u8> = Vec::new();
    push_u64(&mut out, r.id);
    push_u64(&mut out, r.method.len() as u64);
    push_bytes(&mut out, &r.method);
    encode_value(&r.params, &mut out);
    proof {
        assert(out@ =~= spec_enc_request(r.deep_view()));
    }
    out
}

/// Encode a response for the wire.
pub fn encode_response(r: &Response) -> (out: Vec<u8>)
    ensures
        out@ == spec_enc_response(r.deep_view()),
{
    let mut out: Vec<u8> = Vec::new();
    push_u64(&mut out, r.id);
    match &r.outcome {
        Outcome::Success(v) => {
            out.push(0u8);
            encode_value(v, &mut out);
        },
        Outcome::Failure { code, data } => {
            out.push(1u8);
            push_u64(&mut out, *code);
            encode_value(data, &mut out);
        },
    }
    proof {
        assert(out@ =~= spec_enc_response(r.deep_view()));
    }
    out
}

/// Decode a whole message as a request; agrees exactly with the decoder of
/// the model.
#[verifier::loop_isolation(false)]
pub fn decode_request(bytes: &Vec<u8>) -> (r: Option<Request>)
    ensures
        match r {
            Some(req) => spec_dec_request(bytes@) == Some(req.deep_view()),
            None => spec_dec_request(bytes@) is None,
        },
{
    let len = bytes.len();
    if len < 16 {
        return None;
    }
    let id = read_u64(bytes, 0);
    let m = read_u64(bytes, 8);
    if m > (len - 16) as u64 {
        return None;
    }
    let mm = m as usize;
    let mut method: Vec<u8> = Vec::new();
    let mut j: usize = 0;
    while j < mm
        invariant
            j <= mm,
            16 + mm <= bytes@.len(),
            method@ == bytes@.subrange(16, 16 + j),
        decreases mm - j,
    {
        method.push(bytes[16 + j]);
        proof {
            assert(method@ =~= bytes@.subrange(16, 16 + (j + 1)));
        }
        j = j + 1;
    }
    match decode_value(bytes, 16 + mm) {
        Some((v, p)) => if p == len {
            Some(Request { id, method, params: v })
        } else {
            None
        },
        None => None,
    }
}

/// Decode a whole message as a response; agrees exactly with the decoder of
/// the model.
pub fn decode_response(bytes: &Vec<u8>) -> (r: Option<Response>)
    ensures
        match r {
            Some(resp) => spec_dec_response(bytes@) == Some(resp.deep_view()),
            None => spec_dec_response(bytes@) is None,
        },
{
    let len = bytes.len();
    if len < 9 {
        return None;
    }
    let id = read_u64(bytes, 0);
    let tag = bytes[8];
    if tag == 0 {
        match decode_value(bytes, 9) {
            Some((v, p)) => if p == len {
                Some(Response { id, outcome: Outcome::Success(v) })
            } else {
                None
            },
            None => None,
        }
    } else if tag == 1 {
        if len < 17 {
            return None;
        }
        let code = read_u64(bytes, 9);
        match decode_value(bytes, 17) {
            Some((v, p)) => if p == len {
                Some(Response { id, outcome: Outcome::Failure { code, data: v } })
            } else {
                None
            },
            None => None,
        }
    } else {
        None
    }
}


/// The operations a session performs, each with a fixed wire method name.
#[derive(Clone, Copy, Debug, PartialEq, Eq, Structural)]
pub enum Op {
    Initialize,
    ListTools,
    ListResources,
    ReadResource,
    CallTool,
}

/// The method name each operation carries on the wire.
pub open spec fn spec_method_name(op: Op) -> Seq<u8> {
    match op {
        Op::Initialize => seq![105u8, 110u8, 105u8, 116u8, 105u8, 97u8, 108u8, 105u8, 122u8, 101u8],  // "initialize"
        Op::ListTools => seq![116u8, 111u8, 111u8, 108u8, 115u8, 47u8, 108u8, 105u8, 115u8, 116u8],  // "tools/list"
        Op::ListResources => seq![114u8, 101u8, 115u8, 111u8, 117u8, 114u8, 99u8, 101u8, 115u8, 47u8, 108u8, 105u8, 115u8, 116u8],  // "resources/list"
        Op::ReadResource => seq![114u8, 101u8, 115u8, 111u8, 117u8, 114u8, 99u8, 101u8, 115u8, 47u8, 114u8, 101u8, 97u8, 100u8],  // "resources/read"
        Op::CallTool => seq![116u8, 111u8, 111u8, 108u8, 115u8, 47u8, 99u8, 97u8, 108u8, 108u8],  // "tools/call"
    }
}

/// Build the method name of `op`.
pub fn method_name(op: Op) -> (m: Vec<u8>)
    ensures
        m@ == spec_method_name(op),
{
    match op {
        Op::Initialize => {
            let mut m: Vec<u8> = Vec::new();
    m.push(105);
    m.push(110);
    m.push(105);
    m.push(116);
    m.push(105);
    m.push(97);
    m.push(108);
    m.push(105);
    m.push(122);
    m.push(101);
            proof {
                assert(m@ =~= spec_method_name(Op::Initialize));
            }
            m
        },
        Op::ListTools => {
            let mut m: Vec<u8> = Vec::new();
    m.push(116);
    m.push(111);
    m.push(111);
    m.push(108);
    m.push(115);
    m.push(47);
    m.push(108);
    m.push(105);
    m.push(115);
    m.push(116);
            proof {
                assert(m@ =~= spec_method_name(Op::ListTools));
            }
            m
        },
        Op::ListResources => {
            let mut m: Vec<u8> = Vec::new();
    m.push(114);
    m.push(101);
    m.push(115);
    m.push(111);
    m.push(117);
    m.push(114);
    m.push(99);
    m.push(101);
    m.push(115);
    m.push(47);
    m.push(108);
    m.push(105);
    m.push(115);
    m.push(116);
            proof {
                assert(m@ =~= spec_method_name(Op::ListResources));
            }
            m
        },
        Op::ReadResource => {
            let mut m: Vec<u8> = Vec::new();
    m.push(114);
    m.push(101);
    m.push(115);
    m.push(111);
    m.push(117);
    m.push(114);
    m.push(99);
    m.push(101);
    m.push(115);
    m.push(47);
    m.push(114);
    m.push(101);
    m.push(97);
    m.push(100);
            proof {
                assert(m@ =~= spec_method_name(Op::ReadResource));
            }
            m
        },
        Op::CallTool => {
            let mut m: Vec<u8> = Vec::new();
    m.push(116);
    m.push(111);
    m.push(111);
    m.push(108);
    m.push(115);
    m.push(47);
    m.push(99);
    m.push(97);
    m.push(108);
    m.push(108);
            proof {
                assert(m@ =~= spec_method_name(Op::CallTool));
            }
            m
        },
    }
}

} // verus!
