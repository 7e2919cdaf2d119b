//! The message codec: requests and responses are written to and read from a
//! canonical byte encoding. Every count travels as eight big-endian bytes, a
//! value starts with a one-byte tag, and decoding either consumes exactly the
//! bytes that encoding produced or rejects the message. The round-trip law —
//! decoding an encoded message yields the message back — is proved below.

use vstd::prelude::*;
use crate::value::{Value, SpecValue, deep_seq, deep_pairs, all_wf_elems, all_wf_pairs};

verus! {

// ---------------------------------------------------------------------------
// Eight-byte big-endian counts
// ---------------------------------------------------------------------------

/// The eight big-endian bytes of a 64-bit count.
pub open spec fn u64_bytes(x: u64) -> Seq<u8> {
    seq![
        (x >> 56) as u8,
        (x >> 48) as u8,
        (x >> 40) as u8,
        (x >> 32) as u8,
        (x >> 24) as u8,
        (x >> 16) as u8,
        (x >> 8) as u8,
        x as u8,
    ]
}

/// The 64-bit count read back from eight big-endian bytes.
pub open spec fn u64_of_bytes(s: Seq<u8>) -> u64
    recommends
        s.len() == 8,
{
    (((s[0] as u64) << 56) | ((s[1] as u64) << 48) | ((s[2] as u64) << 40)
        | ((s[3] as u64) << 32) | ((s[4] as u64) << 24) | ((s[5] as u64) << 16)
        | ((s[6] as u64) << 8) | (s[7] as u64)) as u64
}

/// Reading back the eight bytes of a count yields the count.
pub proof fn lemma_u64_bytes_roundtrip(x: u64)
    ensures
        u64_bytes(x).len() == 8,
        u64_of_bytes(u64_bytes(x)) == x,
{
    assert(((((x >> 56) as u8) as u64) << 56) | ((((x >> 48) as u8) as u64) << 48)
        | ((((x >> 40) as u8) as u64) << 40) | ((((x >> 32) as u8) as u64) << 32)
        | ((((x >> 24) as u8) as u64) << 24) | ((((x >> 16) as u8) as u64) << 16)
        | ((((x >> 8) as u8) as u64) << 8) | ((x as u8) as u64) == x) by (bit_vector);
}

// ---------------------------------------------------------------------------
// Encoding, at the level of the model
// ---------------------------------------------------------------------------

/// The encoding of one value: a tag byte, then the payload of the variant.
pub open spec fn spec_enc_value(v: SpecValue) -> Seq<u8>
    decreases v,
{
    match v {
        SpecValue::Null => seq![0u8],
        SpecValue::Bool(b) => seq![1u8, if b { 1u8 } else { 0u8 }],
        SpecValue::Int(i) => if i >= 0 {
            seq![2u8, 0u8] + u64_bytes(i as u64)
        } else {
            seq![2u8, 1u8] + u64_bytes((-(i + 1)) as u64)
        },
        SpecValue::Str(s) => seq![3u8] + u64_bytes(s.len() as u64) + s,
        SpecValue::Arr(vs) => seq![4u8] + u64_bytes(vs.len() as u64) + spec_enc_elems(vs),
        SpecValue::Obj(ps) => seq![5u8] + u64_bytes(ps.len() as u64) + spec_enc_pairs(ps),
    }
}

/// The encodings of the elements of a sequence, in order.
pub open spec fn spec_enc_elems(vs: Seq<SpecValue>) -> Seq<u8>
    decreases vs,
{
    if vs.len() == 0 {
        Seq::empty()
    } else {
        spec_enc_value(vs[0]) + spec_enc_elems(vs.subrange(1, vs.len() as int))
    }
}

/// The encodings of the pairs of a mapping, in order: each key as a counted
/// byte string, then the value.
pub open spec fn spec_enc_pairs(ps: Seq<(Seq<u8>, SpecValue)>) -> Seq<u8>
    decreases ps,
{
    if ps.len() == 0 {
        Seq::empty()
    } else {
        u64_bytes(ps[0].0.len() as u64) + ps[0].0 + spec_enc_value(ps[0].1)
            + spec_enc_pairs(ps.subrange(1, ps.len() as int))
    }
}

/// No value encodes to the empty byte sequence.
pub proof fn lemma_enc_value_len(v: SpecValue)
    ensures
        spec_enc_value(v).len() >= 1,
{
}

// ---------------------------------------------------------------------------
// Decoding, at the level of the model
// ---------------------------------------------------------------------------

/// The signed integer carried by a sign byte and a magnitude: non-negative
/// integers travel as themselves, negative ones as the magnitude of their
/// successor, so that every 64-bit signed integer is representable.
pub open spec fn dec_int(sign: u8, mag: u64) -> Option<i64> {
    if sign == 0 {
        if mag <= i64::MAX as u64 {
            Some(mag as i64)
        } else {
            None
        }
    } else if sign == 1 {
        if mag <= i64::MAX as u64 {
            Some((-(mag as int) - 1) as i64)
        } else {
            None
        }
    } else {
        None
    }
}

/// Decode one value at `pos`: the value read and the position just past it,
/// or `None` where the bytes are not a canonical encoding.
pub open spec fn spec_dec_value(s: Seq<u8>, pos: int) -> Option<(SpecValue, int)>
    decreases s.len() - pos, 0int, 0int,
{
    if pos < 0 || pos >= s.len() {
        None
    } else {
        let tag = s[pos];
        if tag == 0 {
            Some((SpecValue::Null, pos + 1))
        } else if tag == 1 {
            if pos + 2 <= s.len() {
                if s[pos + 1] == 0 {
                    Some((SpecValue::Bool(false), pos + 2))
                } else if s[pos + 1] == 1 {
                    Some((SpecValue::Bool(true), pos + 2))
                } else {
                    None
                }
            } else {
                None
            }
        } else if tag == 2 {
            if pos + 10 <= s.len() {
                match dec_int(s[pos + 1], u64_of_bytes(s.subrange(pos + 2, pos + 10))) {
                    Some(i) => Some((SpecValue::Int(i), pos + 10)),
                    None => None,
                }
            } else {
                None
            }
        } else if tag == 3 {
            if pos + 9 <= s.len() {
                let n = u64_of_bytes(s.subrange(pos + 1, pos + 9)) as int;
                if pos + 9 + n <= s.len() {
                    Some((SpecValue::Str(s.subrange(pos + 9, pos + 9 + n)), pos + 9 + n))
                } else {
                    None
                }
            } else {
                None
            }
        } else if tag == 4 {
            if pos + 9 <= s.len() {
                let n = u64_of_bytes(s.subrange(pos + 1, pos + 9)) as nat;
                match spec_dec_elems(s, pos + 9, n) {
                    Some((vs, p)) => Some((SpecValue::Arr(vs), p)),
                    None => None,
                }
            } else {
                None
            }
        } else if tag == 5 {
            if pos + 9 <= s.len() {
                let n = u64_of_bytes(s.subrange(pos + 1, pos + 9)) as nat;
                match spec_dec_pairs(s, pos + 9, n) {
                    Some((ps, p)) => Some((SpecValue::Obj(ps), p)),
                    None => None,
                }
            } else {
                None
            }
        } else {
            None
        }
    }
}

/// Decode `n` consecutive values starting at `pos`.
pub open spec fn spec_dec_elems(s: Seq<u8>, pos: int, n: nat) -> Option<(Seq<SpecValue>, int)>
    decreases s.len() - pos, 1int, n,
{
    if pos < 0 || pos > s.len() {
        None
    } else if n == 0 {
        Some((Seq::empty(), pos))
    } else {
        match spec_dec_value(s, pos) {
            Some((v, p2)) => if pos < p2 <= s.len() {
                match spec_dec_elems(s, p2, (n - 1) as nat) {
                    Some((vs, p3)) => Some((seq![v] + vs, p3)),
                    None => None,
                }
            } else {
                None
            },
            None => None,
        }
    }
}

/// Decode `n` consecutive key/value pairs starting at `pos`.
pub open spec fn spec_dec_pairs(s: Seq<u8>, pos: int, n: nat) -> Option<
    (Seq<(Seq<u8>, SpecValue)>, int),
>
    decreases s.len() - pos, 1int, n,
{
    if pos < 0 || pos > s.len() {
        None
    } else if n == 0 {
        Some((Seq::empty(), pos))
    } else {
        if pos + 8 <= s.len() {
            let k = u64_of_bytes(s.subrange(pos, pos + 8)) as int;
            if pos + 8 + k <= s.len() {
                let key = s.subrange(pos + 8, pos + 8 + k);
                match spec_dec_value(s, pos + 8 + k) {
                    Some((v, p2)) => if pos < p2 <= s.len() {
                        match spec_dec_pairs(s, p2, (n - 1) as nat) {
                            Some((ps, p3)) => Some((seq![(key, v)] + ps, p3)),
                            None => None,
                        }
                    } else {
                        None
                    },
                    None => None,
                }
            } else {
                None
            }
        } else {
            None
        }
    }
}

// ---------------------------------------------------------------------------
// The round-trip law, at the level of the model: decoding starts again where
// an encoding was laid down, and reads back exactly the value encoded.
// ---------------------------------------------------------------------------

/// Where a stretch of `s` holds the concatenation `a + b`, its first part
/// holds `a` and its second part holds `b`.
pub proof fn lemma_subrange_cat(s: Seq<u8>, pos: int, a: Seq<u8>, b: Seq<u8>)
    requires
        0 <= pos,
        pos + a.len() + b.len() <= s.len(),
        s.subrange(pos, pos + a.len() + b.len()) == a + b,
    ensures
        s.subrange(pos, pos + a.len()) == a,
        s.subrange(pos + a.len(), pos + a.len() + b.len()) == b,
{
    let ab = a + b;
    assert forall|i: int| 0 <= i < ab.len() implies #[trigger] s[pos + i] == ab[i] by {
        assert(s.subrange(pos, pos + ab.len())[i] == s[pos + i]);
    }
    assert(s.subrange(pos, pos + a.len()) =~= a) by {
        assert forall|i: int| 0 <= i < a.len() implies #[trigger] s[pos + i] == a[i] by {
            assert(ab[i] == a[i]);
        }
    }
    assert(s.subrange(pos + a.len(), pos + a.len() + b.len()) =~= b) by {
        assert forall|i: int| 0 <= i < b.len() implies #[trigger] s.subrange(
            pos + a.len(),
            pos + a.len() + b.len(),
        )[i] == b[i] by {
            assert(s.subrange(pos + a.len(), pos + a.len() + b.len())[i]
                == s[pos + a.len() + i]);
            assert(s[pos + (a.len() + i)] == ab[a.len() + i]);
            assert(ab[a.len() + i] == b[i]);
        }
    }
}

pub proof fn lemma_dec_enc_value(s: Seq<u8>, pos: int, v: SpecValue)
    requires
        v.wf(),
        0 <= pos,
        pos + spec_enc_value(v).len() <= s.len(),
        s.subrange(pos, pos + spec_enc_value(v).len()) == spec_enc_value(v),
    ensures
        spec_dec_value(s, pos) == Some((v, pos + spec_enc_value(v).len())),
    decreases v,
{
    let e = spec_enc_value(v);
    match v {
        SpecValue::Null => {
            assert(s[pos] == s.subrange(pos, pos + 1)[0]);
        },
        SpecValue::Bool(b) => {
            assert(s[pos] == s.subrange(pos, pos + 2)[0]);
            assert(s[pos + 1] == s.subrange(pos, pos + 2)[1]);
        },
        SpecValue::Int(i) => {
            let sg: u8 = if i >= 0 {
                0
            } else {
                1
            };
            let mag: u64 = if i >= 0 {
                i as u64
            } else {
                (-(i + 1)) as u64
            };
            assert(e == seq![2u8, sg] + u64_bytes(mag));
            lemma_subrange_cat(s, pos, seq![2u8, sg], u64_bytes(mag));
            assert(s[pos] == s.subrange(pos, pos + 2)[0]);
            assert(s[pos + 1] == s.subrange(pos, pos + 2)[1]);
            lemma_u64_bytes_roundtrip(mag);
            assert(s.subrange(pos + 2, pos + 10) == u64_bytes(mag));
        },
        SpecValue::Str(bs) => {
            let lb = u64_bytes(bs.len() as u64);
            assert(e == (seq![3u8] + lb) + bs);
            lemma_subrange_cat(s, pos, seq![3u8] + lb, bs);
            lemma_subrange_cat(s, pos, seq![3u8], lb);
            assert(s[pos] == s.subrange(pos, pos + 1)[0]);
            lemma_u64_bytes_roundtrip(bs.len() as u64);
            assert(s.subrange(pos + 1, pos + 9) == lb);
            assert(s.subrange(pos + 9, pos + 9 + bs.len()) == bs);
        },
        SpecValue::Arr(vs) => {
            let lb = u64_bytes(vs.len() as u64);
            let er = spec_enc_elems(vs);
            assert(e == (seq![4u8] + lb) + er);
            lemma_subrange_cat(s, pos, seq![4u8] + lb, er);
            lemma_subrange_cat(s, pos, seq![4u8], lb);
            assert(s[pos] == s.subrange(pos, pos + 1)[0]);
            lemma_u64_bytes_roundtrip(vs.len() as u64);
            assert(s.subrange(pos + 1, pos + 9) == lb);
            lemma_dec_enc_elems(s, pos + 9, vs);
        },
        SpecValue::Obj(ps) => {
            let lb = u64_bytes(ps.len() as u64);
            let er = spec_enc_pairs(ps);
            assert(e == (seq![5u8] + lb) + er);
            lemma_subrange_cat(s, pos, seq![5u8] + lb, er);
            lemma_subrange_cat(s, pos, seq![5u8], lb);
            assert(s[pos] == s.subrange(pos, pos + 1)[0]);
            lemma_u64_bytes_roundtrip(ps.len() as u64);
            assert(s.subrange(pos + 1, pos + 9) == lb);
            lemma_dec_enc_pairs(s, pos + 9, ps);
        },
    }
}

pub proof fn lemma_dec_enc_elems(s: Seq<u8>, pos: int, vs: Seq<SpecValue>)
    requires
        all_wf_elems(vs),
        0 <= pos,
        pos + spec_enc_elems(vs).len() <= s.len(),
        s.subrange(pos, pos + spec_enc_elems(vs).len()) == spec_enc_elems(vs),
    ensures
        spec_dec_elems(s, pos, vs.len()) == Some((vs, pos + spec_enc_elems(vs).len())),
    decreases vs,
{
    if vs.len() == 0 {
        assert(vs =~= Seq::<SpecValue>::empty());
    } else {
        let e = spec_enc_elems(vs);
        let e0 = spec_enc_value(vs[0]);
        let rest = vs.subrange(1, vs.len() as int);
        let er = spec_enc_elems(rest);
        assert(e == e0 + er);
        lemma_subrange_cat(s, pos, e0, er);
        lemma_enc_value_len(vs[0]);
        lemma_dec_enc_value(s, pos, vs[0]);
        let p2 = pos + e0.len();
        lemma_dec_enc_elems(s, p2, rest);
        assert(seq![vs[0]] + rest =~= vs);
    }
}

pub proof fn lemma_dec_enc_pairs(s: Seq<u8>, pos: int, ps: Seq<(Seq<u8>, SpecValue)>)
    requires
        all_wf_pairs(ps),
        0 <= pos,
        pos + spec_enc_pairs(ps).len() <= s.len(),
        s.subrange(pos, pos + spec_enc_pairs(ps).len()) == spec_enc_pairs(ps),
    ensures
        spec_dec_pairs(s, pos, ps.len()) == Some((ps, pos + spec_enc_pairs(ps).len())),
    decreases ps,
{
    if ps.len() == 0 {
        assert(ps =~= Seq::<(Seq<u8>, SpecValue)>::empty());
    } else {
        let e = spec_enc_pairs(ps);
        let key = ps[0].0;
        let kb = u64_bytes(key.len() as u64);
        let ev = spec_enc_value(ps[0].1);
        let rest = ps.subrange(1, ps.len() as int);
        let er = spec_enc_pairs(rest);
        assert(e == ((kb + key) + ev) + er);
        lemma_subrange_cat(s, pos, (kb + key) + ev, er);
        lemma_subrange_cat(s, pos, kb + key, ev);
        lemma_subrange_cat(s, pos, kb, key);
        lemma_u64_bytes_roundtrip(key.len() as u64);
        assert(s.subrange(pos, pos + 8) == kb);
        assert(s.subrange(pos + 8, pos + 8 + key.len()) == key);
        let pv = pos + 8 + key.len();
        lemma_dec_enc_value(s, pv, ps[0].1);
        lemma_enc_value_len(ps[0].1);
        let p2 = pv + ev.len();
        lemma_dec_enc_pairs(s, p2, rest);
        assert(seq![(key, ps[0].1)] + rest =~= ps);
    }
}

// ---------------------------------------------------------------------------
// Helper lemmas about encodings of runs of elements
// ---------------------------------------------------------------------------

/// Encoding a concatenation of runs encodes each run in turn.
pub proof fn lemma_enc_elems_append(a: Seq<SpecValue>, b: Seq<SpecValue>)
    ensures
        spec_enc_elems(a + b) == spec_enc_elems(a) + spec_enc_elems(b),
    decreases a,
{
    if a.len() == 0 {
        assert(a + b =~= b);
        assert(Seq::<u8>::empty() + spec_enc_elems(b) =~= spec_enc_elems(b));
    } else {
        let ab = a + b;
        assert(ab[0] == a[0]);
        assert(ab.subrange(1, ab.len() as int) =~= a.subrange(1, a.len() as int) + b);
        lemma_enc_elems_append(a.subrange(1, a.len() as int), b);
        assert(spec_enc_value(a[0]) + (spec_enc_elems(a.subrange(1, a.len() as int))
            + spec_enc_elems(b)) =~= spec_enc_elems(a) + spec_enc_elems(b));
    }
}

/// Extending a run by one element appends that element's encoding.
pub proof fn lemma_enc_elems_snoc(vs: Seq<SpecValue>, j: int)
    requires
        0 <= j < vs.len(),
    ensures
        spec_enc_elems(vs.take(j + 1)) == spec_enc_elems(vs.take(j)) + spec_enc_value(vs[j]),
{
    assert(vs.take(j + 1) =~= vs.take(j) + seq![vs[j]]);
    lemma_enc_elems_append(vs.take(j), seq![vs[j]]);
    assert(seq![vs[j]].subrange(1, 1) =~= Seq::<SpecValue>::empty());
    assert(spec_enc_elems(Seq::<SpecValue>::empty()) == Seq::<u8>::empty());
    assert(spec_enc_elems(seq![vs[j]]) == spec_enc_value(vs[j]) + Seq::<u8>::empty());
    assert(spec_enc_elems(vs.take(j)) + (spec_enc_value(vs[j]) + Seq::<u8>::empty())
        =~= spec_enc_elems(vs.take(j)) + spec_enc_value(vs[j]));
}

/// Encoding a concatenation of pair runs encodes each run in turn.
pub proof fn lemma_enc_pairs_append(a: Seq<(Seq<u8>, SpecValue)>, b: Seq<(Seq<u8>, SpecValue)>)
    ensures
        spec_enc_pairs(a + b) == spec_enc_pairs(a) + spec_enc_pairs(b),
    decreases a,
{
    if a.len() == 0 {
        assert(a + b =~= b);
        assert(Seq::<u8>::empty() + spec_enc_pairs(b) =~= spec_enc_pairs(b));
    } else {
        let ab = a + b;
        assert(ab[0] == a[0]);
        assert(ab.subrange(1, ab.len() as int) =~= a.subrange(1, a.len() as int) + b);
        lemma_enc_pairs_append(a.subrange(1, a.len() as int), b);
        assert(u64_bytes(a[0].0.len() as u64) + a[0].0 + spec_enc_value(a[0].1)
            + (spec_enc_pairs(a.subrange(1, a.len() as int)) + spec_enc_pairs(b))
            =~= spec_enc_pairs(a) + spec_enc_pairs(b));
    }
}

/// Extending a pair run by one pair appends that pair's encoding.
pub proof fn lemma_enc_pairs_snoc(ps: Seq<(Seq<u8>, SpecValue)>, j: int)
    requires
        0 <= j < ps.len(),
    ensures
        spec_enc_pairs(ps.take(j + 1)) == spec_enc_pairs(ps.take(j))
            + (u64_bytes(ps[j].0.len() as u64) + ps[j].0 + spec_enc_value(ps[j].1)),
{
    assert(ps.take(j + 1) =~= ps.take(j) + seq![ps[j]]);
    lemma_enc_pairs_append(ps.take(j), seq![ps[j]]);
    assert(seq![ps[j]].subrange(1, 1) =~= Seq::<(Seq<u8>, SpecValue)>::empty());
    assert(spec_enc_pairs(Seq::<(Seq<u8>, SpecValue)>::empty()) == Seq::<u8>::empty());
    assert(spec_enc_pairs(seq![ps[j]]) == u64_bytes(ps[j].0.len() as u64) + ps[j].0
        + spec_enc_value(ps[j].1) + Seq::<u8>::empty());
    assert(spec_enc_pairs(ps.take(j)) + (u64_bytes(ps[j].0.len() as u64) + ps[j].0
        + spec_enc_value(ps[j].1) + Seq::<u8>::empty())
        =~= spec_enc_pairs(ps.take(j)) + (u64_bytes(ps[j].0.len() as u64) + ps[j].0
        + spec_enc_value(ps[j].1)));
}

// ---------------------------------------------------------------------------
// The executable encoder
// ---------------------------------------------------------------------------

/// Append the eight big-endian bytes of `x`.
pub fn push_u64(out: &mut Vec<u8>, x: u64)
    ensures
        final(out)@ == old(out)@ + u64_bytes(x),
{
    out.push((x >> 56) as u8);
    out.push((x >> 48) as u8);
    out.push((x >> 40) as u8);
    out.push((x >> 32) as u8);
    out.push((x >> 24) as u8);
    out.push((x >> 16) as u8);
    out.push((x >> 8) as u8);
    out.push(x as u8);
    proof {
        assert(out@ =~= old(out)@ + u64_bytes(x));
    }
}

/// Append a copy of the bytes of `s`.
#[verifier::loop_isolation(false)]
pub fn push_bytes(out: &mut Vec<u8>, s: &Vec<u8>)
    ensures
        final(out)@ == old(out)@ + s@,
{
    let mut j: usize = 0;
    while j < s.len()
        invariant
            j <= s@.len(),
            out@ == old(out)@ + s@.take(j as int),
        decreases s@.len() - j,
    {
        out.push(s[j]);
        proof {
            assert(out@ =~= old(out)@ + s@.take(j + 1 as int));
        }
        j = j + 1;
    }
    proof {
        assert(s@.take(s@.len() as int) =~= s@);
    }
}

/// Append the canonical encoding of `v`.
#[verifier::loop_isolation(false)]
#[verifier::rlimit(60)]
pub fn encode_value(v: &Value, out: &mut Vec<u8>)
    ensures
        final(out)@ == old(out)@ + spec_enc_value(v.deep_view()),
    decreases *v,
{
    match v {
        Value::Null => {
            out.push(0u8);
            proof {
                assert(out@ =~= old(out)@ + spec_enc_value(v.deep_view()));
            }
        },
        Value::Bool(b) => {
            out.push(1u8);
            if *b {
                out.push(1u8);
            } else {
                out.push(0u8);
            }
            proof {
                assert(out@ =~= old(out)@ + spec_enc_value(v.deep_view()));
            }
        },
        Value::Int(i) => {
            out.push(2u8);
            if *i >= 0 {
                out.push(0u8);
                push_u64(out, *i as u64);
            } else {
                out.push(1u8);
                push_u64(out, (-(*i + 1)) as u64);
            }
            proof {
                assert(out@ =~= old(out)@ + spec_enc_value(v.deep_view()));
            }
        },
        Value::Str(s) => {
            out.push(3u8);
            push_u64(out, s.len() as u64);
            push_bytes(out, s);
            proof {
                assert(out@ =~= old(out)@ + spec_enc_value(v.deep_view()));
            }
        },
        Value::Arr(vs) => {
            out.push(4u8);
            push_u64(out, vs.len() as u64);
            let ghost dvs = deep_seq(vs@);
            let mut j: usize = 0;
            while j < vs.len()
                invariant
                    j <= vs@.len(),
                    out@ == old(out)@ + seq![4u8] + u64_bytes(vs@.len() as u64)
                        + spec_enc_elems(dvs.take(j as int)),
                decreases vs@.len() - j,
            {
                proof {
                    assert(decreases_to!(*v => vs@[j as int]));
                }
                encode_value(&vs[j], out);
                proof {
                    lemma_enc_elems_snoc(dvs, j as int);
                    assert(dvs[j as int] == vs@[j as int].deep_view());
                    assert(out@ =~= old(out)@ + seq![4u8] + u64_bytes(vs@.len() as u64)
                        + spec_enc_elems(dvs.take(j + 1 as int)));
                }
                j = j + 1;
            }
            proof {
                assert(dvs.take(vs@.len() as int) =~= dvs);
                assert(out@ =~= old(out)@ + spec_enc_value(v.deep_view()));
            }
        },
        Value::Obj(ps) => {
            out.push(5u8);
            push_u64(out, ps.len() as u64);
            let ghost dps = deep_pairs(ps@);
            let mut j: usize = 0;
            while j < ps.len()
                invariant
                    j <= ps@.len(),
                    out@ == old(out)@ + seq![5u8] + u64_bytes(ps@.len() as u64)
                        + spec_enc_pairs(dps.take(j as int)),
                decreases ps@.len() - j,
            {
                let pair = &ps[j];
                push_u64(out, pair.0.len() as u64);
                push_bytes(out, &pair.0);
                proof {
                    assert(decreases_to!(*v => ps@[j as int].1));
                }
                encode_value(&pair.1, out);
                proof {
                    lemma_enc_pairs_snoc(dps, j as int);
                    assert(dps[j as int] == (ps@[j as int].0@, ps@[j as int].1.deep_view()));
                    assert(out@ =~= old(out)@ + seq![5u8] + u64_bytes(ps@.len() as u64)
                        + spec_enc_pairs(dps.take(j + 1 as int)));
                }
                j = j + 1;
            }
            proof {
                assert(dps.take(ps@.len() as int) =~= dps);
                assert(out@ =~= old(out)@ + spec_enc_value(v.deep_view()));
            }
        },
    }
}

// ---------------------------------------------------------------------------
// The executable decoder
// ---------------------------------------------------------------------------

/// Read the eight big-endian bytes of a count.
pub fn read_u64(bytes: &Vec<u8>, pos: usize) -> (r: u64)
    requires
        pos + 8 <= bytes@.len(),
    ensures
        r == u64_of_bytes(bytes@.subrange(pos as int, pos as int + 8)),
{
    let len = bytes.len();
    let b0 = bytes[pos];
    let b1 = bytes[pos + 1];
    let b2 = bytes[pos + 2];
    let b3 = bytes[pos + 3];
    let b4 = bytes[pos + 4];
    let b5 = bytes[pos + 5];
    let b6 = bytes[pos + 6];
    let b7 = bytes[pos + 7];
    let r = ((b0 as u64) << 56) | ((b1 as u64) << 48) | ((b2 as u64) << 40)
        | ((b3 as u64) << 32) | ((b4 as u64) << 24) | ((b5 as u64) << 16)
        | ((b6 as u64) << 8) | (b7 as u64);
    proof {
        let s = bytes@.subrange(pos as int, pos as int + 8);
        assert(s[0] == bytes@[pos as int]);
        assert(s[1] == bytes@[pos as int + 1]);
        assert(s[2] == bytes@[pos as int + 2]);
        assert(s[3] == bytes@[pos as int + 3]);
        assert(s[4] == bytes@[pos as int + 4]);
        assert(s[5] == bytes@[pos as int + 5]);
        assert(s[6] == bytes@[pos as int + 6]);
        assert(s[7] == bytes@[pos as int + 7]);
    }
    r
}

/// Decode one value at `pos`: the value and the position just past it, or
/// `None` where the bytes are not a canonical encoding. The result agrees
/// exactly with the decoder of the model.
#[verifier::loop_isolation(false)]
#[verifier::rlimit(100)]
pub fn decode_value(bytes: &Vec<u8>, pos: usize) -> (r: Option<(Value, usize)>)
    ensures
        match r {
            Some((v, p)) => pos < p <= bytes@.len() && spec_dec_value(bytes@, pos as int)
                == Some((v.deep_view(), p as int)),
            None => spec_dec_value(bytes@, pos as int) is None,
        },
    decreases bytes@.len() - pos, 0int, 0int,
{
    if pos >= bytes.len() {
        return None;
    }
    let tag = bytes[pos];
    if tag == 0 {
        Some((Value::Null, pos + 1))
    } else if tag == 1 {
        if bytes.len() - pos >= 2 {
            let b = bytes[pos + 1];
            if b == 0 {
                Some((Value::Bool(false), pos + 2))
            } else if b == 1 {
                Some((Value::Bool(true), pos + 2))
            } else {
                None
            }
        } else {
            None
        }
    } else if tag == 2 {
        if bytes.len() - pos >= 10 {
            let sign = bytes[pos + 1];
            let mag = read_u64(bytes, pos + 2);
            if sign == 0 {
                if mag <= i64::MAX as u64 {
                    Some((Value::Int(mag as i64), pos + 10))
                } else {
                    None
                }
            } else if sign == 1 {
                if mag <= i64::MAX as u64 {
                    Some((Value::Int(-(mag as i64) - 1), pos + 10))
                } else {
                    None
                }
            } else {
                None
            }
        } else {
            None
        }
    } else if tag == 3 {
        if bytes.len() - pos >= 9 {
            let n = read_u64(bytes, pos + 1);
            if n <= (bytes.len() - (pos + 9)) as u64 {
                let nn = n as usize;
                let mut s: Vec<u8> = Vec::new();
                let mut j: usize = 0;
                while j < nn
                    invariant
                        j <= nn,
                        pos + 9 + nn <= bytes@.len(),
                        s@ == bytes@.subrange(pos + 9, pos + 9 + j),
                    decreases nn - j,
                {
                    s.push(bytes[pos + 9 + j]);
                    proof {
                        assert(s@ =~= bytes@.subrange(pos + 9, pos + 9 + (j + 1)));
                    }
                    j = j + 1;
                }
                Some((Value::Str(s), pos + 9 + nn))
            } else {
                None
            }
        } else {
            None
        }
    } else if tag == 4 {
        if bytes.len() - pos >= 9 {
            let n = read_u64(bytes, pos + 1);
            let ghost start: int = pos + 9;
            let mut elems: Vec<Value> = Vec::new();
            let mut cur: usize = pos + 9;
            let mut remaining: u64 = n;
            loop
                invariant
                    pos + 9 <= cur <= bytes@.len(),
                    remaining <= n,
                    spec_dec_elems(bytes@, start, n as nat) == match spec_dec_elems(
                        bytes@,
                        cur as int,
                        remaining as nat,
                    ) {
                        Some((vs, p)) => Some((deep_seq(elems@) + vs, p)),
                        None => None::<(Seq<SpecValue>, int)>,
                    },
                decreases remaining,
            {
                if remaining == 0 {
                    break;
                }
                match decode_value(bytes, cur) {
                    None => {
                        return None;
                    },
                    Some((v, p2)) => {
                        proof {
                            assert(deep_seq(elems@.push(v)) =~= deep_seq(elems@).push(
                                v.deep_view(),
                            ));
                            assert(deep_seq(elems@) + (seq![v.deep_view()]
                                + spec_dec_elems(bytes@, p2 as int, (remaining - 1) as nat)
                                ->Some_0.0) =~= deep_seq(elems@).push(v.deep_view())
                                + spec_dec_elems(bytes@, p2 as int, (remaining - 1) as nat)
                                ->Some_0.0);
                        }
                        elems.push(v);
                        cur = p2;
                        remaining = remaining - 1;
                    },
                }
            }
            Some((Value::Arr(elems), cur))
        } else {
            None
        }
    } else if tag == 5 {
        if bytes.len() - pos >= 9 {
            let n = read_u64(bytes, pos + 1);
            let ghost start: int = pos + 9;
            let mut pairs: Vec<(Vec<u8>, Value)> = Vec::new();
            let mut cur: usize = pos + 9;
            let mut remaining: u64 = n;
            loop
                invariant
                    pos + 9 <= cur <= bytes@.len(),
                    remaining <= n,
                    spec_dec_pairs(bytes@, start, n as nat) == match spec_dec_pairs(
                        bytes@,
                        cur as int,
                        remaining as nat,
                    ) {
                        Some((ps, p)) => Some((deep_pairs(pairs@) + ps, p)),
                        None => None::<(Seq<(Seq<u8>, SpecValue)>, int)>,
                    },
                decreases remaining,
            {
                if remaining == 0 {
                    break;
                }
                if bytes.len() - cur < 8 {
                    return None;
                }
                let k = read_u64(bytes, cur);
                if k > (bytes.len() - (cur + 8)) as u64 {
                    return None;
                }
                let kk = k as usize;
                let mut key: Vec<u8> = Vec::new();
                let mut j: usize = 0;
                while j < kk
                    invariant
                        j <= kk,
                        cur + 8 + kk <= bytes@.len(),
                        key@ == bytes@.subrange(cur + 8, cur + 8 + j),
                    decreases kk - j,
                {
                    key.push(bytes[cur + 8 + j]);
                    proof {
                        assert(key@ =~= bytes@.subrange(cur + 8, cur + 8 + (j + 1)));
                    }
                    j = j + 1;
                }
                match decode_value(bytes, cur + 8 + kk) {
                    None => {
                        return None;
                    },
                    Some((v, p2)) => {
                        proof {
                            assert(deep_pairs(pairs@.push((key, v))) =~= deep_pairs(
                                pairs@,
                            ).push((key@, v.deep_view())));
                            assert(deep_pairs(pairs@) + (seq![(key@, v.deep_view())]
                                + spec_dec_pairs(bytes@, p2 as int, (remaining - 1) as nat)
                                ->Some_0.0) =~= deep_pairs(pairs@).push((key@, v.deep_view()))
                                + spec_dec_pairs(bytes@, p2 as int, (remaining - 1) as nat)
                                ->Some_0.0);
                        }
                        pairs.push((key, v));
                        cur = p2;
                        remaining = remaining - 1;
                    },
                }
            }
            Some((Value::Obj(pairs), cur))
        } else {
            None
        }
    } else {
        None
    }
}

} // verus!
