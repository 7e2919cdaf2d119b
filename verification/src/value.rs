//! The dynamic values carried in protocol messages: a tagged union of
//! null, booleans, integers, byte strings, ordered sequences and ordered
//! key/value mappings. Strings travel on the wire as UTF-8 byte strings,
//! so they are held here as `Vec<u8>`.

use vstd::prelude::*;

verus! {

/// A structured protocol value, as built and read by callers.
#[derive(Debug, PartialEq)]
pub enum Value {
    Null,
    Bool(bool),
    Int(i64),
    Str(Vec<u8>),
    Arr(Vec<Value>),
    Obj(Vec<(Vec<u8>, Value)>),
}

/// The mathematical model of a `Value`: the same tagged union over `Seq`.
pub enum SpecValue {
    Null,
    Bool(bool),
    Int(i64),
    Str(Seq<u8>),
    Arr(Seq<SpecValue>),
    Obj(Seq<(Seq<u8>, SpecValue)>),
}

impl Value {
    /// The model of this value: every vector replaced by the sequence it holds.
    pub open spec fn deep_view(self) -> SpecValue
        decreases self,
    {
        match self {
            Value::Null => SpecValue::Null,
            Value::Bool(b) => SpecValue::Bool(b),
            Value::Int(i) => SpecValue::Int(i),
            Value::Str(s) => SpecValue::Str(s@),
            Value::Arr(vs) => SpecValue::Arr(deep_seq(vs@)),
            Value::Obj(ps) => SpecValue::Obj(deep_pairs(ps@)),
        }
    }
}

/// The models of a sequence of values, element by element.
pub open spec fn deep_seq(vs: Seq<Value>) -> Seq<SpecValue>
    decreases vs,
{
    Seq::new(
        vs.len(),
        |i: int| if 0 <= i < vs.len() {
            vs[i].deep_view()
        } else {
            SpecValue::Null
        },
    )
}

/// The models of a sequence of key/value pairs, element by element.
pub open spec fn deep_pairs(ps: Seq<(Vec<u8>, Value)>) -> Seq<(Seq<u8>, SpecValue)>
    decreases ps,
{
    Seq::new(
        ps.len(),
        |i: int| if 0 <= i < ps.len() {
            (ps[i].0@, ps[i].1.deep_view())
        } else {
            (Seq::<u8>::empty(), SpecValue::Null)
        },
    )
}

impl SpecValue {
    /// Every sequence held in the value is short enough for its length to be
    /// written as a 64-bit count on the wire. The model of any value built at
    /// run time satisfies this.
    pub open spec fn wf(self) -> bool
        decreases self,
    {
        match self {
            SpecValue::Null => true,
            SpecValue::Bool(_) => true,
            SpecValue::Int(_) => true,
            SpecValue::Str(s) => s.len() <= u64::MAX,
            SpecValue::Arr(vs) => vs.len() <= u64::MAX && all_wf_elems(vs),
            SpecValue::Obj(ps) => ps.len() <= u64::MAX && all_wf_pairs(ps),
        }
    }
}

/// Every element of the sequence is well-formed.
pub open spec fn all_wf_elems(vs: Seq<SpecValue>) -> bool
    decreases vs,
{
    vs.len() == 0 || (vs[0].wf() && all_wf_elems(vs.subrange(1, vs.len() as int)))
}

/// Every key is short enough for its 64-bit count and every value is
/// well-formed.
pub open spec fn all_wf_pairs(ps: Seq<(Seq<u8>, SpecValue)>) -> bool
    decreases ps,
{
    ps.len() == 0 || (ps[0].0.len() <= u64::MAX && ps[0].1.wf() && all_wf_pairs(
        ps.subrange(1, ps.len() as int),
    ))
}


/// Whether two byte strings hold the same bytes.
#[verifier::loop_isolation(false)]
pub fn bytes_eq(a: &Vec<u8>, b: &Vec<u8>) -> (r: bool)
    ensures
        r == (a@ == b@),
{
    if a.len() != b.len() {
        proof {
            assert(a@.len() != b@.len());
        }
        return false;
    }
    let mut j: usize = 0;
    while j < a.len()
        invariant
            j <= a@.len(),
            a@.len() == b@.len(),
            forall|i: int| 0 <= i < j ==> a@[i] == b@[i],
        decreases a@.len() - j,
    {
        if a[j] != b[j] {
            return false;
        }
        j = j + 1;
    }
    proof {
        assert(a@ =~= b@);
    }
    true
}

/// A fresh byte string holding the same bytes.
#[verifier::loop_isolation(false)]
pub fn copy_bytes(s: &Vec<u8>) -> (r: Vec<u8>)
    ensures
        r@ == s@,
{
    let mut out: Vec<u8> = Vec::new();
    let mut j: usize = 0;
    while j < s.len()
        invariant
            j <= s@.len(),
            out@ == s@.take(j as int),
        decreases s@.len() - j,
    {
        out.push(s[j]);
        proof {
            assert(out@ =~= s@.take(j + 1 as int));
        }
        j = j + 1;
    }
    proof {
        assert(s@.take(s@.len() as int) =~= s@);
    }
    out
}

} // verus!
