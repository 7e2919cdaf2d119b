//! Frame assembly for the transport. A frame is an eight-byte big-endian
//! count followed by that many payload bytes. Inbound bytes arrive in chunks
//! of any size; the buffer hands whole frames out one by one and keeps a
//! partial frame waiting — a short read is never an error.

use vstd::prelude::*;
use crate::codec::{u64_bytes, u64_of_bytes, lemma_u64_bytes_roundtrip, lemma_subrange_cat, push_u64, push_bytes, read_u64};

verus! {

/// The wire form of one frame: the payload behind its count.
pub open spec fn spec_frame(msg: Seq<u8>) -> Seq<u8> {
    u64_bytes(msg.len() as u64) + msg
}

/// The buffered bytes start with a whole frame.
pub open spec fn has_complete_frame(s: Seq<u8>) -> bool {
    s.len() >= 8 && 8 + (u64_of_bytes(s.subrange(0, 8)) as int) <= s.len()
}

/// The payload of the first frame of `s`.
pub open spec fn first_payload(s: Seq<u8>) -> Seq<u8>
    recommends
        has_complete_frame(s),
{
    s.subrange(8, 8 + (u64_of_bytes(s.subrange(0, 8)) as int))
}

/// What remains of `s` after its first frame.
pub open spec fn after_first(s: Seq<u8>) -> Seq<u8>
    recommends
        has_complete_frame(s),
{
    s.subrange(8 + (u64_of_bytes(s.subrange(0, 8)) as int), s.len() as int)
}

/// Wrap one message for the wire.
pub fn frame_message(msg: &Vec<u8>) -> (out: Vec<u8>)
    ensures
        out@ == spec_frame(msg@),
{
    let mut out: Vec<u8> = Vec::new();
    push_u64(&mut out, msg.len() as u64);
    push_bytes(&mut out, msg);
    proof {
        assert(out@ =~= spec_frame(msg@));
    }
    out
}

/// A buffer laying a framed message before arbitrary further bytes holds a
/// complete first frame, whose payload is exactly that message.
pub proof fn lemma_frame_extract(msg: Seq<u8>, rest: Seq<u8>)
    requires
        msg.len() <= u64::MAX,
    ensures
        has_complete_frame(spec_frame(msg) + rest),
        first_payload(spec_frame(msg) + rest) == msg,
        after_first(spec_frame(msg) + rest) == rest,
{
    let s = spec_frame(msg) + rest;
    assert(s.subrange(0, s.len() as int) =~= s);
    lemma_subrange_cat(s, 0, u64_bytes(msg.len() as u64) + msg, rest);
    lemma_subrange_cat(s, 0, u64_bytes(msg.len() as u64), msg);
    lemma_u64_bytes_roundtrip(msg.len() as u64);
    assert(s.subrange(0, 8) == u64_bytes(msg.len() as u64));
    assert(first_payload(s) == msg);
    assert(after_first(s) == rest);
}

/// Collects inbound bytes as they arrive and steps whole frames out.
#[derive(Debug)]
pub struct FrameBuffer {
    pub buf: Vec<u8>,
}

impl FrameBuffer {
    pub fn new() -> (b: FrameBuffer)
        ensures
            b.buf@.len() == 0,
    {
        FrameBuffer { buf: Vec::new() }
    }

    /// Add a chunk exactly as it arrived; nothing is interpreted yet.
    pub fn feed(&mut self, chunk: &Vec<u8>)
        ensures
            final(self).buf@ == old(self).buf@ + chunk@,
    {
        push_bytes(&mut self.buf, chunk);
    }

    /// Step the first whole frame out, or keep waiting: `None` means the
    /// buffer holds no complete frame yet, and nothing is lost or changed.
    #[verifier::loop_isolation(false)]
    pub fn next_frame(&mut self) -> (r: Option<Vec<u8>>)
        ensures
            match r {
                Some(msg) => has_complete_frame(old(self).buf@) && msg@ == first_payload(
                    old(self).buf@,
                ) && final(self).buf@ == after_first(old(self).buf@),
                None => !has_complete_frame(old(self).buf@) && *final(self) == *old(self),
            },
    {
        let len = self.buf.len();
        if len < 8 {
            return None;
        }
        let n = read_u64(&self.buf, 0);
        if n > (len - 8) as u64 {
            return None;
        }
        let nn = n as usize;
        let mut msg: Vec<u8> = Vec::new();
        let mut j: usize = 0;
        while j < nn
            invariant
                j <= nn,
                8 + nn <= self.buf@.len(),
                self.buf@ == old(self).buf@,
                msg@ == self.buf@.subrange(8, 8 + j),
            decreases nn - j,
        {
            msg.push(self.buf[8 + j]);
            proof {
                assert(msg@ =~= self.buf@.subrange(8, 8 + (j + 1)));
            }
            j = j + 1;
        }
        let mut rest: Vec<u8> = Vec::new();
        let mut k: usize = 8 + nn;
        while k < len
            invariant
                8 + nn <= k <= len,
                len == self.buf@.len(),
                self.buf@ == old(self).buf@,
                rest@ == self.buf@.subrange(8 + nn, k as int),
            decreases len - k,
        {
            rest.push(self.buf[k]);
            proof {
                assert(rest@ =~= self.buf@.subrange(8 + nn, k + 1 as int));
            }
            k = k + 1;
        }
        self.buf = rest;
        Some(msg)
    }
}

} // verus!
