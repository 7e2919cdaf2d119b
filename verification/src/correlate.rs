//! The request correlator: hands out a fresh id for every outbound request,
//! keeps one pending slot per outstanding id, and matches each inbound
//! response id to the single slot that awaits it. Ids come from a monotonic
//! counter and are never reused within a connection; a response whose id has
//! no slot is discarded without effect.

use vstd::prelude::*;
use crate::message::Op;

verus! {

/// One waiting caller: the id its request carries, the operation it awaits,
/// and the instant (on the caller's clock) past which it times out.
#[derive(Clone, Copy, Debug, PartialEq)]
pub struct Pending {
    pub id: u64,
    pub op: Op,
    pub deadline: u64,
}

/// Some slot of the table awaits `id`.
pub open spec fn slot_in(s: Seq<Pending>, id: u64) -> bool {
    exists|i: int| 0 <= i < s.len() && (#[trigger] s[i]).id == id
}

/// Each id is held by at most one slot.
pub open spec fn slots_unique(s: Seq<Pending>) -> bool {
    forall|i: int, j: int| 0 <= i < j < s.len() ==> (#[trigger] s[i]).id != (#[trigger] s[j]).id
}

/// Every slot's id was handed out by the counter.
pub open spec fn slots_below(s: Seq<Pending>, next_id: u64) -> bool {
    forall|i: int| 0 <= i < s.len() ==> (#[trigger] s[i]).id < next_id
}

/// Removing the slot at `k` from a table of unique ids removes exactly that
/// slot's id: no other id appears or disappears, and uniqueness and the
/// counter bound are kept.
pub proof fn lemma_remove_slot(pre: Seq<Pending>, post: Seq<Pending>, k: int, next_id: u64)
    requires
        0 <= k < pre.len(),
        post == pre.remove(k),
        slots_unique(pre),
        slots_below(pre, next_id),
    ensures
        slots_unique(post),
        slots_below(post, next_id),
        !slot_in(post, pre[k].id),
        forall|jid: u64| jid != pre[k].id ==> (slot_in(post, jid) <==> slot_in(pre, jid)),
{
    pre.remove_ensures(k);
    let rid = pre[k].id;
    assert forall|i: int, j: int|
        0 <= i < j < post.len() implies (#[trigger] post[i]).id != (#[trigger] post[j]).id by {
        let oi = if i < k {
            i
        } else {
            i + 1
        };
        let oj = if j < k {
            j
        } else {
            j + 1
        };
        assert(post[i] == pre[oi]);
        assert(post[j] == pre[oj]);
        assert(pre[oi].id != pre[oj].id);
    }
    assert forall|i: int| 0 <= i < post.len() implies (#[trigger] post[i]).id < next_id by {
        let oi = if i < k {
            i
        } else {
            i + 1
        };
        assert(post[i] == pre[oi]);
        assert(pre[oi].id < next_id);
    }
    assert(!slot_in(post, rid)) by {
        if slot_in(post, rid) {
            let i = choose|i: int| 0 <= i < post.len() && (#[trigger] post[i]).id == rid;
            if i < k {
                assert(post[i] == pre[i]);
                assert(pre[i].id != pre[k].id);
            } else {
                assert(post[i] == pre[i + 1]);
                assert(pre[k].id != pre[i + 1].id);
            }
        }
    }
    assert forall|jid: u64| jid != rid implies (slot_in(post, jid) <==> slot_in(pre, jid)) by {
        if slot_in(post, jid) {
            let i = choose|i: int| 0 <= i < post.len() && (#[trigger] post[i]).id == jid;
            let oi = if i < k {
                i
            } else {
                i + 1
            };
            assert(post[i] == pre[oi]);
            assert(pre[oi].id == jid);
        }
        if slot_in(pre, jid) {
            let oi = choose|i: int| 0 <= i < pre.len() && (#[trigger] pre[i]).id == jid;
            if oi < k {
                assert(post[oi] == pre[oi]);
                assert(post[oi].id == jid);
            } else {
                assert(post[oi - 1] == pre[oi]);
                assert(post[oi - 1].id == jid);
            }
        }
    }
}

/// The correlator's state: the next unused id and the table of pending slots.
#[derive(Debug)]
pub struct Correlator {
    pub next_id: u64,
    pub pending: Vec<Pending>,
}

impl Correlator {
    /// At most one slot per id, and only ids the counter has handed out.
    pub open spec fn wf(self) -> bool {
        slots_unique(self.pending@) && slots_below(self.pending@, self.next_id)
    }

    /// Some slot awaits `id`.
    pub open spec fn has_pending(self, id: u64) -> bool {
        slot_in(self.pending@, id)
    }

    pub fn new() -> (c: Correlator)
        ensures
            c.wf(),
            c.next_id == 0,
            c.pending@.len() == 0,
    {
        Correlator { next_id: 0, pending: Vec::new() }
    }

    /// Assign the next id to a new request and open its slot. Returns `None`
    /// only once the whole 64-bit id space has been spent.
    pub fn register(&mut self, op: Op, deadline: u64) -> (r: Option<u64>)
        requires
            old(self).wf(),
        ensures
            final(self).wf(),
            match r {
                Some(id) => id == old(self).next_id && !old(self).has_pending(id) && final(self).next_id == old(self).next_id + 1 && final(self).pending@ == old(self).pending@.push(Pending { id, op, deadline }) && final(self).has_pending(id),
                None => old(self).next_id == u64::MAX && *final(self) == *old(self),
            },
    {
        if self.next_id == u64::MAX {
            return None;
        }
        let id = self.next_id;
        self.next_id = self.next_id + 1;
        self.pending.push(Pending { id, op, deadline });
        proof {
            let n = self.pending@.len() as int;
            assert(self.pending@[n - 1].id == id);
            assert forall|i: int, j: int|
                0 <= i < j < self.pending@.len() implies (#[trigger] self.pending@[i]).id != (
            #[trigger] self.pending@[j]).id by {
                if j < n - 1 {
                    assert(old(self).pending@[i].id != old(self).pending@[j].id);
                } else {
                    assert(old(self).pending@[i].id < old(self).next_id);
                }
            }
            assert forall|i: int|
                0 <= i < self.pending@.len() implies (#[trigger] self.pending@[i]).id
                < self.next_id by {
                if i < n - 1 {
                    assert(old(self).pending@[i].id < old(self).next_id);
                }
            }
        }
        Some(id)
    }

    /// Take the slot that awaits `id`, if one does: the matching caller and
    /// only that caller stops waiting. Where no slot matches, nothing
    /// changes: a response for an unknown — or already timed out, or
    /// cancelled — id is discarded without effect.
    pub fn remove_pending(&mut self, id: u64) -> (r: Option<Pending>)
        requires
            old(self).wf(),
        ensures
            final(self).wf(),
            final(self).next_id == old(self).next_id,
            match r {
                Some(p) => p.id == id && old(self).has_pending(id) && !final(self).has_pending(
                    id,
                ) && final(self).pending@.len() == old(self).pending@.len() - 1 && (forall|j: u64|
                    j != id ==> (final(self).has_pending(j) <==> old(self).has_pending(j))) && (
                exists|i: int|
                    0 <= i < old(self).pending@.len() && #[trigger] old(self).pending@[i] == p),
                None => !old(self).has_pending(id) && *final(self) == *old(self),
            },
    {
        let mut idx: usize = 0;
        let n = self.pending.len();
        while idx < n
            invariant
                old(self).wf(),
                idx <= n,
                n == self.pending@.len(),
                *self == *old(self),
                forall|i: int| 0 <= i < idx ==> (#[trigger] self.pending@[i]).id != id,
            decreases n - idx,
        {
            if self.pending[idx].id == id {
                let ghost k = idx as int;
                let p = self.pending.remove(idx);
                proof {
                    assert(old(self).pending@[k].id == id);
                    assert(old(self).pending@[k] == p);
                    lemma_remove_slot(old(self).pending@, self.pending@, k, self.next_id);
                }
                return Some(p);
            }
            idx = idx + 1;
        }
        proof {
            assert forall|i: int|
                0 <= i < old(self).pending@.len() implies (#[trigger] old(self).pending@[i]).id != id by {
                assert(self.pending@[i].id != id);
            }
        }
        None
    }

    /// Take one slot whose deadline has passed, if any has: that caller — and
    /// only that caller — times out; the rest keep waiting undisturbed.
    /// `None` means every pending slot still has time left.
    pub fn expire_one(&mut self, now: u64) -> (r: Option<Pending>)
        requires
            old(self).wf(),
        ensures
            final(self).wf(),
            final(self).next_id == old(self).next_id,
            match r {
                Some(p) => p.deadline < now && old(self).has_pending(p.id) && !final(self).has_pending(p.id) && final(self).pending@.len() == old(self).pending@.len() - 1
                    && (forall|j: u64|
                    j != p.id ==> (final(self).has_pending(j) <==> old(self).has_pending(j))) && (
                exists|i: int|
                    0 <= i < old(self).pending@.len() && #[trigger] old(self).pending@[i] == p),
                None => (forall|i: int|
                    0 <= i < old(self).pending@.len() ==> (#[trigger] old(self).pending@[i]).deadline >= now) && *final(self) == *old(self),
            },
    {
        let mut idx: usize = 0;
        let n = self.pending.len();
        while idx < n
            invariant
                old(self).wf(),
                idx <= n,
                n == self.pending@.len(),
                *self == *old(self),
                forall|i: int| 0 <= i < idx ==> (#[trigger] self.pending@[i]).deadline >= now,
            decreases n - idx,
        {
            if self.pending[idx].deadline < now {
                let ghost k = idx as int;
                let p = self.pending.remove(idx);
                proof {
                    assert(old(self).pending@[k].id == p.id);
                    assert(old(self).pending@[k] == p);
                    lemma_remove_slot(old(self).pending@, self.pending@, k, self.next_id);
                }
                return Some(p);
            }
            idx = idx + 1;
        }
        proof {
            assert forall|i: int|
                0 <= i < old(self).pending@.len() implies (#[trigger] old(self).pending@[i]).deadline >= now by {
                assert(self.pending@[i].deadline >= now);
            }
        }
        None
    }

    /// Take every remaining slot at once: on disconnect, all pending callers
    /// fail together.
    pub fn take_all(&mut self) -> (r: Vec<Pending>)
        requires
            old(self).wf(),
        ensures
            final(self).wf(),
            final(self).next_id == old(self).next_id,
            final(self).pending@.len() == 0,
            r@ == old(self).pending@,
            forall|j: u64| !final(self).has_pending(j),
    {
        let mut out: Vec<Pending> = Vec::new();
        std::mem::swap(&mut self.pending, &mut out);
        out
    }
}

/// The id the counter will hand out next is never already pending: ids are
/// not reused within a connection's lifetime.
pub proof fn lemma_next_id_is_fresh(c: Correlator)
    requires
        c.wf(),
    ensures
        !c.has_pending(c.next_id),
{
    if c.has_pending(c.next_id) {
        let i = choose|i: int|
            0 <= i < c.pending@.len() && (#[trigger] c.pending@[i]).id == c.next_id;
        assert(c.pending@[i].id < c.next_id);
    }
}

/// Two pending slots that carry the same id are the same slot: a response
/// can reach at most one waiting caller.
pub proof fn lemma_at_most_one_slot(c: Correlator, i: int, j: int)
    requires
        c.wf(),
        0 <= i < c.pending@.len(),
        0 <= j < c.pending@.len(),
        c.pending@[i].id == c.pending@[j].id,
    ensures
        i == j,
{
}

} // verus!
