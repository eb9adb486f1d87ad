//! Per-address mutual exclusion for mutating operations.
//!
//! A SyncGate serializes mutations of one page address while letting distinct
//! addresses proceed independently.  A caller that finds an address busy may
//! enqueue as a waiter; releases hand the address to waiters strictly in
//! arrival order, so no waiter starves behind a later one.

use crate::address::addr_views;
use crate::address::AddrV;
use crate::address::PageAddress;
use vstd::prelude::*;

verus! {

/// The mathematical value of a SyncGate: held addresses, waiting tickets in
/// arrival order, and the next ticket to hand out.
pub type GateV = (Seq<AddrV>, Seq<(u64, AddrV)>, u64);

/// No address occurs twice.
pub open spec fn distinct_addrs(s: Seq<AddrV>) -> bool {
    forall|i: int, j: int| 0 <= i < j < s.len() ==> s[i] != s[j]
}

/// How many holders of `a` the sequence records.
pub open spec fn count_of(s: Seq<AddrV>, a: AddrV) -> int
    decreases s.len(),
{
    if s.len() == 0 {
        0
    } else {
        (if s[0] == a {
            1int
        } else {
            0int
        }) + count_of(s.skip(1), a)
    }
}

/// Where `a` never occurs, its count is zero.
pub proof fn lemma_count_absent(s: Seq<AddrV>, a: AddrV)
    requires
        forall|i: int| 0 <= i < s.len() ==> s[i] != a,
    ensures
        count_of(s, a) == 0,
    decreases s.len(),
{
    if s.len() > 0 {
        assert forall|i: int| 0 <= i < s.skip(1).len() implies s.skip(1)[i] != a by {
            assert(s.skip(1)[i] == s[i + 1]);
        }
        lemma_count_absent(s.skip(1), a);
    }
}

/// With no duplicates, every address has at most one holder: the per-address
/// concurrent-mutation count never exceeds one.
pub proof fn lemma_at_most_one_holder(s: Seq<AddrV>, a: AddrV)
    requires
        distinct_addrs(s),
    ensures
        count_of(s, a) <= 1,
    decreases s.len(),
{
    if s.len() > 0 {
        if s[0] == a {
            assert forall|i: int| 0 <= i < s.skip(1).len() implies s.skip(1)[i] != a by {
                assert(s.skip(1)[i] == s[i + 1]);
            }
            lemma_count_absent(s.skip(1), a);
        } else {
            assert forall|i: int, j: int|
                0 <= i < j < s.skip(1).len() implies s.skip(1)[i] != s.skip(1)[j] by {
                assert(s.skip(1)[i] == s[i + 1]);
                assert(s.skip(1)[j] == s[j + 1]);
            }
            lemma_at_most_one_holder(s.skip(1), a);
        }
    }
}

/// The queue position of the earliest waiter for `a`, or `q.len()` if none
/// waits.
pub open spec fn first_waiter(q: Seq<(u64, AddrV)>, a: AddrV) -> int
    decreases q.len(),
{
    if q.len() == 0 {
        0
    } else if q[0].1 == a {
        0
    } else {
        1 + first_waiter(q.skip(1), a)
    }
}

/// `first_waiter` is pinned down by the absence of `a` before `k` and its
/// presence (or the queue's end) at `k`.
pub proof fn lemma_first_waiter_is(q: Seq<(u64, AddrV)>, a: AddrV, k: int)
    requires
        0 <= k <= q.len(),
        forall|j: int| 0 <= j < k ==> q[j].1 != a,
        k == q.len() || q[k].1 == a,
    ensures
        first_waiter(q, a) == k,
    decreases q.len(),
{
    if q.len() > 0 && k > 0 {
        assert forall|j: int| 0 <= j < k - 1 implies q.skip(1)[j].1 != a by {
            assert(q.skip(1)[j] == q[j + 1]);
        }
        if k < q.len() {
            assert(q.skip(1)[k - 1] == q[k]);
        }
        lemma_first_waiter_is(q.skip(1), a, k - 1);
    }
}

/// Bounds and meaning of `first_waiter`: it is the first queue position that
/// carries `a`, where any does.
pub proof fn lemma_first_waiter_props(q: Seq<(u64, AddrV)>, a: AddrV)
    ensures
        0 <= first_waiter(q, a) <= q.len(),
        first_waiter(q, a) < q.len() ==> q[first_waiter(q, a)].1 == a,
        forall|j: int| 0 <= j < first_waiter(q, a) ==> q[j].1 != a,
    decreases q.len(),
{
    if q.len() > 0 && q[0].1 != a {
        lemma_first_waiter_props(q.skip(1), a);
        assert forall|j: int| 0 <= j < first_waiter(q, a) implies q[j].1 != a by {
            if j > 0 {
                assert(q.skip(1)[j - 1] == q[j]);
            }
        }
        if first_waiter(q, a) < q.len() {
            assert(q.skip(1)[first_waiter(q, a) - 1] == q[first_waiter(q, a)]);
        }
    }
}

/// The waiter a release serves holds the smallest ticket among the waiters
/// for that address: arrivals on one address are served strictly
/// first-come, first-served, and no waiter starves behind a later one.
pub proof fn lemma_fifo_serves_earliest(q: Seq<(u64, AddrV)>, a: AddrV)
    requires
        forall|i: int, j: int| 0 <= i < j < q.len() ==> q[i].0 < q[j].0,
        first_waiter(q, a) < q.len(),
    ensures
        q[first_waiter(q, a)].1 == a,
        forall|j: int| 0 <= j < q.len() && q[j].1 == a ==> q[first_waiter(q, a)].0 <= q[j].0,
{
    lemma_first_waiter_props(q, a);
}

/// The views of the queue's entries.
pub open spec fn queue_views(s: Seq<(u64, PageAddress)>) -> Seq<(u64, AddrV)> {
    s.map_values(|e: (u64, PageAddress)| (e.0, e.1@))
}

/// The per-address lock itself.
pub struct SyncGate {
    held: Vec<PageAddress>,
    queue: Vec<(u64, PageAddress)>,
    next_ticket: u64,
}

impl View for SyncGate {
    type V = GateV;

    closed spec fn view(&self) -> GateV {
        (addr_views(self.held@), queue_views(self.queue@), self.next_ticket)
    }
}

impl SyncGate {
    /// Held addresses are distinct and tickets are handed out in increasing
    /// order, never twice.
    pub open spec fn wf(&self) -> bool {
        &&& distinct_addrs(self@.0)
        &&& (forall|i: int, j: int| 0 <= i < j < self@.1.len() ==> self@.1[i].0 < self@.1[j].0)
        &&& (forall|i: int| 0 <= i < self@.1.len() ==> self@.1[i].0 < self@.2)
    }

    /// A gate with nothing held and nobody waiting.
    pub fn new() -> (r: Self)
        ensures
            r@ == (Seq::<AddrV>::empty(), Seq::<(u64, AddrV)>::empty(), 0u64),
            r.wf(),
    {
        let r = SyncGate { held: Vec::new(), queue: Vec::new(), next_ticket: 0 };
        proof {
            assert(r@.0 =~= Seq::<AddrV>::empty());
            assert(r@.1 =~= Seq::<(u64, AddrV)>::empty());
        }
        r
    }

    /// Whether `addr` is currently held.
    pub fn holds(&self, addr: &PageAddress) -> (b: bool)
        ensures
            b == self@.0.contains(addr@),
    {
        let n = self.held.len();
        let mut i: usize = 0;
        while i < n
            invariant
                0 <= i <= n,
                n == self.held.len(),
                forall|j: int| 0 <= j < i ==> self@.0[j] != addr@,
            decreases n - i,
        {
            proof {
                assert(self@.0[i as int] == self.held@[i as int]@);
            }
            if self.held[i] == *addr {
                return true;
            }
            i = i + 1;
        }
        proof {
            assert forall|j: int| 0 <= j < self@.0.len() implies self@.0[j] != addr@ by {}
        }
        false
    }

    /// Locks `addr` where it is free; reports `false`, changing
    /// nothing, where another operation already holds it.
    pub fn try_acquire(&mut self, addr: &PageAddress) -> (ok: bool)
        requires
            old(self).wf(),
        ensures
            final(self).wf(),
            ok == !old(self)@.0.contains(addr@),
            ok ==> final(self)@ == (old(self)@.0.push(addr@), old(self)@.1, old(self)@.2),
            !ok ==> final(self)@ == old(self)@,
    {
        if self.holds(addr) {
            return false;
        }
        let a = addr.clone();
        self.held.push(a);
        proof {
            assert(self@.0 =~= old(self)@.0.push(addr@));
            assert(self@.1 =~= old(self)@.1);
            assert forall|i: int, j: int| 0 <= i < j < self@.0.len() implies self@.0[i]
                != self@.0[j] by {
                if j < self@.0.len() - 1 {
                    assert(self@.0[i] == old(self)@.0[i]);
                    assert(self@.0[j] == old(self)@.0[j]);
                } else {
                    assert(self@.0[i] == old(self)@.0[i]);
                    assert(old(self)@.0.contains(old(self)@.0[i]));
                }
            }
        }
        true
    }

    /// Joins the wait queue for `addr` and returns the caller's ticket.
    /// Earlier tickets are always served first.
    pub fn enqueue(&mut self, addr: &PageAddress) -> (t: u64)
        requires
            old(self).wf(),
            old(self)@.2 < u64::MAX,
        ensures
            final(self).wf(),
            t == old(self)@.2,
            final(self)@ == (old(self)@.0, old(self)@.1.push((t, addr@)), (old(self)@.2 + 1) as u64),
    {
        let t = self.next_ticket;
        let a = addr.clone();
        self.queue.push((t, a));
        self.next_ticket = t + 1;
        proof {
            assert(self@.0 =~= old(self)@.0);
            assert(self@.1 =~= old(self)@.1.push((t, addr@)));
            assert forall|i: int, j: int| 0 <= i < j < self@.1.len() implies self@.1[i].0
                < self@.1[j].0 by {
                assert(self@.1[i] == old(self)@.1.push((t, addr@))[i]);
                assert(self@.1[j] == old(self)@.1.push((t, addr@))[j]);
            }
        }
        t
    }

    /// Releases `addr`.  The earliest waiter for it, if any, is granted the
    /// gate at once (the hold passes on, FIFO) and its ticket is returned;
    /// otherwise the address becomes free.
    pub fn release(&mut self, addr: &PageAddress) -> (granted: Option<u64>)
        requires
            old(self).wf(),
            old(self)@.0.contains(addr@),
        ensures
            final(self).wf(),
            final(self)@.2 == old(self)@.2,
            ({
                let w = first_waiter(old(self)@.1, addr@);
                if w < old(self)@.1.len() {
                    granted == Some(old(self)@.1[w].0) && final(self)@.1 == old(self)@.1.remove(w)
                        && final(self)@.0 == old(self)@.0
                } else {
                    granted is None && final(self)@.1 == old(self)@.1 && (exists|i: int|
                        0 <= i < old(self)@.0.len() && old(self)@.0[i] == addr@ && final(self)@.0
                            == old(self)@.0.remove(i))
                }
            }),
    {
        let qn = self.queue.len();
        let mut w: usize = 0;
        while w < qn
            invariant
                0 <= w <= qn,
                qn == self.queue.len(),
                self@ == old(self)@,
                old(self).wf(),
                forall|j: int| 0 <= j < w ==> old(self)@.1[j].1 != addr@,
            decreases qn - w,
        {
            proof {
                assert(self@.1[w as int] == (self.queue@[w as int].0, self.queue@[w as int].1@));
            }
            if self.queue[w].1 == *addr {
                proof {
                    lemma_first_waiter_is(old(self)@.1, addr@, w as int);
                }
                let (t, _) = self.queue.remove(w);
                proof {
                    assert(self@.1 =~= old(self)@.1.remove(w as int));
                    assert(self@.0 =~= old(self)@.0);
                    assert forall|i: int, j: int|
                        0 <= i < j < self@.1.len() implies self@.1[i].0 < self@.1[j].0 by {
                        assert(self@.1[i] == old(self)@.1.remove(w as int)[i]);
                        assert(self@.1[j] == old(self)@.1.remove(w as int)[j]);
                    }
                    assert forall|i: int| 0 <= i < self@.1.len() implies self@.1[i].0 < self@.2 by {
                        assert(self@.1[i] == old(self)@.1.remove(w as int)[i]);
                    }
                }
                return Some(t);
            }
            w = w + 1;
        }
        proof {
            lemma_first_waiter_is(old(self)@.1, addr@, old(self)@.1.len() as int);
        }
        let hn = self.held.len();
        let mut i: usize = 0;
        while i < hn
            invariant
                0 <= i <= hn,
                hn == self.held.len(),
                self@ == old(self)@,
                old(self).wf(),
                old(self)@.0.contains(addr@),
                first_waiter(old(self)@.1, addr@) == old(self)@.1.len(),
                forall|j: int| 0 <= j < i ==> old(self)@.0[j] != addr@,
            decreases hn - i,
        {
            proof {
                assert(self@.0[i as int] == self.held@[i as int]@);
            }
            if self.held[i] == *addr {
                let _ = self.held.remove(i);
                proof {
                    assert(self@.0 =~= old(self)@.0.remove(i as int));
                    assert(self@.1 =~= old(self)@.1);
                    assert forall|p: int, q: int|
                        0 <= p < q < self@.0.len() implies self@.0[p] != self@.0[q] by {
                        assert(self@.0[p] == old(self)@.0.remove(i as int)[p]);
                        assert(self@.0[q] == old(self)@.0.remove(i as int)[q]);
                    }
                }
                return None;
            }
            i = i + 1;
        }
        proof {
            let wit = choose|j: int|
                0 <= j < old(self)@.0.len() && old(self)@.0[j] == addr@;
            assert(false);
        }
        None
    }
}

} // verus!
