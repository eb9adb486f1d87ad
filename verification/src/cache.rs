//! In-memory page cache: an insertion-ordered mapping from page address to
//! the latest locally-known record, with no duplicate addresses.
//!
//! The cache always reflects the most recent acknowledged outcome of this
//! client's own create/update/delete on an address; it performs no network
//! I/O itself.

use crate::address::addr_views;
use crate::address::AddrV;
use crate::address::PageAddress;
use vstd::prelude::*;

verus! {

/// The mathematical value of a page record: title view and content view.
pub type RecV = (Option<Seq<char>>, Seq<char>);

/// What the cache knows of one page: an optional title for listings and the
/// page's content.
#[derive(Debug)]
pub struct PageRecord {
    pub title: Option<String>,
    pub content: String,
}

impl View for PageRecord {
    type V = RecV;

    open spec fn view(&self) -> RecV {
        (
            match self.title {
                Some(t) => Some(t@),
                None => None,
            },
            self.content@,
        )
    }
}

impl Clone for PageRecord {
    fn clone(&self) -> (r: Self)
        ensures
            r@ == self@,
    {
        PageRecord {
            title: match &self.title {
                Some(t) => Some(t.clone()),
                None => None,
            },
            content: self.content.clone(),
        }
    }
}

/// The record stored under `a`, scanning from the front.
pub open spec fn lookup(s: Seq<(AddrV, RecV)>, a: AddrV) -> Option<RecV>
    decreases s.len(),
{
    if s.len() == 0 {
        None
    } else if s[0].0 == a {
        Some(s[0].1)
    } else {
        lookup(s.skip(1), a)
    }
}

/// `s` with `r` stored under `a`: replaced in place where `a` is present,
/// appended otherwise.
pub open spec fn put_entry(s: Seq<(AddrV, RecV)>, a: AddrV, r: RecV) -> Seq<(AddrV, RecV)>
    decreases s.len(),
{
    if s.len() == 0 {
        seq![(a, r)]
    } else if s[0].0 == a {
        seq![(a, r)] + s.skip(1)
    } else {
        seq![s[0]] + put_entry(s.skip(1), a, r)
    }
}

/// `s` with the entry under `a` removed, other entries kept in order.
pub open spec fn remove_entry(s: Seq<(AddrV, RecV)>, a: AddrV) -> Seq<(AddrV, RecV)>
    decreases s.len(),
{
    if s.len() == 0 {
        s
    } else if s[0].0 == a {
        s.skip(1)
    } else {
        seq![s[0]] + remove_entry(s.skip(1), a)
    }
}

/// The addresses of `s`, in storage order.
pub open spec fn addrs_of(s: Seq<(AddrV, RecV)>) -> Seq<AddrV> {
    s.map_values(|e: (AddrV, RecV)| e.0)
}

/// No two entries share an address.
pub open spec fn cache_wf(s: Seq<(AddrV, RecV)>) -> bool {
    forall|i: int, j: int| 0 <= i < j < s.len() ==> s[i].0 != s[j].0
}

/// An address is absent exactly when no entry carries it.
pub proof fn lemma_lookup_absent(s: Seq<(AddrV, RecV)>, a: AddrV)
    ensures
        (lookup(s, a) is None) <==> (forall|i: int| 0 <= i < s.len() ==> s[i].0 != a),
    decreases s.len(),
{
    if s.len() > 0 {
        lemma_lookup_absent(s.skip(1), a);
        if s[0].0 != a {
            if lookup(s, a) is None {
                assert forall|i: int| 0 <= i < s.len() implies s[i].0 != a by {
                    if i > 0 {
                        assert(s.skip(1)[i - 1] == s[i]);
                    }
                }
            } else {
                let w = choose|i: int| 0 <= i < s.skip(1).len() && s.skip(1)[i].0 == a;
                assert(s[w + 1] == s.skip(1)[w]);
            }
        }
    }
}

/// Prepending one entry prepends its address to the listing.
pub proof fn lemma_addrs_cons(h: (AddrV, RecV), t: Seq<(AddrV, RecV)>)
    ensures
        addrs_of(seq![h] + t) =~= seq![h.0] + addrs_of(t),
{
    assert forall|i: int| 0 <= i < t.len() + 1 implies addrs_of(seq![h] + t)[i] == (seq![h.0]
        + addrs_of(t))[i] by {
        if i > 0 {
            assert((seq![h] + t)[i] == t[i - 1]);
        } else {
            assert((seq![h] + t)[0] == h);
        }
    }
}

/// After a put, the stored record under the same address is the new one.
pub proof fn lemma_lookup_put_same(s: Seq<(AddrV, RecV)>, a: AddrV, r: RecV)
    ensures
        lookup(put_entry(s, a, r), a) == Some(r),
    decreases s.len(),
{
    if s.len() > 0 && s[0].0 != a {
        lemma_lookup_put_same(s.skip(1), a, r);
        assert((seq![s[0]] + put_entry(s.skip(1), a, r)).skip(1) =~= put_entry(s.skip(1), a, r));
    } else if s.len() > 0 {
        assert((seq![(a, r)] + s.skip(1))[0] == (a, r));
    } else {
        assert(seq![(a, r)][0] == (a, r));
    }
}

/// A put leaves every other address's record unchanged.
pub proof fn lemma_lookup_put_other(s: Seq<(AddrV, RecV)>, a: AddrV, r: RecV, b: AddrV)
    requires
        b != a,
    ensures
        lookup(put_entry(s, a, r), b) == lookup(s, b),
    decreases s.len(),
{
    if s.len() == 0 {
        assert(seq![(a, r)][0].0 == a);
        assert(seq![(a, r)].skip(1) =~= Seq::<(AddrV, RecV)>::empty());
        assert(lookup(Seq::<(AddrV, RecV)>::empty(), b) is None);
    } else if s[0].0 == a {
        assert((seq![(a, r)] + s.skip(1))[0] == (a, r));
        assert((seq![(a, r)] + s.skip(1)).skip(1) =~= s.skip(1));
    } else {
        lemma_lookup_put_other(s.skip(1), a, r, b);
        assert((seq![s[0]] + put_entry(s.skip(1), a, r))[0] == s[0]);
        assert((seq![s[0]] + put_entry(s.skip(1), a, r)).skip(1) =~= put_entry(s.skip(1), a, r));
    }
}

/// Removing an address leaves nothing stored under it, given no duplicates.
pub proof fn lemma_lookup_remove_same(s: Seq<(AddrV, RecV)>, a: AddrV)
    requires
        cache_wf(s),
    ensures
        lookup(remove_entry(s, a), a) is None,
    decreases s.len(),
{
    if s.len() > 0 {
        if s[0].0 == a {
            lemma_lookup_absent(s.skip(1), a);
            assert forall|i: int| 0 <= i < s.skip(1).len() implies s.skip(1)[i].0 != a by {
                assert(s.skip(1)[i] == s[i + 1]);
            }
        } else {
            assert forall|i: int, j: int|
                0 <= i < j < s.skip(1).len() implies s.skip(1)[i].0 != s.skip(1)[j].0 by {
                assert(s.skip(1)[i] == s[i + 1]);
                assert(s.skip(1)[j] == s[j + 1]);
            }
            lemma_lookup_remove_same(s.skip(1), a);
            assert((seq![s[0]] + remove_entry(s.skip(1), a)).skip(1) =~= remove_entry(
                s.skip(1),
                a,
            ));
        }
    }
}

/// A removal leaves every other address's record unchanged.
pub proof fn lemma_lookup_remove_other(s: Seq<(AddrV, RecV)>, a: AddrV, b: AddrV)
    requires
        b != a,
    ensures
        lookup(remove_entry(s, a), b) == lookup(s, b),
    decreases s.len(),
{
    if s.len() > 0 {
        if s[0].0 != a {
            lemma_lookup_remove_other(s.skip(1), a, b);
            assert((seq![s[0]] + remove_entry(s.skip(1), a)).skip(1) =~= remove_entry(
                s.skip(1),
                a,
            ));
        }
    }
}

/// A put preserves the no-duplicates invariant.
pub proof fn lemma_put_wf(s: Seq<(AddrV, RecV)>, a: AddrV, r: RecV)
    requires
        cache_wf(s),
    ensures
        cache_wf(put_entry(s, a, r)),
        addrs_of(put_entry(s, a, r)) == if lookup(s, a) is Some {
            addrs_of(s)
        } else {
            addrs_of(s).push(a)
        },
    decreases s.len(),
{
    let p = put_entry(s, a, r);
    if s.len() == 0 {
        assert(addrs_of(p) =~= addrs_of(s).push(a));
    } else if s[0].0 == a {
        assert forall|i: int, j: int| 0 <= i < j < p.len() implies p[i].0 != p[j].0 by {
            if i > 0 {
                assert(p[i] == s[i]);
            }
            assert(p[j] == s[j]);
        }
        assert(addrs_of(p) =~= addrs_of(s));
    } else {
        assert forall|i: int, j: int|
            0 <= i < j < s.skip(1).len() implies s.skip(1)[i].0 != s.skip(1)[j].0 by {
            assert(s.skip(1)[i] == s[i + 1]);
            assert(s.skip(1)[j] == s[j + 1]);
        }
        lemma_put_wf(s.skip(1), a, r);
        let q = put_entry(s.skip(1), a, r);
        assert(p.skip(1) =~= q);
        lemma_lookup_absent(s.skip(1), s[0].0);
        lemma_lookup_put_other(s.skip(1), a, r, s[0].0);
        lemma_lookup_absent(q, s[0].0);
        assert forall|i: int, j: int| 0 <= i < j < p.len() implies p[i].0 != p[j].0 by {
            if i > 0 {
                assert(p[i] == q[i - 1]);
                assert(p[j] == q[j - 1]);
            } else {
                assert(p[j] == q[j - 1]);
            }
        }
        lemma_addrs_cons(s[0], q);
        lemma_addrs_cons(s[0], s.skip(1));
        assert(s =~= seq![s[0]] + s.skip(1));
        if lookup(s, a) is Some {
            assert(addrs_of(p) =~= addrs_of(s));
        } else {
            assert(addrs_of(p) =~= addrs_of(s).push(a));
        }
    }
}

/// A removal preserves the no-duplicates invariant.
pub proof fn lemma_remove_wf(s: Seq<(AddrV, RecV)>, a: AddrV)
    requires
        cache_wf(s),
    ensures
        cache_wf(remove_entry(s, a)),
    decreases s.len(),
{
    let p = remove_entry(s, a);
    if s.len() > 0 {
        if s[0].0 == a {
            assert forall|i: int, j: int| 0 <= i < j < p.len() implies p[i].0 != p[j].0 by {
                assert(p[i] == s[i + 1]);
                assert(p[j] == s[j + 1]);
            }
        } else {
            assert forall|i: int, j: int|
                0 <= i < j < s.skip(1).len() implies s.skip(1)[i].0 != s.skip(1)[j].0 by {
                assert(s.skip(1)[i] == s[i + 1]);
                assert(s.skip(1)[j] == s[j + 1]);
            }
            lemma_remove_wf(s.skip(1), a);
            let q = remove_entry(s.skip(1), a);
            assert(p.skip(1) =~= q);
            lemma_lookup_absent(s.skip(1), s[0].0);
            lemma_lookup_remove_other(s.skip(1), a, s[0].0);
            lemma_lookup_absent(q, s[0].0);
            assert forall|i: int, j: int| 0 <= i < j < p.len() implies p[i].0 != p[j].0 by {
                if i > 0 {
                    assert(p[i] == q[i - 1]);
                }
                assert(p[j] == q[j - 1]);
            }
        }
    }
}

/// Replacing at the first (and under `cache_wf` only) index that carries `a`
/// is what `put_entry` does.
pub proof fn lemma_put_at_index(s: Seq<(AddrV, RecV)>, a: AddrV, r: RecV, i: int)
    requires
        0 <= i < s.len(),
        s[i].0 == a,
        forall|j: int| 0 <= j < i ==> s[j].0 != a,
    ensures
        put_entry(s, a, r) == s.update(i, (a, r)),
    decreases i,
{
    if i == 0 {
        assert(seq![(a, r)] + s.skip(1) =~= s.update(0, (a, r)));
    } else {
        assert(s.skip(1)[i - 1] == s[i]);
        assert forall|j: int| 0 <= j < i - 1 implies s.skip(1)[j].0 != a by {
            assert(s.skip(1)[j] == s[j + 1]);
        }
        lemma_put_at_index(s.skip(1), a, r, i - 1);
        assert(seq![s[0]] + s.skip(1).update(i - 1, (a, r)) =~= s.update(i, (a, r)));
    }
}

/// Where `a` is absent, `put_entry` appends.
pub proof fn lemma_put_absent_append(s: Seq<(AddrV, RecV)>, a: AddrV, r: RecV)
    requires
        forall|j: int| 0 <= j < s.len() ==> s[j].0 != a,
    ensures
        put_entry(s, a, r) == s.push((a, r)),
    decreases s.len(),
{
    if s.len() == 0 {
        assert(seq![(a, r)] =~= s.push((a, r)));
    } else {
        assert forall|j: int| 0 <= j < s.skip(1).len() implies s.skip(1)[j].0 != a by {
            assert(s.skip(1)[j] == s[j + 1]);
        }
        lemma_put_absent_append(s.skip(1), a, r);
        assert(seq![s[0]] + s.skip(1).push((a, r)) =~= s.push((a, r)));
    }
}

/// Removing at the first index that carries `a` is what `remove_entry` does.
pub proof fn lemma_remove_at_index(s: Seq<(AddrV, RecV)>, a: AddrV, i: int)
    requires
        0 <= i < s.len(),
        s[i].0 == a,
        forall|j: int| 0 <= j < i ==> s[j].0 != a,
    ensures
        remove_entry(s, a) == s.remove(i),
    decreases i,
{
    if i == 0 {
        assert(s.skip(1) =~= s.remove(0));
    } else {
        assert(s.skip(1)[i - 1] == s[i]);
        assert forall|j: int| 0 <= j < i - 1 implies s.skip(1)[j].0 != a by {
            assert(s.skip(1)[j] == s[j + 1]);
        }
        lemma_remove_at_index(s.skip(1), a, i - 1);
        assert(seq![s[0]] + s.skip(1).remove(i - 1) =~= s.remove(i));
    }
}

/// Where `a` is absent, `remove_entry` changes nothing.
pub proof fn lemma_remove_absent(s: Seq<(AddrV, RecV)>, a: AddrV)
    requires
        forall|j: int| 0 <= j < s.len() ==> s[j].0 != a,
    ensures
        remove_entry(s, a) == s,
    decreases s.len(),
{
    if s.len() > 0 {
        assert forall|j: int| 0 <= j < s.skip(1).len() implies s.skip(1)[j].0 != a by {
            assert(s.skip(1)[j] == s[j + 1]);
        }
        lemma_remove_absent(s.skip(1), a);
        assert(seq![s[0]] + s.skip(1) =~= s);
    }
}

/// An address is listed exactly when a record is stored under it.
pub proof fn lemma_addrs_contains(s: Seq<(AddrV, RecV)>, a: AddrV)
    ensures
        addrs_of(s).contains(a) <==> lookup(s, a) is Some,
{
    lemma_lookup_absent(s, a);
    if lookup(s, a) is Some {
        let i = choose|i: int| 0 <= i < s.len() && s[i].0 == a;
        assert(addrs_of(s)[i] == a);
    } else {
        assert forall|i: int| 0 <= i < addrs_of(s).len() implies addrs_of(s)[i] != a by {
            assert(addrs_of(s)[i] == s[i].0);
        }
    }
}

/// The cache itself: entries in insertion order, newest last.
pub struct PageCache {
    entries: Vec<(PageAddress, PageRecord)>,
}

impl View for PageCache {
    type V = Seq<(AddrV, RecV)>;

    closed spec fn view(&self) -> Seq<(AddrV, RecV)> {
        self.entries@.map_values(|e: (PageAddress, PageRecord)| (e.0@, e.1@))
    }
}

impl PageCache {
    /// An empty cache.
    pub fn new() -> (r: Self)
        ensures
            r@ == Seq::<(AddrV, RecV)>::empty(),
            cache_wf(r@),
    {
        let r = PageCache { entries: Vec::new() };
        proof {
            assert(r@ =~= Seq::<(AddrV, RecV)>::empty());
        }
        r
    }

    /// The record stored under `addr`, if any.  No network I/O: a miss is
    /// just a miss.
    pub fn get(&self, addr: &PageAddress) -> (r: Option<&PageRecord>)
        ensures
            match r {
                Some(rec) => lookup(self@, addr@) == Some(rec@),
                None => lookup(self@, addr@) is None,
            },
    {
        let n = self.entries.len();
        let mut i: usize = 0;
        proof {
            assert(self@.skip(0) =~= self@);
        }
        while i < n
            invariant
                0 <= i <= n,
                n == self.entries.len(),
                lookup(self@, addr@) == lookup(self@.skip(i as int), addr@),
            decreases n - i,
        {
            proof {
                assert(self@[i as int] == (self.entries@[i as int].0@, self.entries@[i as int].1@));
                assert(self@.skip(i as int)[0] == self@[i as int]);
            }
            if self.entries[i].0 == *addr {
                return Some(&self.entries[i].1);
            }
            proof {
                assert(self@.skip(i as int).skip(1) =~= self@.skip(i as int + 1));
            }
            i = i + 1;
        }
        proof {
            assert(self@.skip(n as int) =~= Seq::<(AddrV, RecV)>::empty());
        }
        None
    }

    /// Stores `rec` under `addr`: replaces in place where the address is
    /// present, appends otherwise.
    pub fn put(&mut self, addr: PageAddress, rec: PageRecord)
        requires
            cache_wf(old(self)@),
        ensures
            final(self)@ == put_entry(old(self)@, addr@, rec@),
            cache_wf(final(self)@),
    {
        let n = self.entries.len();
        let mut i: usize = 0;
        while i < n
            invariant
                0 <= i <= n,
                n == self.entries.len(),
                self@ == old(self)@,
                cache_wf(old(self)@),
                forall|j: int| 0 <= j < i ==> old(self)@[j].0 != addr@,
            decreases n - i,
        {
            proof {
                assert(self@[i as int] == (self.entries@[i as int].0@, self.entries@[i as int].1@));
            }
            if self.entries[i].0 == addr {
                proof {
                    lemma_put_at_index(old(self)@, addr@, rec@, i as int);
                    lemma_put_wf(old(self)@, addr@, rec@);
                }
                self.entries[i] = (addr, rec);
                proof {
                    assert(self@ =~= old(self)@.update(i as int, (addr@, rec@)));
                }
                return ;
            }
            i = i + 1;
        }
        proof {
            lemma_put_absent_append(old(self)@, addr@, rec@);
            lemma_put_wf(old(self)@, addr@, rec@);
        }
        self.entries.push((addr, rec));
        proof {
            assert(self@ =~= old(self)@.push((addr@, rec@)));
        }
    }

    /// Drops whatever is stored under `addr`; the other entries keep their
    /// order.
    pub fn evict(&mut self, addr: &PageAddress)
        requires
            cache_wf(old(self)@),
        ensures
            final(self)@ == remove_entry(old(self)@, addr@),
            cache_wf(final(self)@),
    {
        let n = self.entries.len();
        let mut i: usize = 0;
        while i < n
            invariant
                0 <= i <= n,
                n == self.entries.len(),
                self@ == old(self)@,
                cache_wf(old(self)@),
                forall|j: int| 0 <= j < i ==> old(self)@[j].0 != addr@,
            decreases n - i,
        {
            proof {
                assert(self@[i as int] == (self.entries@[i as int].0@, self.entries@[i as int].1@));
            }
            if self.entries[i].0 == *addr {
                proof {
                    lemma_remove_at_index(old(self)@, addr@, i as int);
                    lemma_remove_wf(old(self)@, addr@);
                }
                let _ = self.entries.remove(i);
                proof {
                    assert(self@ =~= old(self)@.remove(i as int));
                }
                return ;
            }
            i = i + 1;
        }
        proof {
            lemma_remove_absent(old(self)@, addr@);
            lemma_remove_wf(old(self)@, addr@);
            assert(self@ =~= old(self)@);
        }
    }

    /// The cached addresses in insertion order, newest last.
    pub fn list_addresses(&self) -> (r: Vec<PageAddress>)
        ensures
            addr_views(r@) == addrs_of(self@),
    {
        let n = self.entries.len();
        let mut r: Vec<PageAddress> = Vec::new();
        let mut i: usize = 0;
        proof {
            assert(addr_views(r@) =~= addrs_of(self@).take(0));
        }
        while i < n
            invariant
                0 <= i <= n,
                n == self.entries.len(),
                addr_views(r@) == addrs_of(self@).take(i as int),
            decreases n - i,
        {
            let ghost r0 = r@;
            let a = self.entries[i].0.clone();
            proof {
                assert(self@[i as int] == (self.entries@[i as int].0@, self.entries@[i as int].1@));
                assert(addrs_of(self@)[i as int] == self@[i as int].0);
            }
            r.push(a);
            proof {
                assert(addrs_of(self@).len() == self@.len());
                assert(addr_views(r0).len() == r0.len());
                assert(r0.len() == i);
                assert(r@ == r0.push(a));
                assert(r@.len() == i + 1);
                assert forall|j: int| 0 <= j < i + 1 implies addr_views(r@)[j] == addrs_of(
                    self@,
                ).take(i as int + 1)[j] by {
                    assert(addr_views(r@)[j] == r@[j]@);
                    if j < i {
                        assert(r@[j] == r0[j]);
                        assert(addr_views(r0)[j] == r0[j]@);
                        assert(addrs_of(self@).take(i as int)[j] == addrs_of(self@)[j]);
                    } else {
                        assert(r@[j] == a);
                    }
                }
                assert(addr_views(r@) =~= addrs_of(self@).take(i as int + 1));
            }
            i = i + 1;
        }
        proof {
            assert(addrs_of(self@).take(n as int) =~= addrs_of(self@));
        }
        r
    }
}

} // verus!
