//! Routing of renderer link-activation events.
//!
//! The renderer never navigates itself: every activation event is
//! intercepted, and only events that resolve to an internal page address may
//! navigate.  Within one interaction cycle the events are processed in
//! arrival order and only the first resolved one is applied.

use crate::address::resolve_spec;
use crate::address::relative_link;
use crate::address::AddrV;
use crate::address::PageAddress;
use vstd::prelude::*;

verus! {

/// The resolution of the first event that resolves, if any does.
pub open spec fn first_resolved(hrefs: Seq<Seq<char>>, base: Seq<char>) -> Option<AddrV>
    decreases hrefs.len(),
{
    if hrefs.len() == 0 {
        None
    } else if resolve_spec(hrefs[0], base) is Some {
        resolve_spec(hrefs[0], base)
    } else {
        first_resolved(hrefs.skip(1), base)
    }
}

/// Routes one cycle's activation events against the owner of the page being
/// viewed: the first event that resolves to an internal page wins; unresolved
/// events are dropped and never navigate.
pub fn route_links(hrefs: &Vec<String>, current_owner: &str) -> (r: Option<PageAddress>)
    ensures
        match r {
            Some(a) => first_resolved(hrefs.deep_view(), current_owner@) == Some(a@),
            None => first_resolved(hrefs.deep_view(), current_owner@) is None,
        },
{
    let ghost hs = hrefs.deep_view();
    let n = hrefs.len();
    let mut i: usize = 0;
    proof {
        assert(hs.skip(0) =~= hs);
        assert(hs.len() == n);
    }
    while i < n
        invariant
            0 <= i <= n,
            n == hrefs@.len(),
            hs == hrefs.deep_view(),
            hs.len() == n,
            first_resolved(hs, current_owner@) == first_resolved(hs.skip(i as int), current_owner@),
        decreases n - i,
    {
        proof {
            assert(hs[i as int] == hrefs@[i as int]@);
            assert(hs.skip(i as int)[0] == hs[i as int]);
        }
        let resolved = relative_link(hrefs[i].as_str(), current_owner);
        match resolved {
            Some(a) => {
                return Some(a);
            },
            None => {
                proof {
                    assert(hs.skip(i as int).skip(1) =~= hs.skip(i as int + 1));
                }
            },
        }
        i = i + 1;
    }
    proof {
        assert(hs.skip(n as int) =~= Seq::<Seq<char>>::empty());
    }
    None
}

} // verus!
