//! Canonical page addresses and their URL codec.
//!
//! A page lives at `pubky://<owner>/pub/wiki.app/<pageId>`.  Owner and page
//! id are drawn from a restricted charset, so the encoding is collision-free
//! and decoding recovers exactly the pair that was encoded.

use crate::errors::WikiError;
use crate::scan::find_from;
use crate::scan::lemma_find_from_is;
use vstd::prelude::*;
use vstd::string::StrSliceExecFns;
use vstd::string::StringExecFns;

verus! {

/// The mathematical value of a page address: the views of owner and page id.
pub type AddrV = (Seq<char>, Seq<char>);

/// A page's location: its owner's public identity and its id within the
/// owner's namespace.  Immutable once constructed.
#[derive(Debug)]
pub struct PageAddress {
    pub owner: String,
    pub page_id: String,
}

impl View for PageAddress {
    type V = AddrV;

    open spec fn view(&self) -> AddrV {
        (self.owner@, self.page_id@)
    }
}

impl Clone for PageAddress {
    fn clone(&self) -> (r: Self)
        ensures
            r@ == self@,
    {
        PageAddress { owner: self.owner.clone(), page_id: self.page_id.clone() }
    }
}

impl PartialEq for PageAddress {
    fn eq(&self, other: &Self) -> bool {
        self.owner == other.owner && self.page_id == other.page_id
    }
}

impl Eq for PageAddress {

}

impl vstd::std_specs::cmp::PartialEqSpecImpl for PageAddress {
    open spec fn obeys_eq_spec() -> bool {
        true
    }

    open spec fn eq_spec(&self, other: &Self) -> bool {
        self@ == other@
    }
}

impl PageAddress {
    /// Builds an address from its two components.
    pub fn new(owner: String, page_id: String) -> (r: Self)
        ensures
            r@ == (owner@, page_id@),
    {
        PageAddress { owner, page_id }
    }
}

/// The views of a sequence of addresses.
pub open spec fn addr_views(s: Seq<PageAddress>) -> Seq<AddrV> {
    s.map_values(|p: PageAddress| p@)
}

/// The URL scheme prefix, `pubky://`.
pub open spec fn scheme_seq() -> Seq<char> {
    seq!['p', 'u', 'b', 'k', 'y', ':', '/', '/']
}

/// The fixed namespace path between owner and page id, `/pub/wiki.app/`.
pub open spec fn infix_seq() -> Seq<char> {
    seq!['/', 'p', 'u', 'b', '/', 'w', 'i', 'k', 'i', '.', 'a', 'p', 'p', '/']
}

/// Characters admitted in owners and page ids: ASCII letters, digits,
/// `-`, `_` and `.`.
pub open spec fn is_name_char(c: char) -> bool {
    (97 <= c as u32 && c as u32 <= 122) || (65 <= c as u32 && c as u32 <= 90) || (48 <= c as u32
        && c as u32 <= 57) || c == '-' || c == '_' || c == '.'
}

/// A usable owner or page id: non-empty and over the admitted charset.
pub open spec fn valid_name(s: Seq<char>) -> bool {
    s.len() > 0 && (forall|i: int| 0 <= i < s.len() ==> is_name_char(s[i]))
}

/// Admitted name characters are never the path separator.
pub proof fn lemma_name_char_not_slash(c: char)
    requires
        is_name_char(c),
    ensures
        c != '/',
{
    assert('/' as u32 == 47);
}

/// The canonical URL of the pair `(owner, id)`.
pub open spec fn encode_spec(owner: Seq<char>, id: Seq<char>) -> Seq<char> {
    scheme_seq() + owner + infix_seq() + id
}

/// Whether every character of `s` is a path separator.
pub open spec fn all_slashes(s: Seq<char>) -> bool {
    forall|i: int| 0 <= i < s.len() ==> s[i] == '/'
}

/// The pair a canonical URL denotes, or `None` where the scheme, the path
/// depth or the charset is wrong or the page id is empty.  Trailing path
/// separators are tolerated.
pub open spec fn decode_spec(s: Seq<char>) -> Option<(Seq<char>, Seq<char>)> {
    if s.len() < 8 || s.take(8) != scheme_seq() {
        None
    } else {
        let rest = s.skip(8);
        let k = find_from(rest, '/', 0);
        if k >= rest.len() {
            None
        } else {
            let owner = rest.take(k);
            let after = rest.skip(k);
            if after.len() < 14 || after.take(14) != infix_seq() {
                None
            } else {
                let tail = after.skip(14);
                let j = find_from(tail, '/', 0);
                let id = tail.take(j);
                if valid_name(owner) && valid_name(id) && all_slashes(tail.skip(j)) {
                    Some((owner, id))
                } else {
                    None
                }
            }
        }
    }
}

/// Builds the canonical URL of `addr`.  Deterministic, and collision-free
/// for distinct valid pairs since decoding inverts it.
pub fn encode(addr: &PageAddress) -> (r: String)
    ensures
        r@ == encode_spec(addr.owner@, addr.page_id@),
{
    proof {
        reveal_strlit("pubky://");
        reveal_strlit("/pub/wiki.app/");
        assert("pubky://"@ =~= scheme_seq());
        assert("/pub/wiki.app/"@ =~= infix_seq());
    }
    let mut s = String::from_str("pubky://");
    s.append(addr.owner.as_str());
    s.append("/pub/wiki.app/");
    s.append(addr.page_id.as_str());
    s
}

/// The scheme character at position `i`.
fn scheme_char(i: usize) -> (c: char)
    requires
        i < 8,
    ensures
        c == scheme_seq()[i as int],
{
    if i == 0 {
        'p'
    } else if i == 1 {
        'u'
    } else if i == 2 {
        'b'
    } else if i == 3 {
        'k'
    } else if i == 4 {
        'y'
    } else if i == 5 {
        ':'
    } else {
        '/'
    }
}

/// The namespace-path character at position `i`.
fn infix_char(i: usize) -> (c: char)
    requires
        i < 14,
    ensures
        c == infix_seq()[i as int],
{
    if i == 0 {
        '/'
    } else if i == 1 {
        'p'
    } else if i == 2 {
        'u'
    } else if i == 3 {
        'b'
    } else if i == 4 {
        '/'
    } else if i == 5 {
        'w'
    } else if i == 6 {
        'i'
    } else if i == 7 {
        'k'
    } else if i == 8 {
        'i'
    } else if i == 9 {
        '.'
    } else if i == 10 {
        'a'
    } else if i == 11 {
        'p'
    } else if i == 12 {
        'p'
    } else {
        '/'
    }
}

/// Whether `s` starts with the URL scheme.
pub fn has_scheme(s: &str) -> (b: bool)
    ensures
        b == (s@.len() >= 8 && s@.take(8) == scheme_seq()),
{
    let n = s.unicode_len();
    if n < 8 {
        return false;
    }
    let mut i: usize = 0;
    while i < 8
        invariant
            0 <= i <= 8,
            n == s@.len(),
            n >= 8,
            forall|j: int| 0 <= j < i ==> s@[j] == scheme_seq()[j],
        decreases 8 - i,
    {
        if s.get_char(i) != scheme_char(i) {
            proof {
                assert(s@.take(8)[i as int] == s@[i as int]);
            }
            return false;
        }
        i = i + 1;
    }
    proof {
        assert(s@.take(8) =~= scheme_seq());
    }
    true
}

/// Whether `s` holds the namespace path starting at position `from`.
fn infix_at(s: &str, from: usize) -> (b: bool)
    requires
        from <= s@.len(),
    ensures
        b == (from + 14 <= s@.len() && s@.subrange(from as int, from as int + 14) == infix_seq()),
{
    let n = s.unicode_len();
    if n - from < 14 {
        return false;
    }
    let mut i: usize = 0;
    while i < 14
        invariant
            0 <= i <= 14,
            n == s@.len(),
            from + 14 <= n,
            forall|j: int| 0 <= j < i ==> s@[from + j] == infix_seq()[j],
        decreases 14 - i,
    {
        if s.get_char(from + i) != infix_char(i) {
            proof {
                assert(s@.subrange(from as int, from as int + 14)[i as int] == s@[from + i]);
            }
            return false;
        }
        i = i + 1;
    }
    proof {
        assert(s@.subrange(from as int, from as int + 14) =~= infix_seq());
    }
    true
}

/// Scans forward from `from` to the first path separator, or to the end.
fn scan_to_slash(s: &str, from: usize) -> (r: usize)
    requires
        from <= s@.len(),
    ensures
        from <= r <= s@.len(),
        r - from == find_from(s@.skip(from as int), '/', 0),
        forall|j: int| from <= j < r ==> s@[j] != '/',
        r < s@.len() ==> s@[r as int] == '/',
{
    let n = s.unicode_len();
    let mut i: usize = from;
    while i < n && s.get_char(i) != '/'
        invariant
            from <= i <= n,
            n == s@.len(),
            forall|j: int| from <= j < i ==> s@[j] != '/',
        decreases n - i,
    {
        i = i + 1;
    }
    proof {
        let rest = s@.skip(from as int);
        assert forall|j: int| 0 <= j < i - from implies rest[j] != '/' by {
            assert(rest[j] == s@[from + j]);
        }
        if i < n {
            assert(rest[i - from] == s@[i as int]);
        }
        lemma_find_from_is(rest, '/', 0, i as int - from as int);
    }
    i
}

/// Whether a character is admitted in owners and page ids.
fn name_char(c: char) -> (b: bool)
    ensures
        b == is_name_char(c),
{
    let u = c as u32;
    (97 <= u && u <= 122) || (65 <= u && u <= 90) || (48 <= u && u <= 57) || c == '-' || c == '_'
        || c == '.'
}

/// Whether every character of `s` in `[from, to)` is admitted in names.
fn names_in(s: &str, from: usize, to: usize) -> (b: bool)
    requires
        from <= to <= s@.len(),
    ensures
        b == (forall|j: int| from <= j < to ==> is_name_char(s@[j])),
{
    let mut i: usize = from;
    while i < to
        invariant
            from <= i <= to <= s@.len(),
            forall|j: int| from <= j < i ==> is_name_char(s@[j]),
        decreases to - i,
    {
        if !name_char(s.get_char(i)) {
            return false;
        }
        i = i + 1;
    }
    true
}

/// Whether every character of `s` from `from` on is a path separator.
fn slashes_from(s: &str, from: usize) -> (b: bool)
    requires
        from <= s@.len(),
    ensures
        b == all_slashes(s@.skip(from as int)),
{
    let n = s.unicode_len();
    let mut i: usize = from;
    while i < n
        invariant
            from <= i <= n,
            n == s@.len(),
            forall|j: int| from <= j < i ==> s@[j] == '/',
        decreases n - i,
    {
        if s.get_char(i) != '/' {
            proof {
                assert(s@.skip(from as int)[i - from] == s@[i as int]);
            }
            return false;
        }
        i = i + 1;
    }
    proof {
        let rest = s@.skip(from as int);
        assert forall|j: int| 0 <= j < rest.len() implies rest[j] == '/' by {
            assert(rest[j] == s@[from + j]);
        }
    }
    true
}

/// Parses a canonical URL back into its address, or reports it malformed:
/// wrong scheme, wrong path depth, bad charset, or an empty page id.
pub fn decode(url: &str) -> (r: Result<PageAddress, WikiError>)
    ensures
        match r {
            Ok(a) => decode_spec(url@) == Some(a@),
            Err(e) => decode_spec(url@) is None && e == WikiError::MalformedAddress,
        },
{
    let n = url.unicode_len();
    if !has_scheme(url) {
        return Err(WikiError::MalformedAddress);
    }
    let ghost rest = url@.skip(8);
    let k = scan_to_slash(url, 8);
    proof {
        assert(url@.skip(8).skip(0) =~= url@.skip(8));
    }
    if k == n {
        proof {
            assert(find_from(rest, '/', 0) >= rest.len());
        }
        return Err(WikiError::MalformedAddress);
    }
    let ghost owner_s = rest.take(k as int - 8);
    let ghost after = rest.skip(k as int - 8);
    proof {
        assert(after =~= url@.skip(k as int));
    }
    if !infix_at(url, k) {
        proof {
            assert(after.len() >= 14 ==> after.take(14) =~= url@.subrange(
                k as int,
                k as int + 14,
            ));
        }
        return Err(WikiError::MalformedAddress);
    }
    let t0 = k + 14;
    let ghost tail = after.skip(14);
    proof {
        assert(after.take(14) =~= url@.subrange(k as int, k as int + 14));
        assert(tail =~= url@.skip(t0 as int));
    }
    let j = scan_to_slash(url, t0);
    proof {
        assert(find_from(tail, '/', 0) == j - t0);
        assert(rest.take(k as int - 8) =~= url@.subrange(8, k as int));
        assert(tail.take(j as int - t0 as int) =~= url@.subrange(t0 as int, j as int));
    }
    if k == 8 || j == t0 {
        return Err(WikiError::MalformedAddress);
    }
    if !names_in(url, 8, k) {
        proof {
            if valid_name(owner_s) {
                assert forall|q: int| 8 <= q < k implies is_name_char(url@[q]) by {
                    assert(owner_s[q - 8] == url@[q]);
                }
            }
        }
        return Err(WikiError::MalformedAddress);
    }
    if !names_in(url, t0, j) {
        proof {
            let idv = tail.take(j as int - t0 as int);
            if valid_name(idv) {
                assert forall|q: int| t0 <= q < j implies is_name_char(url@[q]) by {
                    assert(idv[q - t0] == url@[q]);
                }
            }
        }
        return Err(WikiError::MalformedAddress);
    }
    if !slashes_from(url, j) {
        proof {
            assert(tail.skip(j as int - t0 as int) =~= url@.skip(j as int));
        }
        return Err(WikiError::MalformedAddress);
    }
    proof {
        assert(tail.skip(j as int - t0 as int) =~= url@.skip(j as int));
        assert(valid_name(owner_s));
        assert(valid_name(tail.take(j as int - t0 as int)));
    }
    let owner = url.substring_char(8, k).to_owned();
    let id = url.substring_char(t0, j).to_owned();
    Ok(PageAddress { owner, page_id: id })
}

/// The address a renderer-reported link denotes, resolved against the owner
/// of the page being viewed.  A link with the canonical scheme is decoded in
/// full; `owner/pageId` names another owner's page; a bare `pageId` names a
/// page of the base owner; anything else (another scheme, a deeper path, a
/// bad charset) is ambiguous and resolves to `None`.
pub open spec fn resolve_spec(href: Seq<char>, base_owner: Seq<char>) -> Option<
    (Seq<char>, Seq<char>),
> {
    if href.len() >= 8 && href.take(8) == scheme_seq() {
        decode_spec(href)
    } else {
        let k = find_from(href, '/', 0);
        if k >= href.len() {
            if valid_name(href) && valid_name(base_owner) {
                Some((base_owner, href))
            } else {
                None
            }
        } else {
            let owner = href.take(k);
            let rest = href.skip(k + 1);
            let j = find_from(rest, '/', 0);
            let id = rest.take(j);
            if valid_name(owner) && valid_name(id) && all_slashes(rest.skip(j)) {
                Some((owner, id))
            } else {
                None
            }
        }
    }
}

/// Resolves a renderer-reported link against the current page's owner;
/// returns `None` where the link is external or ambiguous.
pub fn relative_link(href: &str, current_owner: &str) -> (r: Option<PageAddress>)
    ensures
        match r {
            Some(a) => resolve_spec(href@, current_owner@) == Some(a@),
            None => resolve_spec(href@, current_owner@) is None,
        },
{
    if has_scheme(href) {
        match decode(href) {
            Ok(a) => Some(a),
            Err(_) => None,
        }
    } else {
        let n = href.unicode_len();
        let k = scan_to_slash(href, 0);
        proof {
            assert(href@.skip(0) =~= href@);
        }
        if k == n {
            if n == 0 {
                return None;
            }
            if !names_in(href, 0, n) {
                return None;
            }
            let m = current_owner.unicode_len();
            if m == 0 {
                return None;
            }
            if !names_in(current_owner, 0, m) {
                return None;
            }
            Some(PageAddress { owner: current_owner.to_owned(), page_id: href.to_owned() })
        } else {
            let ghost owner_s = href@.take(k as int);
            let ghost rest = href@.skip(k as int + 1);
            let j = scan_to_slash(href, k + 1);
            proof {
                assert(find_from(rest, '/', 0) == j - (k + 1));
                assert(owner_s =~= href@.subrange(0, k as int));
                assert(rest.take(j as int - (k as int + 1)) =~= href@.subrange(
                    k as int + 1,
                    j as int,
                ));
            }
            if k == 0 || j == k + 1 {
                return None;
            }
            if !names_in(href, 0, k) {
                proof {
                    if valid_name(owner_s) {
                        assert forall|q: int| 0 <= q < k implies is_name_char(href@[q]) by {
                            assert(owner_s[q] == href@[q]);
                        }
                    }
                }
                return None;
            }
            if !names_in(href, k + 1, j) {
                proof {
                    let idv = rest.take(j as int - (k as int + 1));
                    if valid_name(idv) {
                        assert forall|q: int| k + 1 <= q < j implies is_name_char(href@[q]) by {
                            assert(idv[q - (k + 1)] == href@[q]);
                        }
                    }
                }
                return None;
            }
            if !slashes_from(href, j) {
                proof {
                    assert(rest.skip(j as int - (k as int + 1)) =~= href@.skip(j as int));
                }
                return None;
            }
            proof {
                assert(rest.skip(j as int - (k as int + 1)) =~= href@.skip(j as int));
                assert(valid_name(owner_s));
                assert(valid_name(rest.take(j as int - (k as int + 1))));
            }
            Some(
                PageAddress {
                    owner: href.substring_char(0, k).to_owned(),
                    page_id: href.substring_char(k + 1, j).to_owned(),
                },
            )
        }
    }
}

/// Decoding returns exactly the pair that was encoded: the codec round-trips
/// on every valid pair.
pub proof fn lemma_round_trip(owner: Seq<char>, id: Seq<char>)
    requires
        valid_name(owner),
        valid_name(id),
    ensures
        decode_spec(encode_spec(owner, id)) == Some((owner, id)),
{
    let s = encode_spec(owner, id);
    let ol = owner.len() as int;
    let il = id.len() as int;
    assert(s.take(8) =~= scheme_seq());
    let rest = s.skip(8);
    assert(rest =~= owner + infix_seq() + id);
    assert forall|j: int| 0 <= j < ol implies rest[j] != '/' by {
        assert(rest[j] == owner[j]);
        lemma_name_char_not_slash(owner[j]);
    }
    assert(rest[ol] == infix_seq()[0]);
    lemma_find_from_is(rest, '/', 0, ol);
    let k = find_from(rest, '/', 0);
    assert(rest.take(k) =~= owner);
    let after = rest.skip(k);
    assert(after =~= infix_seq() + id);
    assert(after.take(14) =~= infix_seq());
    let tail = after.skip(14);
    assert(tail =~= id);
    assert forall|j: int| 0 <= j < il implies tail[j] != '/' by {
        lemma_name_char_not_slash(id[j]);
    }
    lemma_find_from_is(tail, '/', 0, il);
    let j = find_from(tail, '/', 0);
    assert(tail.take(j) =~= id);
    assert(tail.skip(j) =~= Seq::<char>::empty());
}

/// Distinct valid pairs never share a canonical URL: encoding is
/// collision-free, since decoding inverts it.
pub proof fn lemma_encode_injective(o1: Seq<char>, i1: Seq<char>, o2: Seq<char>, i2: Seq<char>)
    requires
        valid_name(o1),
        valid_name(i1),
        valid_name(o2),
        valid_name(i2),
        encode_spec(o1, i1) == encode_spec(o2, i2),
    ensures
        o1 == o2,
        i1 == i2,
{
    lemma_round_trip(o1, i1);
    lemma_round_trip(o2, i2);
}

} // verus!
