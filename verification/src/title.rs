//! Heuristic title extraction: a page's title is the first line of its
//! content that carries any non-blank character.

use crate::scan::find_from;
use crate::scan::lemma_find_from_is;
use crate::scan::lemma_find_from_props;
use vstd::prelude::*;
use vstd::string::StrSliceExecFns;
use vstd::string::StringExecFns;

verus! {

/// A character that does not count as content within a line.
pub open spec fn is_blank_char(c: char) -> bool {
    c == ' ' || c == '\t' || c == '\r'
}

/// Whether a line carries any non-blank character.
pub open spec fn line_has_content(l: Seq<char>) -> bool {
    exists|i: int| 0 <= i < l.len() && !is_blank_char(l[i])
}

/// The first line of `s` with content, if any line has one.
pub open spec fn title_of(s: Seq<char>) -> Option<Seq<char>>
    decreases s.len() via title_of_dec
{
    let e = find_from(s, '\n', 0);
    let line = s.take(e);
    if line_has_content(line) {
        Some(line)
    } else if e >= s.len() {
        None
    } else {
        title_of(s.skip(e + 1))
    }
}

#[via_fn]
proof fn title_of_dec(s: Seq<char>) {
    lemma_find_from_props(s, '\n', 0);
}

/// Scans `s` for the end of its first line, that is the first newline.
fn find_line_end(s: &str) -> (e: usize)
    ensures
        e == find_from(s@, '\n', 0),
        e <= s@.len(),
{
    let n = s.unicode_len();
    let mut i: usize = 0;
    while i < n
        invariant
            0 <= i <= n,
            n == s@.len(),
            forall|j: int| 0 <= j < i ==> s@[j] != '\n',
        decreases n - i,
    {
        if s.get_char(i) == '\n' {
            proof {
                lemma_find_from_is(s@, '\n', 0, i as int);
            }
            return i;
        }
        i = i + 1;
    }
    proof {
        lemma_find_from_is(s@, '\n', 0, n as int);
    }
    n
}

/// Whether the first `e` characters of `s` hold a non-blank character.
fn line_content_check(s: &str, e: usize) -> (r: bool)
    requires
        e <= s@.len(),
    ensures
        r == line_has_content(s@.take(e as int)),
{
    let mut i: usize = 0;
    while i < e
        invariant
            0 <= i <= e <= s@.len(),
            forall|j: int| 0 <= j < i ==> is_blank_char(s@[j]),
        decreases e - i,
    {
        let c = s.get_char(i);
        if !(c == ' ' || c == '\t' || c == '\r') {
            proof {
                assert(s@.take(e as int)[i as int] == s@[i as int]);
            }
            return true;
        }
        i = i + 1;
    }
    proof {
        assert forall|j: int| 0 <= j < e implies is_blank_char(s@.take(e as int)[j]) by {
            assert(s@.take(e as int)[j] == s@[j]);
        }
    }
    false
}

/// Returns the first line of `content` that carries a non-blank character,
/// or `None` when every line is blank.
pub fn extract_title(content: &str) -> (r: Option<String>)
    ensures
        match r {
            Some(t) => title_of(content@) == Some(t@),
            None => title_of(content@) is None,
        },
    decreases content@.len(),
{
    let n = content.unicode_len();
    let e = find_line_end(content);
    if line_content_check(content, e) {
        let line = content.substring_char(0, e);
        proof {
            assert(line@ =~= content@.take(e as int));
        }
        Some(line.to_owned())
    } else if e == n {
        None
    } else {
        let rest = content.substring_char(e + 1, n);
        proof {
            assert(rest@ =~= content@.skip(e as int + 1));
        }
        extract_title(rest)
    }
}

} // verus!
