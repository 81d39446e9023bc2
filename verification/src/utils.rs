//! Shared helpers for plugin discovery: a naming heuristic and the
//! matching of nested delimiters.

use crate::text::{
    begins_with, chars_of, contains, find_last_char, includes, is_text, opt_int, rfind_char, slice,
    starts_with, string_of,
};
use vstd::prelude::*;

verus! {

/// What one character adds to the nesting depth.
pub open spec fn weight(c: char, open: char, close: char) -> int {
    if c == open {
        1
    } else if c == close {
        -1
    } else {
        0
    }
}

/// The nesting depth that the characters of `s` from `a` up to `b` add up to.
pub open spec fn balance(s: Seq<char>, open: char, close: char, a: int, b: int) -> int
    decreases b - a,
{
    if b <= a || b > s.len() || a < 0 {
        0
    } else {
        balance(s, open, close, a, b - 1) + weight(s[b - 1], open, close)
    }
}

/// The depth opened at `start` is back at zero right after position `i`.
pub open spec fn closes_at(s: Seq<char>, open: char, close: char, start: int, i: int) -> bool {
    start <= i < s.len() && balance(s, open, close, start, i + 1) == 0
}

/// The position of the delimiter that closes the one at `start`, if any:
/// the first position at which the depth opened at `start` is back at zero.
pub open spec fn matching_close(s: Seq<char>, open: char, close: char, start: int, r: Option<
    int,
>) -> bool {
    match r {
        Some(i) => {
            &&& 0 <= start < s.len()
            &&& s[start] == open
            &&& closes_at(s, open, close, start, i)
            &&& forall|j: int| start <= j < i ==> !closes_at(s, open, close, start, j)
        },
        None => {
            ||| start < 0
            ||| start >= s.len()
            ||| s[start] != open
            ||| forall|j: int| start <= j < s.len() ==> !closes_at(s, open, close, start, j)
        },
    }
}

/// The first position at or after `i` at which the depth opened at
/// `start` is back at zero.
pub open spec fn first_close(s: Seq<char>, open: char, close: char, start: int, i: int) -> Option<
    int,
>
    decreases s.len() - i,
{
    if i < start || i >= s.len() {
        None
    } else if closes_at(s, open, close, start, i) {
        Some(i)
    } else {
        first_close(s, open, close, start, i + 1)
    }
}

/// The position of the delimiter that closes the one at `start`.
pub open spec fn match_of(s: Seq<char>, open: char, close: char, start: int) -> Option<int> {
    if 0 <= start < s.len() && s[start] == open {
        first_close(s, open, close, start, start)
    } else {
        None
    }
}

/// A dependency name that looks like a plugin of this ecosystem.
pub open spec fn plugin_like(dep: Seq<char>) -> bool {
    starts_with(dep, "r2x-"@) || dep == "r2x"@ || contains(dep, "plugin"@)
}

/// Check if a dependency looks like an r2x plugin.
pub fn looks_like_r2x_plugin(dep: &str) -> (r: bool)
    ensures
        r == plugin_like(dep@),
{
    let d = chars_of(dep);
    let prefix = chars_of("r2x-");
    let word = chars_of("plugin");
    begins_with(d.as_slice(), prefix.as_slice()) || is_text(d.as_slice(), "r2x") || includes(
        d.as_slice(),
        word.as_slice(),
    )
}

/// Delimiter matching on a text held as characters.
pub fn matching_delimiter(s: &[char], start: usize, open: char, close: char) -> (r: Option<usize>)
    ensures
        matching_close(s@, open, close, start as int, opt_int(r)),
        opt_int(r) == match_of(s@, open, close, start as int),
        r is Some ==> start < r.unwrap() < s@.len() && s@[r.unwrap() as int] == close,
{
    if start >= s.len() {
        return None;
    }
    if s[start] != open {
        return None;
    }
    let mut count: usize = 0;
    let mut i: usize = start;
    while i < s.len()
        invariant
            start <= i <= s.len(),
            s@[start as int] == open,
            count as int == balance(s@, open, close, start as int, i as int),
            i > start ==> count >= 1,
            count <= i - start,
            forall|j: int| start <= j < i ==> !closes_at(s@, open, close, start as int, j),
            match_of(s@, open, close, start as int) == first_close(
                s@,
                open,
                close,
                start as int,
                i as int,
            ),
        decreases s.len() - i,
    {
        let ch = s[i];
        assert(balance(s@, open, close, start as int, i + 1) == balance(
            s@,
            open,
            close,
            start as int,
            i as int,
        ) + weight(ch, open, close));
        if ch == open {
            count += 1;
        } else if ch == close {
            count -= 1;
            if count == 0 {
                return Some(i);
            }
        }
        i += 1;
    }
    None
}

/// Find the matching closing delimiter for an opening delimiter at `start`.
pub fn find_matching_delimiter(content: &str, start: usize, open: char, close: char) -> (r:
    Option<usize>)
    ensures
        matching_close(content@, open, close, start as int, opt_int(r)),
{
    let s = chars_of(content);
    matching_delimiter(s.as_slice(), start, open, close)
}

/// Find the matching closing parenthesis for an opening parenthesis at `start`.
pub fn find_matching_paren(content: &str, start: usize) -> (r: Option<usize>)
    ensures
        matching_close(content@, '(', ')', start as int, opt_int(r)),
{
    find_matching_delimiter(content, start, '(', ')')
}

/// Find the matching closing bracket for an opening bracket at `start`.
pub fn find_matching_bracket(content: &str, start: usize) -> (r: Option<usize>)
    ensures
        matching_close(content@, '[', ']', start as int, opt_int(r)),
{
    find_matching_delimiter(content, start, '[', ']')
}

/// The two parts of a qualified target: what stands before and after the
/// last colon, or else the last dot; `None` where it has neither.
pub open spec fn qualified_parts(target: Seq<char>) -> Option<(Seq<char>, Seq<char>)> {
    match rfind_char(target, ':') {
        Some(i) => Some((target.subrange(0, i), target.subrange(i + 1, target.len() as int))),
        None => match rfind_char(target, '.') {
            Some(i) => Some((target.subrange(0, i), target.subrange(i + 1, target.len() as int))),
            None => None,
        },
    }
}

/// Splits `module:name` or `module.name` into module and name.
pub fn split_qualified_target(target: &str) -> (r: Option<(String, String)>)
    ensures
        match r {
            Some(parts) => qualified_parts(target@) == Some((parts.0@, parts.1@)),
            None => qualified_parts(target@) is None,
        },
{
    let t = chars_of(target);
    let n: usize = t.len();
    let at = match find_last_char(t.as_slice(), ':') {
        Some(i) => Some(i),
        None => find_last_char(t.as_slice(), '.'),
    };
    match at {
        Some(i) => Some(
            (
                string_of(slice(t.as_slice(), 0, i).as_slice()),
                string_of(slice(t.as_slice(), i + 1, n).as_slice()),
            ),
        ),
        None => None,
    }
}

} // verus!
