//! Location of the registration calls inside the text of a registration
//! file, by indentation and by matching of nested delimiters.

use crate::config::PluginTypeConfig;
use crate::errors::BridgeError;
use crate::text::{
    chars_of, find, find_char, find_char_from, find_from, holds, join_lines, joined, lines,
    lines_of, matches_at, occurs_at, slice, string_of, strings_of, texts, trim, trim_start,
    trimmed, trimmed_start, views,
};
use crate::utils::{match_of, matching_delimiter};
use vstd::prelude::*;
use vstd::string::*;

verus! {

/// The state of the walk over the lines that follow a definition line.
pub struct BodyWalk {
    pub out: Seq<Seq<char>>,
    pub base: Option<int>,
    pub stopped: bool,
}

/// How many white-space characters a line starts with.
pub open spec fn indent_of(line: Seq<char>) -> int {
    line.len() - trim_start(line).len()
}

/// The walk after one more line: blank lines before the body are passed
/// over; the first line that is not blank sets the base indent; a later
/// line with less indent ends the body.
pub open spec fn walk_line(w: BodyWalk, line: Seq<char>) -> BodyWalk {
    let blank = trim(line).len() == 0;
    if w.stopped {
        w
    } else if w.out.len() == 0 && blank {
        w
    } else if blank {
        BodyWalk { out: w.out.push(line), ..w }
    } else {
        let base = match w.base {
            Some(b) => b,
            None => indent_of(line),
        };
        if indent_of(line) < base {
            BodyWalk { stopped: true, base: Some(base), ..w }
        } else {
            BodyWalk { out: w.out.push(line), base: Some(base), ..w }
        }
    }
}

/// The walk after the first `n` lines.
pub open spec fn walk_lines(ls: Seq<Seq<char>>, n: int) -> BodyWalk
    decreases n,
{
    if n <= 0 || n > ls.len() {
        BodyWalk { out: Seq::empty(), base: None, stopped: false }
    } else {
        walk_line(walk_lines(ls, n - 1), ls[n - 1])
    }
}

/// The body of the registration function in the text of a file: the lines
/// after the colon that ends `def register_plugin(...)`, up to the first
/// line with less indent than the body's first line. `None` where the file
/// defines no such function.
pub open spec fn register_body(content: Seq<char>) -> Option<Seq<char>> {
    match find_from(content, "def register_plugin("@, 0) {
        Some(start) => match find_char_from(content, ':', start) {
            Some(colon) => {
                let ls = lines_of(content.subrange(colon + 1, content.len() as int));
                let w = walk_lines(ls, ls.len() as int);
                Some(join_lines(w.out, w.out.len() as int))
            },
            None => None,
        },
        None => None,
    }
}

/// Extract the body of the registration function from the text of a file.
pub fn extract_register_plugin_function(content: &str) -> (r: Result<String, BridgeError>)
    ensures
        match register_body(content@) {
            Some(body) => r is Ok && r.unwrap()@ == body,
            None => r is Err && r.unwrap_err().is_not_found(),
        },
{
    let c = chars_of(content);
    let header = chars_of("def register_plugin(");
    let n: usize = c.len();
    let start = match find(c.as_slice(), header.as_slice(), 0) {
        Some(s) => s,
        None => {
            return Err(
                BridgeError::PluginNotFound(String::from_str("register_plugin() function")),
            );
        },
    };
    let colon = match find_char(c.as_slice(), ':', start) {
        Some(k) => k,
        None => {
            return Err(
                BridgeError::PluginNotFound(String::from_str("register_plugin() function")),
            );
        },
    };
    let rest = slice(c.as_slice(), colon + 1, n);
    let ls = lines(rest.as_slice());
    let mut out: Vec<Vec<char>> = Vec::new();
    let mut base: Option<usize> = None;
    let mut stopped = false;
    let mut i: usize = 0;
    assert(views(out@) =~= Seq::empty());
    while i < ls.len()
        invariant
            i <= ls@.len(),
            walk_lines(views(ls@), i as int) == (BodyWalk {
                out: views(out@),
                base: crate::text::opt_int(base),
                stopped,
            }),
        decreases ls@.len() - i,
    {
        let line = &ls[i];
        assert(views(ls@)[i as int] == line@);
        let blank = trimmed(line.as_slice()).len() == 0;
        if stopped {
        } else if out.len() == 0 && blank {
        } else if blank {
            let copy = slice(line.as_slice(), 0, line.len());
            assert(copy@ =~= line@);
            assert(views(out@.push(copy)) =~= views(out@).push(line@));
            out.push(copy);
        } else {
            let rest_len: usize = trimmed_start(line.as_slice()).len();
            proof {
                lemma_trim_start_shorter(line@);
            }
            let indent: usize = line.len() - rest_len;
            let b = match base {
                Some(b) => b,
                None => indent,
            };
            base = Some(b);
            if indent < b {
                stopped = true;
            } else {
                let copy = slice(line.as_slice(), 0, line.len());
                assert(copy@ =~= line@);
                assert(views(out@.push(copy)) =~= views(out@).push(line@));
                out.push(copy);
            }
        }
        i += 1;
    }
    let body = joined(&out);
    Ok(string_of(body.as_slice()))
}

/// Trimming does not lengthen a text.
pub proof fn lemma_trim_start_shorter(s: Seq<char>)
    ensures
        trim_start(s).len() <= s.len(),
    decreases s.len(),
{
    if s.len() > 0 && crate::text::is_space(s[0]) {
        lemma_trim_start_shorter(s.drop_first());
    }
}

/// The text between the brackets of the list assigned to `plugins=`.
pub open spec fn plugins_section(fc: Seq<char>) -> Option<Seq<char>> {
    match find_from(fc, "plugins="@, 0) {
        Some(p) => {
            let rest = trim_start(fc.subrange(p + 8, fc.len() as int));
            match match_of(rest, '[', ']', 0) {
                Some(e) => Some(rest.subrange(1, e)),
                None => None,
            }
        },
        None => None,
    }
}

/// The list `acc` with `x` added at its end, unless it holds `x` already.
pub open spec fn with_new(acc: Seq<Seq<char>>, x: Seq<char>) -> Seq<Seq<char>> {
    if acc.contains(x) {
        acc
    } else {
        acc.push(x)
    }
}

/// Whether one of the first `n` names stands in the text at position `p`.
pub open spec fn name_at(content: Seq<char>, names: Seq<Seq<char>>, p: int, n: int) -> bool
    decreases n,
{
    if n <= 0 || n > names.len() {
        false
    } else {
        name_at(content, names, p, n - 1) || occurs_at(content, names[n - 1], p)
    }
}

/// `acc` with the calls that start at or after `p`, in the order of their
/// place in the text: wherever a recognised constructor name stands, the
/// call runs from the name through the parenthesis that closes its
/// argument list; a call that is in the list already is not added again.
pub open spec fn calls_from(content: Seq<char>, names: Seq<Seq<char>>, p: int, acc: Seq<Seq<char>>)
    -> Seq<Seq<char>>
    decreases content.len() - p,
{
    if p < 0 || p >= content.len() {
        acc
    } else if name_at(content, names, p, names.len() as int) {
        match find_char_from(content, '(', p) {
            Some(q) => match match_of(content, '(', ')', q) {
                Some(e) => calls_from(
                    content,
                    names,
                    p + 1,
                    with_new(acc, content.subrange(p, e + 1)),
                ),
                None => calls_from(content, names, p + 1, acc),
            },
            None => calls_from(content, names, p + 1, acc),
        }
    } else {
        calls_from(content, names, p + 1, acc)
    }
}

/// The registration calls of a function body: the calls of the recognised
/// constructors inside the list assigned to `plugins=`, in the order in
/// which they start in the text, none twice.
pub open spec fn registration_calls(fc: Seq<char>) -> Seq<Seq<char>> {
    match plugins_section(fc) {
        Some(c) => calls_from(c, PluginTypeConfig::classes(), 0, Seq::empty()),
        None => Seq::empty(),
    }
}

/// Whether one of the names stands in the text at position `p`.
pub fn stands_at(content: &[char], names: &Vec<Vec<char>>, p: usize) -> (r: bool)
    ensures
        r == name_at(content@, views(names@), p as int, names@.len() as int),
{
    let mut k: usize = 0;
    while k < names.len()
        invariant
            k <= names@.len(),
            !name_at(content@, views(names@), p as int, k as int),
        decreases names@.len() - k,
    {
        assert(views(names@)[k as int] == names@[k as int]@);
        if matches_at(content, names[k].as_slice(), p) {
            proof {
                lemma_name_at_stays(content@, views(names@), p as int, k + 1, names@.len() as int);
            }
            return true;
        }
        k += 1;
    }
    false
}

/// A name found among the first `n` is found among more.
pub proof fn lemma_name_at_stays(content: Seq<char>, names: Seq<Seq<char>>, p: int, n: int, m: int)
    requires
        0 <= n <= m <= names.len(),
        name_at(content, names, p, n),
    ensures
        name_at(content, names, p, m),
    decreases m - n,
{
    if n < m {
        lemma_name_at_stays(content, names, p, n, m - 1);
    }
}

/// The recognised constructor names as texts.
pub fn class_names() -> (r: Vec<Vec<char>>)
    ensures
        views(r@) == PluginTypeConfig::classes(),
{
    let classes = PluginTypeConfig::plugin_classes();
    let mut out: Vec<Vec<char>> = Vec::new();
    let mut k: usize = 0;
    while k < classes.len()
        invariant
            k <= classes@.len(),
            classes@.len() == 4,
            classes@.map_values(|s: &'static str| s@) == PluginTypeConfig::classes(),
            out@.len() == k,
            forall|j: int| 0 <= j < k ==> out@[j]@ == PluginTypeConfig::classes()[j],
        decreases classes@.len() - k,
    {
        let kw = chars_of(classes[k]);
        assert(kw@ == PluginTypeConfig::classes()[k as int]) by {
            assert(classes@.map_values(|s: &'static str| s@)[k as int] == classes@[k as int]@);
        }
        out.push(kw);
        k += 1;
    }
    assert(views(out@) =~= PluginTypeConfig::classes());
    out
}

fn calls_in(content: &[char], names: &Vec<Vec<char>>) -> (out: Vec<Vec<char>>)
    ensures
        views(out@) == calls_from(content@, views(names@), 0, Seq::empty()),
{
    let n: usize = content.len();
    let mut out: Vec<Vec<char>> = Vec::new();
    let mut p: usize = 0;
    assert(views(out@) =~= Seq::empty());
    while p < n
        invariant
            p <= n,
            n == content@.len(),
            calls_from(content@, views(names@), 0, Seq::empty()) == calls_from(
                content@,
                views(names@),
                p as int,
                views(out@),
            ),
        decreases n - p,
    {
        if stands_at(content, names, p) {
            match find_char(content, '(', p) {
                Some(q) => {
                    match matching_delimiter(content, q, '(', ')') {
                        Some(e) => {
                            let def = slice(content, p, e + 1);
                            if !holds(&out, def.as_slice()) {
                                assert(views(out@.push(def)) =~= views(out@).push(def@));
                                out.push(def);
                            }
                        },
                        None => {},
                    }
                },
                None => {},
            }
        }
        p += 1;
    }
    out
}

/// Extract the registration calls from the list assigned to `plugins=`.
/// Finding none is an error, whether the list is absent or empty.
pub fn extract_plugins_list(func_content: &str) -> (r: Result<Vec<String>, BridgeError>)
    ensures
        match r {
            Ok(calls) => calls@.len() > 0 && texts(calls@) == registration_calls(func_content@),
            Err(e) => e.is_not_found() && registration_calls(func_content@).len() == 0,
        },
{
    let fc = chars_of(func_content);
    let marker = chars_of("plugins=");
    proof {
        reveal_strlit("plugins=");
        assert(marker@.len() == 8);
    }
    let mut out: Vec<Vec<char>> = Vec::new();
    assert(views(out@) =~= Seq::empty());
    let n: usize = fc.len();
    match find(fc.as_slice(), marker.as_slice(), 0) {
        Some(p) => {
            let rest = trimmed_start(slice(fc.as_slice(), p + 8, n).as_slice());
            match matching_delimiter(rest.as_slice(), 0, '[', ']') {
                Some(e) => {
                    let section = slice(rest.as_slice(), 1, e);
                    let names = class_names();
                    out = calls_in(section.as_slice(), &names);
                    assert(plugins_section(func_content@) == Some(section@));
                    assert(views(out@) == registration_calls(func_content@));
                },
                None => {},
            }
        },
        None => {},
    }
    if out.len() == 0 {
        return Err(
            BridgeError::PluginNotFound(
                String::from_str("No plugin definitions found in plugins array"),
            ),
        );
    }
    Ok(strings_of(&out))
}

} // verus!
