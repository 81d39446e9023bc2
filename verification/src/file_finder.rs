//! Location of the registration file of an installed package: the names
//! it may have, and the entry in the registration index that points to it.

use crate::text::{
    chars_of, find_char, find_char_from, is_text, lines, lines_of, slice, string_of, trim, trimmed,
    views,
};
use vstd::prelude::*;
use vstd::string::*;

verus! {

/// The file names under which a registration file is looked for, in the
/// order in which they are tried.
pub fn candidate_file_names() -> (r: Vec<&'static str>)
    ensures
        r@.len() == 2,
        r@[0]@ == "plugins.py"@,
        r@[1]@ == "plugin.py"@,
{
    vec!["plugins.py", "plugin.py"]
}

/// A text with every `from` replaced by `to`.
pub open spec fn replaced(s: Seq<char>, from: char, to: char) -> Seq<char> {
    Seq::new(
        s.len(),
        |i: int|
            if s[i] == from {
                to
            } else {
                s[i]
            },
    )
}

/// Replaces every `from` by `to`.
pub fn replace_char(s: &[char], from: char, to: char) -> (r: Vec<char>)
    ensures
        r@ == replaced(s@, from, to),
{
    let mut r: Vec<char> = Vec::new();
    let mut i: usize = 0;
    while i < s.len()
        invariant
            i <= s@.len(),
            r@.len() == i,
            forall|j: int| 0 <= j < i ==> r@[j] == replaced(s@, from, to)[j],
        decreases s@.len() - i,
    {
        if s[i] == from {
            r.push(to);
        } else {
            r.push(s[i]);
        }
        i += 1;
    }
    assert(r@ =~= replaced(s@, from, to));
    r
}

/// The name of the directory that holds the metadata of an installed
/// package: the package name with underscores for hyphens, a hyphen, the
/// version (or `0.0.0`), and `.dist-info`.
pub fn dist_info_name(package_name_full: &str, package_version: Option<&str>) -> (r: String)
    ensures
        r@ == replaced(package_name_full@, '-', '_') + "-"@ + (match package_version {
            Some(v) => v@,
            None => "0.0.0"@,
        }) + ".dist-info"@,
{
    let name = chars_of(package_name_full);
    let normalized = string_of(replace_char(name.as_slice(), '-', '_').as_slice());
    let version = match package_version {
        Some(v) => v,
        None => "0.0.0",
    };
    normalized.concat("-").concat(version).concat(".dist-info")
}

/// The path of the file of a module below the directory of packages: the
/// module path with slashes for dots, and the extension of source files.
pub fn module_to_path(dotted: &str) -> (r: String)
    ensures
        r@ == replaced(dotted@, '.', '/') + ".py"@,
{
    let m = chars_of(dotted);
    string_of(replace_char(m.as_slice(), '.', '/').as_slice()).concat(".py")
}

/// The module that an entry `name = module.path:function` names.
pub open spec fn entry_module(t: Seq<char>) -> Option<Seq<char>> {
    match find_char_from(t, '=', 0) {
        Some(e) => {
            let v = trim(t.subrange(e + 1, t.len() as int));
            match find_char_from(v, ':', 0) {
                Some(c) => Some(trim(v.subrange(0, c))),
                None => None,
            }
        },
        None => None,
    }
}

/// The state of the walk over the lines of a registration index.
pub struct IndexWalk {
    pub in_section: bool,
    pub stopped: bool,
    pub found: Option<Seq<char>>,
}

/// The walk after one more line: the section `[r2x_plugin]` is entered at
/// its header and left at the next header; inside it, the first entry
/// that names a module decides. Empty lines and comments are passed over.
pub open spec fn index_line(w: IndexWalk, raw: Seq<char>) -> IndexWalk {
    let t = trim(raw);
    if w.stopped || w.found is Some {
        w
    } else if t == "[r2x_plugin]"@ {
        IndexWalk { in_section: true, ..w }
    } else if !w.in_section {
        w
    } else if t.len() > 0 && t[0] == '[' {
        IndexWalk { stopped: true, ..w }
    } else if t.len() > 0 && t[0] != '#' {
        IndexWalk { found: entry_module(t), ..w }
    } else {
        w
    }
}

/// The walk after the first `n` lines.
pub open spec fn index_lines(ls: Seq<Seq<char>>, n: int) -> IndexWalk
    decreases n,
{
    if n <= 0 || n > ls.len() {
        IndexWalk { in_section: false, stopped: false, found: None }
    } else {
        index_line(index_lines(ls, n - 1), ls[n - 1])
    }
}

/// The module that the registration index names for this ecosystem.
pub open spec fn indexed_module(content: Seq<char>) -> Option<Seq<char>> {
    index_lines(lines_of(content), lines_of(content).len() as int).found
}

/// Parse a registration index and extract the module path of the plugin
/// entry.
pub fn parse_entry_points(content: &str) -> (r: Option<String>)
    ensures
        crate::records::opt_text(r) == indexed_module(content@),
{
    let c = chars_of(content);
    let ls = lines(c.as_slice());
    let mut in_section = false;
    let mut stopped = false;
    let mut found: Option<String> = None;
    let mut i: usize = 0;
    while i < ls.len()
        invariant
            i <= ls@.len(),
            index_lines(views(ls@), i as int) == (IndexWalk {
                in_section,
                stopped,
                found: crate::records::opt_text(found),
            }),
        decreases ls@.len() - i,
    {
        assert(views(ls@)[i as int] == ls@[i as int]@);
        let t = trimmed(ls[i].as_slice());
        let n: usize = t.len();
        if stopped || found.is_some() {
        } else if is_text(t.as_slice(), "[r2x_plugin]") {
            in_section = true;
        } else if !in_section {
        } else if n > 0 && t[0] == '[' {
            stopped = true;
        } else if n > 0 && t[0] != '#' {
            match find_char(t.as_slice(), '=', 0) {
                Some(e) => {
                    let v = trimmed(slice(t.as_slice(), e + 1, n).as_slice());
                    match find_char(v.as_slice(), ':', 0) {
                        Some(k) => {
                            found = Some(
                                string_of(trimmed(slice(v.as_slice(), 0, k).as_slice()).as_slice()),
                            );
                        },
                        None => {},
                    }
                },
                None => {},
            }
        }
        i += 1;
    }
    found
}

} // verus!
