//! Extraction of the parameters of a class's constructor from the text of
//! the file that defines the class.

use crate::errors::BridgeError;
use crate::records::{
    parameters_view, sources_view, Parameter, ParameterMetadata, ParameterModel, SourceFile,
};
use crate::text::{
    chars_of, find, find_char, find_char_from, find_from, find_last_char, rfind_char, slice,
    string_of, trim, trimmed, views,
};
use crate::utils::{match_of, matching_delimiter};
use vstd::prelude::*;
use vstd::string::*;

verus! {

/// The state of a cut of a text at its top-level separators.
pub struct Cut {
    pub pieces: Seq<Seq<char>>,
    pub cur: Seq<char>,
    pub depth: int,
    pub in_string: bool,
    pub quote: char,
}

/// An opening delimiter.
pub open spec fn opens(c: char) -> bool {
    c == '(' || c == '[' || c == '{'
}

/// A closing delimiter.
pub open spec fn closes(c: char) -> bool {
    c == ')' || c == ']' || c == '}'
}

/// The cut after one more character: a separator outside every bracket
/// and outside every quoted string ends a piece.
pub open spec fn cut_step(st: Cut, c: char, sep: char) -> Cut {
    if st.in_string {
        let escaped = st.cur.len() > 0 && st.cur.last() == '\\';
        Cut { cur: st.cur.push(c), in_string: !(c == st.quote && !escaped), ..st }
    } else if c == '"' || c == '\'' {
        Cut { cur: st.cur.push(c), in_string: true, quote: c, ..st }
    } else if opens(c) {
        Cut { cur: st.cur.push(c), depth: st.depth + 1, ..st }
    } else if closes(c) {
        Cut { cur: st.cur.push(c), depth: st.depth - 1, ..st }
    } else if c == sep && st.depth == 0 {
        Cut { pieces: st.pieces.push(st.cur), cur: Seq::empty(), ..st }
    } else {
        Cut { cur: st.cur.push(c), ..st }
    }
}

/// The cut after the first `n` characters.
pub open spec fn cut_prefix(s: Seq<char>, sep: char, n: int) -> Cut
    decreases n,
{
    if n <= 0 || n > s.len() {
        Cut { pieces: Seq::empty(), cur: Seq::empty(), depth: 0, in_string: false, quote: ' ' }
    } else {
        cut_step(cut_prefix(s, sep, n - 1), s[n - 1], sep)
    }
}

/// The pieces of `s` between its top-level separators.
pub open spec fn split_top(s: Seq<char>, sep: char) -> Seq<Seq<char>> {
    let end = cut_prefix(s, sep, s.len() as int);
    end.pieces.push(end.cur)
}

/// Cuts a text at the separators that stand outside every bracket and
/// outside every quoted string.
pub fn split_top_level(s: &[char], sep: char) -> (r: Vec<Vec<char>>)
    ensures
        views(r@) == split_top(s@, sep),
        r@.len() >= 1,
{
    let mut pieces: Vec<Vec<char>> = Vec::new();
    let mut cur: Vec<char> = Vec::new();
    let mut depth: i128 = 0;
    let mut in_string = false;
    let mut quote = ' ';
    let mut i: usize = 0;
    assert(views(pieces@) =~= Seq::empty());
    while i < s.len()
        invariant
            i <= s@.len(),
            -(i as int) <= depth <= i,
            cut_prefix(s@, sep, i as int) == (Cut {
                pieces: views(pieces@),
                cur: cur@,
                depth: depth as int,
                in_string,
                quote,
            }),
        decreases s@.len() - i,
    {
        let c = s[i];
        if in_string {
            let escaped = cur.len() > 0 && cur[cur.len() - 1] == '\\';
            cur.push(c);
            if c == quote && !escaped {
                in_string = false;
            }
        } else if c == '"' || c == '\'' {
            in_string = true;
            quote = c;
            cur.push(c);
        } else if c == '(' || c == '[' || c == '{' {
            depth = depth + 1;
            cur.push(c);
        } else if c == ')' || c == ']' || c == '}' {
            depth = depth - 1;
            cur.push(c);
        } else if c == sep && depth == 0 {
            assert(views(pieces@.push(cur)) =~= views(pieces@).push(cur@));
            pieces.push(cur);
            cur = Vec::new();
        } else {
            cur.push(c);
        }
        i += 1;
    }
    assert(views(pieces@.push(cur)) =~= views(pieces@).push(cur@));
    pieces.push(cur);
    pieces
}

/// The parameter that a token of a signature declares: a token without an
/// annotation colon declares none. What stands before the colon is the
/// name; what follows is the annotation, up to a top-level `=`, and after
/// it the default. A parameter with a default is not required.
pub open spec fn parameter_of(token: Seq<char>) -> Option<(Seq<char>, ParameterModel)> {
    let t = trim(token);
    match find_char_from(t, ':', 0) {
        Some(colon) => {
            let rest = trim(t.subrange(colon + 1, t.len() as int));
            let parts = split_top(rest, '=');
            let annotation = trim(parts[0]);
            let has_default = parts.len() > 1;
            Some(
                (
                    trim(t.subrange(0, colon)),
                    ParameterModel {
                        annotation: if annotation.len() > 0 {
                            Some(annotation)
                        } else {
                            None
                        },
                        default: if has_default {
                            Some(trim(rest.subrange(parts[0].len() as int + 1, rest.len() as int)))
                        } else {
                            None
                        },
                        is_required: !has_default,
                    },
                ),
            )
        },
        None => None,
    }
}

/// Whether one of the parameters has the given name.
pub open spec fn has_parameter(ps: Seq<(Seq<char>, ParameterModel)>, name: Seq<char>) -> bool {
    exists|i: int| 0 <= i < ps.len() && (#[trigger] ps[i]).0 == name
}

/// The parameters that the first `n` tokens declare; of two with one name
/// the first stays.
pub open spec fn parameters_of(tokens: Seq<Seq<char>>, n: int) -> Seq<(Seq<char>, ParameterModel)>
    decreases n,
{
    if n <= 0 || n > tokens.len() {
        Seq::empty()
    } else {
        let prev = parameters_of(tokens, n - 1);
        match parameter_of(tokens[n - 1]) {
            Some(p) => if has_parameter(prev, p.0) {
                prev
            } else {
                prev.push(p)
            },
            None => prev,
        }
    }
}

/// The parameters of a signature, given the text between its parentheses.
pub open spec fn signature_parameters(span: Seq<char>) -> Seq<(Seq<char>, ParameterModel)> {
    parameters_of(split_top(span, ','), split_top(span, ',').len() as int)
}

/// The text between the parentheses of the constructor of a class: the
/// first `def __init__` after the first `class NAME`, from its opening
/// parenthesis to the one that closes it.
pub open spec fn init_span(content: Seq<char>, class_name: Seq<char>) -> Option<Seq<char>> {
    match find_from(content, "class "@ + class_name, 0) {
        Some(c) => match find_from(content, "def __init__"@, c) {
            Some(d) => match find_char_from(content, '(', d) {
                Some(o) => match match_of(content, '(', ')', o) {
                    Some(e) => Some(content.subrange(o + 1, e)),
                    None => None,
                },
                None => None,
            },
            None => None,
        },
        None => None,
    }
}

/// The parameters of the constructor of a class; none where the class or
/// its constructor is not found.
pub open spec fn init_parameters(content: Seq<char>, class_name: Seq<char>) -> Seq<
    (Seq<char>, ParameterModel),
> {
    match init_span(content, class_name) {
        Some(span) => signature_parameters(span),
        None => Seq::empty(),
    }
}

fn parameter_from(token: &[char]) -> (r: Option<Parameter>)
    ensures
        match r {
            Some(p) => parameter_of(token@) == Some(p@),
            None => parameter_of(token@) is None,
        },
{
    let t = trimmed(token);
    let n: usize = t.len();
    match find_char(t.as_slice(), ':', 0) {
        Some(colon) => {
            let name = trimmed(slice(t.as_slice(), 0, colon).as_slice());
            let rest = trimmed(slice(t.as_slice(), colon + 1, n).as_slice());
            let parts = split_top_level(rest.as_slice(), '=');
            let annotation = trimmed(parts[0].as_slice());
            let has_default = parts.len() > 1;
            assert(views(parts@)[0] == parts@[0]@);
            let default = if has_default {
                proof {
                    lemma_first_piece_short(rest@, '=');
                }
                let m: usize = rest.len();
                let from: usize = parts[0].len();
                Some(string_of(trimmed(slice(rest.as_slice(), from + 1, m).as_slice()).as_slice()))
            } else {
                None
            };
            let p = Parameter {
                name: string_of(name.as_slice()),
                meta: ParameterMetadata {
                    annotation: if annotation.len() > 0 {
                        Some(string_of(annotation.as_slice()))
                    } else {
                        None
                    },
                    default,
                    is_required: !has_default,
                },
            };
            Some(p)
        },
        None => None,
    }
}

/// Where a cut has more than one piece, the first piece ends before the
/// end of the text.
pub proof fn lemma_first_piece_short(s: Seq<char>, sep: char)
    requires
        split_top(s, sep).len() > 1,
    ensures
        split_top(s, sep)[0].len() < s.len(),
{
    lemma_cut_lengths(s, sep, s.len() as int);
}

/// The pieces of a cut and the piece under way are, separators included,
/// as long as the text read; each character read is in one of them.
pub proof fn lemma_cut_lengths(s: Seq<char>, sep: char, n: int)
    requires
        0 <= n <= s.len(),
    ensures
        cut_prefix(s, sep, n).pieces.len() == 0 ==> cut_prefix(s, sep, n).cur.len() == n,
        cut_prefix(s, sep, n).pieces.len() > 0 ==> cut_prefix(s, sep, n).pieces[0].len() < n,
    decreases n,
{
    if n > 0 {
        lemma_cut_lengths(s, sep, n - 1);
    }
}

fn names(ps: &Vec<Parameter>, name: &String) -> (r: bool)
    ensures
        r == has_parameter(parameters_view(ps@), name@),
{
    let mut i: usize = 0;
    while i < ps.len()
        invariant
            i <= ps@.len(),
            forall|j: int| 0 <= j < i ==> parameters_view(ps@)[j].0 != name@,
        decreases ps@.len() - i,
    {
        if ps[i].name == *name {
            assert(parameters_view(ps@)[i as int].0 == name@);
            return true;
        }
        i += 1;
    }
    false
}

fn parameters_in(span: &[char]) -> (r: Vec<Parameter>)
    ensures
        parameters_view(r@) == signature_parameters(span@),
{
    let tokens = split_top_level(span, ',');
    let mut out: Vec<Parameter> = Vec::new();
    let mut i: usize = 0;
    assert(parameters_view(out@) =~= Seq::empty());
    while i < tokens.len()
        invariant
            i <= tokens@.len(),
            parameters_view(out@) == parameters_of(views(tokens@), i as int),
        decreases tokens@.len() - i,
    {
        assert(views(tokens@)[i as int] == tokens@[i as int]@);
        match parameter_from(tokens[i].as_slice()) {
            Some(p) => {
                if !names(&out, &p.name) {
                    assert(parameters_view(out@.push(p)) =~= parameters_view(out@).push(p@));
                    out.push(p);
                }
            },
            None => {},
        }
        i += 1;
    }
    out
}

/// Extract the parameters of the constructor of a class from the text of
/// the file that defines it. A class or a constructor that is not found
/// has no parameters: that is no error.
pub fn extract_init_parameters(file_content: &str, class_name: &str) -> (r: Result<
    Vec<Parameter>,
    BridgeError,
>)
    ensures
        r is Ok,
        parameters_view(r.unwrap()@) == init_parameters(file_content@, class_name@),
{
    let content = chars_of(file_content);
    let mut pat = chars_of("class ");
    let mut name = chars_of(class_name);
    pat.append(&mut name);
    assert(pat@ == "class "@ + class_name@);
    let init = chars_of("def __init__");
    let c = match find(content.as_slice(), pat.as_slice(), 0) {
        Some(c) => c,
        None => {
            let r: Vec<Parameter> = Vec::new();
            assert(parameters_view(r@) =~= Seq::empty());
            return Ok(r);
        },
    };
    let d = match find(content.as_slice(), init.as_slice(), c) {
        Some(d) => d,
        None => {
            let r: Vec<Parameter> = Vec::new();
            assert(parameters_view(r@) =~= Seq::empty());
            return Ok(r);
        },
    };
    let o = match find_char(content.as_slice(), '(', d) {
        Some(o) => o,
        None => {
            let r: Vec<Parameter> = Vec::new();
            assert(parameters_view(r@) =~= Seq::empty());
            return Ok(r);
        },
    };
    let e = match matching_delimiter(content.as_slice(), o, '(', ')') {
        Some(e) => e,
        None => {
            let r: Vec<Parameter> = Vec::new();
            assert(parameters_view(r@) =~= Seq::empty());
            return Ok(r);
        },
    };
    let span = slice(content.as_slice(), o + 1, e);
    Ok(parameters_in(span.as_slice()))
}

/// Parse the signature of a class's constructor in the text of a file.
pub fn parse_function_signature(file_content: &str, name: &str) -> (r: Result<
    Vec<Parameter>,
    BridgeError,
>)
    ensures
        r is Ok,
        parameters_view(r.unwrap()@) == init_parameters(file_content@, name@),
{
    extract_init_parameters(file_content, name)
}

/// The name of the file that defines a module: the last segment of the
/// module path, with the extension of source files.
pub open spec fn module_file(module: Seq<char>) -> Seq<char> {
    match rfind_char(module, '.') {
        Some(i) => module.subrange(i + 1, module.len() as int) + ".py"@,
        None => module + ".py"@,
    }
}

/// The name of the file that defines a module.
pub fn module_file_name(module: &str) -> (r: String)
    ensures
        r@ == module_file(module@),
{
    let m = chars_of(module);
    let n: usize = m.len();
    let last = match find_last_char(m.as_slice(), '.') {
        Some(i) => slice(m.as_slice(), i + 1, n),
        None => {
            let all = slice(m.as_slice(), 0, n);
            assert(m@.subrange(0, n as int) =~= m@);
            all
        },
    };
    string_of(last.as_slice()).concat(".py")
}

/// The place of the first file of the given name among the first `n`.
pub open spec fn first_named(files: Seq<(Seq<char>, Seq<char>)>, name: Seq<char>, n: int) -> Option<
    int,
>
    decreases n,
{
    if n <= 0 || n > files.len() {
        None
    } else {
        match first_named(files, name, n - 1) {
            Some(i) => Some(i),
            None => if files[n - 1].0 == name {
                Some(n - 1)
            } else {
                None
            },
        }
    }
}

/// Find the text of a source file by its name; of several the first
/// counts.
pub fn find_and_read_python_file<'a>(sources: &'a Vec<SourceFile>, file_name: &str) -> (r: Result<
    &'a str,
    BridgeError,
>)
    ensures
        match first_named(sources_view(sources@), file_name@, sources@.len() as int) {
            Some(i) => r is Ok && 0 <= i < sources@.len() && r.unwrap()@ == sources@[i].content@,
            None => r is Err && r.unwrap_err().is_not_found(),
        },
{
    let want = String::from_str(file_name);
    let ghost files = sources_view(sources@);
    let mut i: usize = 0;
    while i < sources.len()
        invariant
            i <= sources@.len(),
            files == sources_view(sources@),
            want@ == file_name@,
            first_named(files, file_name@, i as int) is None,
        decreases sources@.len() - i,
    {
        assert(files[i as int] == (sources@[i as int].name@, sources@[i as int].content@));
        if sources[i].name == want {
            assert(first_named(files, file_name@, i + 1) == Some(i as int));
            proof {
                lemma_first_named_stays(files, file_name@, i + 1, sources@.len() as int);
            }
            return Ok(sources[i].content.as_str());
        }
        i += 1;
    }
    Err(BridgeError::PluginNotFound(want))
}

/// A file found among the first `n` is the one found among more.
pub proof fn lemma_first_named_stays(
    files: Seq<(Seq<char>, Seq<char>)>,
    name: Seq<char>,
    n: int,
    m: int,
)
    requires
        0 <= n <= m <= files.len(),
        first_named(files, name, n) is Some,
    ensures
        first_named(files, name, m) == first_named(files, name, n),
    decreases m - n,
{
    if n < m {
        lemma_first_named_stays(files, name, n, m - 1);
    }
}

/// The parameters of a callable: those of the constructor of the class
/// `name` in the first source file named after the module; none where
/// there is no such file.
pub open spec fn callable_parameters(
    module: Seq<char>,
    name: Seq<char>,
    files: Seq<(Seq<char>, Seq<char>)>,
) -> Seq<(Seq<char>, ParameterModel)> {
    match first_named(files, module_file(module), files.len() as int) {
        Some(i) => init_parameters(files[i].1, name),
        None => Seq::empty(),
    }
}

/// Extract the parameters of a class from the sources of a package.
/// Finding nothing is no error.
pub fn extract_callable_parameters(module: &str, name: &str, sources: &Vec<SourceFile>) -> (r:
    Result<Vec<Parameter>, BridgeError>)
    ensures
        r is Ok,
        parameters_view(r.unwrap()@) == callable_parameters(
            module@,
            name@,
            sources_view(sources@),
        ),
{
    let file_name = module_file_name(module);
    match find_and_read_python_file(sources, file_name.as_str()) {
        Ok(content) => {
            let ghost i = first_named(
                sources_view(sources@),
                file_name@,
                sources@.len() as int,
            ).unwrap();
            assert(sources_view(sources@)[i].1 == sources@[i].content@);
            parse_function_signature(content, name)
        },
        Err(_) => {
            let r: Vec<Parameter> = Vec::new();
            assert(parameters_view(r@) =~= Seq::empty());
            Ok(r)
        },
    }
}

} // verus!
