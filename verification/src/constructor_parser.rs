//! Parsing of one registration call: its keyword arguments are cut apart
//! by a depth-aware scan, and each value is classified.

use crate::decorator_processor::{extract_decorator_based_attribute, package_steps};
use crate::errors::{BridgeError, ErrorKind};
use crate::import_resolver::{ImportMap, SymbolMap};
use crate::records::{
    copy_value, opt_text, opt_value, parameters_view, reference_to, sources_view,
    CallableMetadata, CallableModel, KwargValue, PluginKind, PluginModel, PluginRecord, SourceFile,
    ValueModel,
};
use crate::text::{
    chars_of, contains_char, ends_with, find_char, find_char_from, find_last_char,
    finishes_with, includes_char, is_quoted, is_text, rfind_char, slice, string_of, trim, trimmed,
    unquote, unquoted, upper_case,
};
use vstd::prelude::*;
use vstd::string::*;

verus! {

/// One keyword argument as written: the key and the text of its value.
#[derive(Debug, Clone)]
pub struct RawKeyValue {
    pub key: String,
    pub value: String,
}

impl View for RawKeyValue {
    type V = (Seq<char>, Seq<char>);

    open spec fn view(&self) -> (Seq<char>, Seq<char>) {
        (self.key@, self.value@)
    }
}

/// The views of a vector of raw pairs, in order.
pub open spec fn raw_view(v: Seq<RawKeyValue>) -> Seq<(Seq<char>, Seq<char>)> {
    v.map_values(|p: RawKeyValue| p@)
}

/// The state of the scan over an argument list.
pub struct Scan {
    pub key: Seq<char>,
    pub value: Seq<char>,
    pub in_key: bool,
    pub paren: int,
    pub bracket: int,
    pub brace: int,
    pub in_string: bool,
    pub quote: char,
    pub pairs: Seq<(Seq<char>, Seq<char>)>,
    pub done: bool,
}

/// The state before the first character: waiting for a key.
pub open spec fn scan_start() -> Scan {
    Scan {
        key: Seq::empty(),
        value: Seq::empty(),
        in_key: true,
        paren: 0,
        bracket: 0,
        brace: 0,
        in_string: false,
        quote: ' ',
        pairs: Seq::empty(),
        done: false,
    }
}

/// White space that is skipped before a key.
pub open spec fn is_blank(c: char) -> bool {
    c == ' ' || c == '\t' || c == '\n' || c == '\r'
}

/// A key without its qualifying prefix: what follows the last colon.
pub open spec fn clean_key(key: Seq<char>) -> Seq<char> {
    match rfind_char(key, ':') {
        Some(i) if 0 <= i < key.len() => trim(key.subrange(i + 1, key.len() as int)),
        _ => key,
    }
}

/// The pairs after the pair under way has ended: it is kept if both its
/// key and its value hold something.
pub open spec fn with_pair(st: Scan) -> Seq<(Seq<char>, Seq<char>)> {
    if st.key.len() > 0 && st.value.len() > 0 {
        st.pairs.push((clean_key(st.key), st.value))
    } else {
        st.pairs
    }
}

/// The state after one more character.
pub open spec fn scan_step(st: Scan, c: char) -> Scan {
    if st.done {
        st
    } else if st.in_key && is_blank(c) && st.key.len() == 0 {
        st
    } else if st.in_string {
        let escaped = st.value.len() > 0 && st.value.last() == '\\';
        Scan { value: st.value.push(c), in_string: !(c == st.quote && !escaped), ..st }
    } else if c == '"' || c == '\'' {
        Scan { value: st.value.push(c), in_string: true, quote: c, ..st }
    } else if c == '=' && st.in_key {
        Scan { key: trim(st.key), in_key: false, ..st }
    } else if c == '(' {
        Scan { value: st.value.push(c), paren: st.paren + 1, ..st }
    } else if c == ')' && st.paren > 0 {
        Scan { value: st.value.push(c), paren: st.paren - 1, ..st }
    } else if c == ')' {
        Scan { pairs: with_pair(st), done: true, ..st }
    } else if c == '[' {
        Scan { value: st.value.push(c), bracket: st.bracket + 1, ..st }
    } else if c == ']' {
        Scan { value: st.value.push(c), bracket: st.bracket - 1, ..st }
    } else if c == '{' {
        Scan { value: st.value.push(c), brace: st.brace + 1, ..st }
    } else if c == '}' {
        Scan { value: st.value.push(c), brace: st.brace - 1, ..st }
    } else if c == ',' && st.paren == 0 && st.bracket == 0 && st.brace == 0 {
        if st.key.len() > 0 && st.value.len() > 0 {
            Scan {
                key: Seq::empty(),
                value: Seq::empty(),
                in_key: true,
                pairs: with_pair(st),
                ..st
            }
        } else {
            st
        }
    } else if st.in_key {
        Scan { key: st.key.push(c), ..st }
    } else {
        Scan { value: st.value.push(c), ..st }
    }
}

/// The state after the first `n` characters of `s`, from the state `st`.
pub open spec fn scan_from(st: Scan, s: Seq<char>, n: int) -> Scan
    decreases n,
{
    if n <= 0 || n > s.len() {
        st
    } else {
        scan_step(scan_from(st, s, n - 1), s[n - 1])
    }
}

/// The state after the first `n` characters of `s`.
pub open spec fn scan_prefix(s: Seq<char>, n: int) -> Scan {
    scan_from(scan_start(), s, n)
}

/// The keyword arguments of a call text, in order, as written: the scan
/// runs over what follows the first opening parenthesis. `None` where the
/// text holds no opening parenthesis.
pub open spec fn raw_pairs(call: Seq<char>) -> Option<Seq<(Seq<char>, Seq<char>)>> {
    match find_char_from(call, '(', 0) {
        Some(p) if 0 <= p < call.len() => {
            let args = call.subrange(p + 1, call.len() as int);
            Some(scan_prefix(args, args.len() as int).pairs)
        },
        _ => None,
    }
}

struct ScanState {
    key: Vec<char>,
    value: Vec<char>,
    in_key: bool,
    paren: i128,
    bracket: i128,
    brace: i128,
    in_string: bool,
    quote: char,
    pairs: Vec<RawKeyValue>,
    done: bool,
}

impl View for ScanState {
    type V = Scan;

    closed spec fn view(&self) -> Scan {
        Scan {
            key: self.key@,
            value: self.value@,
            in_key: self.in_key,
            paren: self.paren as int,
            bracket: self.bracket as int,
            brace: self.brace as int,
            in_string: self.in_string,
            quote: self.quote,
            pairs: raw_view(self.pairs@),
            done: self.done,
        }
    }
}

impl ScanState {
    spec fn within(&self, n: int) -> bool {
        &&& 0 <= self.paren <= n
        &&& -n <= self.bracket <= n
        &&& -n <= self.brace <= n
    }

    fn end_pair(&mut self)
        ensures
            raw_view(final(self).pairs@) == with_pair(old(self)@),
            final(self).key == old(self).key,
            final(self).value == old(self).value,
            final(self).in_key == old(self).in_key,
            final(self).paren == old(self).paren,
            final(self).bracket == old(self).bracket,
            final(self).brace == old(self).brace,
            final(self).in_string == old(self).in_string,
            final(self).quote == old(self).quote,
            final(self).done == old(self).done,
    {
        if self.key.len() > 0 && self.value.len() > 0 {
            let cleaned = match find_last_char(self.key.as_slice(), ':') {
                Some(i) => {
                    let end: usize = self.key.len();
                    trimmed(slice(self.key.as_slice(), i + 1, end).as_slice())
                },
                None => slice(self.key.as_slice(), 0, self.key.len()),
            };
            assert(self.key@.subrange(0, self.key@.len() as int) =~= self.key@);
            assert(cleaned@ == clean_key(self.key@));
            let pair = RawKeyValue {
                key: string_of(cleaned.as_slice()),
                value: string_of(self.value.as_slice()),
            };
            assert(raw_view(self.pairs@.push(pair)) =~= raw_view(self.pairs@).push(pair@));
            self.pairs.push(pair);
        }
    }

    fn feed(&mut self, c: char, Ghost(n): Ghost<int>)
        requires
            old(self).within(n),
            0 <= n < 0x1_0000_0000_0000_0000,
        ensures
            final(self)@ == scan_step(old(self)@, c),
            final(self).within(n + 1),
    {
        if self.done {
            return ;
        }
        if self.in_key && (c == ' ' || c == '\t' || c == '\n' || c == '\r') && self.key.len() == 0 {
            return ;
        }
        if self.in_string {
            let escaped = self.value.len() > 0 && self.value[self.value.len() - 1] == '\\';
            self.value.push(c);
            if c == self.quote && !escaped {
                self.in_string = false;
            }
            return ;
        }
        if c == '"' || c == '\'' {
            self.in_string = true;
            self.quote = c;
            self.value.push(c);
        } else if c == '=' && self.in_key {
            self.in_key = false;
            self.key = trimmed(self.key.as_slice());
        } else if c == '(' {
            self.paren = self.paren + 1;
            self.value.push(c);
        } else if c == ')' && self.paren > 0 {
            self.paren = self.paren - 1;
            self.value.push(c);
        } else if c == ')' {
            self.end_pair();
            self.done = true;
        } else if c == '[' {
            self.bracket = self.bracket + 1;
            self.value.push(c);
        } else if c == ']' {
            self.bracket = self.bracket - 1;
            self.value.push(c);
        } else if c == '{' {
            self.brace = self.brace + 1;
            self.value.push(c);
        } else if c == '}' {
            self.brace = self.brace - 1;
            self.value.push(c);
        } else if c == ',' && self.paren == 0 && self.bracket == 0 && self.brace == 0 {
            if self.key.len() > 0 && self.value.len() > 0 {
                self.end_pair();
                self.key = Vec::new();
                self.value = Vec::new();
                self.in_key = true;
            }
        } else if self.in_key {
            self.key.push(c);
        } else {
            self.value.push(c);
        }
    }
}

/// Cuts the argument list of one call into its keyword arguments.
///
/// A single scan from left to right keeps the depth of parentheses,
/// brackets and braces and whether it is inside a quoted string. A comma
/// at depth zero outside a string ends a pair; the call's own closing
/// parenthesis ends the last pair and the scan.
pub fn split_kwargs(plugin_def: &str) -> (r: Result<Vec<RawKeyValue>, BridgeError>)
    ensures
        match raw_pairs(plugin_def@) {
            Some(pairs) => r is Ok && raw_view(r.unwrap()@) == pairs,
            None => r is Err && r.unwrap_err() is InvalidSyntax,
        },
{
    let call = chars_of(plugin_def);
    let open = match find_char(call.as_slice(), '(', 0) {
        Some(p) => p,
        None => {
            return Err(
                BridgeError::InvalidSyntax(
                    String::from_str("No opening parenthesis in plugin constructor"),
                ),
            );
        },
    };
    let end: usize = call.len();
    let args = slice(call.as_slice(), open + 1, end);
    let mut st = ScanState {
        key: Vec::new(),
        value: Vec::new(),
        in_key: true,
        paren: 0,
        bracket: 0,
        brace: 0,
        in_string: false,
        quote: ' ',
        pairs: Vec::new(),
        done: false,
    };
    assert(st@ =~= scan_start()) by {
        assert(raw_view(st.pairs@) =~= Seq::empty());
    }
    let mut i: usize = 0;
    while i < args.len()
        invariant
            i <= args@.len(),
            st.within(i as int),
            st@ == scan_prefix(args@, i as int),
        decreases args@.len() - i,
    {
        st.feed(args[i], Ghost(i as int));
        i += 1;
    }
    Ok(st.pairs)
}

/// What a value text is taken for.
pub enum Classification {
    Value(ValueModel),
    /// `Class.steps`: the steps are declared by decorators of `Class`.
    NeedsSteps(Seq<char>),
    /// Attribute access that only an interpreter could evaluate.
    Unsupported,
}

/// "class" for a name that starts with an upper-case letter, else "function".
pub open spec fn callable_type_of(name: Seq<char>) -> Seq<char> {
    if name.len() > 0 && upper_case(name[0]) {
        "class"@
    } else {
        "function"@
    }
}

/// The canonical text of an enum expression of the fixed table.
pub open spec fn enum_value(expr: Seq<char>) -> Option<Seq<char>> {
    if expr == "IOType.STDOUT"@ {
        Some("stdout"@)
    } else if expr == "IOType.STDIN"@ {
        Some("stdin"@)
    } else if expr == "IOType.BOTH"@ {
        Some("both"@)
    } else {
        None
    }
}

/// The classification of a value text. The first rule that applies decides.
pub open spec fn classify(raw: Seq<char>, table: SymbolMap) -> Classification {
    let v = trim(raw);
    if v.len() == 0 || v == "None"@ {
        Classification::Value(ValueModel::Null)
    } else if v == "True"@ {
        Classification::Value(ValueModel::Bool(true))
    } else if v == "False"@ {
        Classification::Value(ValueModel::Bool(false))
    } else if is_quoted(v) {
        Classification::Value(ValueModel::Text(unquote(v)))
    } else if enum_value(v) is Some {
        Classification::Value(ValueModel::Text(enum_value(v).unwrap()))
    } else if contains_char(v, '.') && v[0] != '[' {
        if ends_with(v, ".steps"@) {
            Classification::NeedsSteps(v.subrange(0, v.len() - 6))
        } else {
            Classification::Unsupported
        }
    } else if v[0] == '[' && v.last() == ']' {
        Classification::Value(ValueModel::List)
    } else if table.contains_key(v) {
        Classification::Value(
            ValueModel::Callable(reference_to(table[v].0, table[v].1, callable_type_of(table[v].1))),
        )
    } else {
        Classification::Value(ValueModel::Text(v))
    }
}

/// A classified value, or the signal that decorators must be scanned.
#[derive(Debug, Clone)]
pub enum Classified {
    Value(KwargValue),
    NeedsSteps(String),
}

/// Whether a result of the classifier says what the classification asks.
pub open spec fn classified_as(r: Result<Classified, BridgeError>, c: Classification) -> bool {
    match c {
        Classification::Value(m) => r matches Ok(Classified::Value(v)) && v@ == m,
        Classification::NeedsSteps(class) => r matches Ok(Classified::NeedsSteps(s)) && s@ == class,
        Classification::Unsupported => r matches Err(e) && e is UnsupportedConstruct,
    }
}

/// Resolve enum values like `IOType.STDOUT` to their string representations.
pub fn resolve_enum_value(expr: &str) -> (r: Option<String>)
    ensures
        crate::records::opt_text(r) == enum_value(expr@),
{
    let e = chars_of(expr);
    if is_text(e.as_slice(), "IOType.STDOUT") {
        Some(String::from_str("stdout"))
    } else if is_text(e.as_slice(), "IOType.STDIN") {
        Some(String::from_str("stdin"))
    } else if is_text(e.as_slice(), "IOType.BOTH") {
        Some(String::from_str("both"))
    } else {
        None
    }
}

/// Infer callable type from name heuristic: classes start with an
/// upper-case letter.
pub fn infer_callable_type_from_name(name: &str) -> (r: &'static str)
    ensures
        r@ == callable_type_of(name@),
{
    let n = chars_of(name);
    if n.len() > 0 && n[0].is_uppercase() {
        "class"
    } else {
        "function"
    }
}

/// Parse a single keyword argument value.
pub fn parse_kwarg_value(value: &str, import_map: &ImportMap) -> (r: Result<
    Classified,
    BridgeError,
>)
    ensures
        classified_as(r, classify(value@, import_map.symbols@)),
{
    let raw = chars_of(value);
    let v = trimmed(raw.as_slice());
    let n: usize = v.len();
    if n == 0 || is_text(v.as_slice(), "None") {
        return Ok(Classified::Value(KwargValue::Null));
    }
    if is_text(v.as_slice(), "True") {
        return Ok(Classified::Value(KwargValue::Bool(true)));
    }
    if is_text(v.as_slice(), "False") {
        return Ok(Classified::Value(KwargValue::Bool(false)));
    }
    if n >= 2 && ((v[0] == '"' && v[n - 1] == '"') || (v[0] == '\'' && v[n - 1] == '\'')) {
        let inner = unquoted(v.as_slice());
        return Ok(Classified::Value(KwargValue::Text(string_of(inner.as_slice()))));
    }
    let text = string_of(v.as_slice());
    match resolve_enum_value(text.as_str()) {
        Some(e) => {
            return Ok(Classified::Value(KwargValue::Text(e)));
        },
        None => {},
    }
    if includes_char(v.as_slice(), '.') && v[0] != '[' {
        let suffix = chars_of(".steps");
        proof {
            reveal_strlit(".steps");
            assert(suffix@.len() == 6);
        }
        if finishes_with(v.as_slice(), suffix.as_slice()) {
            let class = slice(v.as_slice(), 0, n - 6);
            return Ok(Classified::NeedsSteps(string_of(class.as_slice())));
        }
        return Err(BridgeError::UnsupportedConstruct(text));
    }
    if v[0] == '[' && v[n - 1] == ']' {
        return Ok(Classified::Value(KwargValue::List));
    }
    match import_map.symbols.get(text.as_str()) {
        Some(sym) => {
            let kind = infer_callable_type_from_name(sym.name.as_str());
            let c = CallableMetadata {
                module: sym.module.clone(),
                name: sym.name.clone(),
                callable_type: String::from_str(kind),
                return_annotation: None,
                parameters: Vec::new(),
            };
            assert(parameters_view(c.parameters@) =~= Seq::empty());
            Ok(Classified::Value(KwargValue::Callable(c)))
        },
        None => Ok(Classified::Value(KwargValue::Text(text))),
    }
}

/// One keyword argument with its classified value.
#[derive(Debug, Clone)]
pub struct Kwarg {
    pub key: String,
    pub value: KwargValue,
}

impl View for Kwarg {
    type V = (Seq<char>, ValueModel);

    open spec fn view(&self) -> (Seq<char>, ValueModel) {
        (self.key@, self.value@)
    }
}

/// The views of a vector of keyword arguments, in order.
pub open spec fn kwargs_view(v: Seq<Kwarg>) -> Seq<(Seq<char>, ValueModel)> {
    v.map_values(|k: Kwarg| k@)
}

/// The value that a value text stands for, given the symbols of the file
/// and the sources of the package: `Class.steps` stands for the steps that
/// decorators declare for `Class`, and fails where there are none.
pub open spec fn value_of(
    raw: Seq<char>,
    table: SymbolMap,
    files: Seq<(Seq<char>, Seq<char>)>,
) -> Result<ValueModel, ErrorKind> {
    match classify(raw, table) {
        Classification::Value(m) => Ok(m),
        Classification::NeedsSteps(class) => if package_steps(files, class).len() > 0 {
            Ok(ValueModel::Steps(package_steps(files, class)))
        } else {
            Err(ErrorKind::NotFound)
        },
        Classification::Unsupported => Err(ErrorKind::UnsupportedConstruct),
    }
}

/// The values of the first `n` pairs; the first value that fails decides.
pub open spec fn values_of(
    pairs: Seq<(Seq<char>, Seq<char>)>,
    table: SymbolMap,
    files: Seq<(Seq<char>, Seq<char>)>,
    n: int,
) -> Result<Seq<(Seq<char>, ValueModel)>, ErrorKind>
    decreases n,
{
    if n <= 0 || n > pairs.len() {
        Ok(Seq::empty())
    } else {
        match values_of(pairs, table, files, n - 1) {
            Err(e) => Err(e),
            Ok(vs) => match value_of(pairs[n - 1].1, table, files) {
                Ok(m) => Ok(vs.push((pairs[n - 1].0, m))),
                Err(e) => Err(e),
            },
        }
    }
}

/// The keyword arguments of a call with their values.
pub open spec fn kwargs_of(
    call: Seq<char>,
    table: SymbolMap,
    files: Seq<(Seq<char>, Seq<char>)>,
) -> Result<Seq<(Seq<char>, ValueModel)>, ErrorKind> {
    match raw_pairs(call) {
        Some(pairs) => values_of(pairs, table, files, pairs.len() as int),
        None => Err(ErrorKind::InvalidSyntax),
    }
}

/// Whether a result is what the specification gives: the same values, or
/// an error of the same kind.
pub open spec fn kwargs_as(
    r: Result<Vec<Kwarg>, BridgeError>,
    want: Result<Seq<(Seq<char>, ValueModel)>, ErrorKind>,
) -> bool {
    match want {
        Ok(vs) => r is Ok && kwargs_view(r.unwrap()@) == vs,
        Err(k) => r is Err && r.unwrap_err().kind_of() == k,
    }
}

/// Extract the keyword arguments of a registration call.
pub fn extract_kwargs(plugin_def: &str, import_map: &ImportMap, sources: &Vec<SourceFile>) -> (r:
    Result<Vec<Kwarg>, BridgeError>)
    ensures
        kwargs_as(r, kwargs_of(plugin_def@, import_map.symbols@, sources_view(sources@))),
{
    let pairs = match split_kwargs(plugin_def) {
        Ok(p) => p,
        Err(e) => {
            return Err(e);
        },
    };
    let ghost raws = raw_view(pairs@);
    let ghost table = import_map.symbols@;
    let ghost files = sources_view(sources@);
    let mut out: Vec<Kwarg> = Vec::new();
    let mut i: usize = 0;
    assert(kwargs_view(out@) =~= Seq::empty());
    while i < pairs.len()
        invariant
            i <= pairs@.len(),
            raws == raw_view(pairs@),
            raw_pairs(plugin_def@) == Some(raws),
            table == import_map.symbols@,
            files == sources_view(sources@),
            values_of(raws, table, files, i as int) == Ok::<
                Seq<(Seq<char>, ValueModel)>,
                ErrorKind,
            >(kwargs_view(out@)),
        decreases pairs@.len() - i,
    {
        let pair = &pairs[i];
        assert(raws[i as int] == (pair.key@, pair.value@));
        let value = match parse_kwarg_value(pair.value.as_str(), import_map) {
            Ok(Classified::Value(v)) => v,
            Ok(Classified::NeedsSteps(class)) => {
                match extract_decorator_based_attribute(class.as_str(), "steps", sources) {
                    Ok(steps) => KwargValue::Steps(steps),
                    Err(e) => {
                        assert(values_of(raws, table, files, i + 1) is Err);
                        proof {
                            lemma_values_fail(raws, table, files, i + 1, raws.len() as int);
                        }
                        return Err(e);
                    },
                }
            },
            Err(e) => {
                assert(values_of(raws, table, files, i + 1) is Err);
                proof {
                    lemma_values_fail(raws, table, files, i + 1, raws.len() as int);
                }
                return Err(e);
            },
        };
        let kw = Kwarg { key: pair.key.clone(), value };
        assert(kwargs_view(out@.push(kw)) =~= kwargs_view(out@).push(kw@));
        out.push(kw);
        i += 1;
    }
    Ok(out)
}

/// A failure among the first `n` pairs is the failure of the whole.
pub proof fn lemma_values_fail(
    pairs: Seq<(Seq<char>, Seq<char>)>,
    table: SymbolMap,
    files: Seq<(Seq<char>, Seq<char>)>,
    n: int,
    m: int,
)
    requires
        0 <= n <= m <= pairs.len(),
        values_of(pairs, table, files, n) is Err,
    ensures
        values_of(pairs, table, files, m) == values_of(pairs, table, files, n),
    decreases m - n,
{
    if n < m {
        lemma_values_fail(pairs, table, files, n, m - 1);
    }
}

/// The value of the last argument named `key`, if any.
pub open spec fn kwarg(pairs: Seq<(Seq<char>, ValueModel)>, key: Seq<char>) -> Option<ValueModel>
    decreases pairs.len(),
{
    if pairs.len() == 0 {
        None
    } else if pairs.last().0 == key {
        Some(pairs.last().1)
    } else {
        kwarg(pairs.drop_last(), key)
    }
}

/// Looks up the last argument named `key`.
pub fn find_kwarg(kwargs: &Vec<Kwarg>, key: &str) -> (r: Option<KwargValue>)
    ensures
        opt_value(r) == kwarg(kwargs_view(kwargs@), key@),
{
    let k = String::from_str(key);
    let ghost all = kwargs_view(kwargs@);
    let mut i: usize = kwargs.len();
    assert(all.subrange(0, all.len() as int) =~= all);
    while i > 0
        invariant
            i <= kwargs@.len(),
            all == kwargs_view(kwargs@),
            k@ == key@,
            kwarg(all, key@) == kwarg(all.subrange(0, i as int), key@),
        decreases i,
    {
        let ghost cur = all.subrange(0, i as int);
        assert(cur.last() == all[i - 1]);
        assert(cur.drop_last() =~= all.subrange(0, i - 1));
        assert(all[i - 1] == kwargs@[i - 1]@);
        if kwargs[i - 1].key == k {
            return Some(copy_value(&kwargs[i - 1].value));
        }
        i -= 1;
    }
    None
}

/// The plugin type that a constructor name stands for.
pub open spec fn plugin_type_of(constructor: Seq<char>) -> Seq<char> {
    if constructor == "ParserPlugin"@ {
        "parser"@
    } else if constructor == "ExporterPlugin"@ {
        "exporter"@
    } else if constructor == "UpgraderPlugin"@ {
        "upgrader"@
    } else {
        "function"@
    }
}

/// The plugin kind that a constructor name stands for.
pub open spec fn plugin_kind_of(constructor: Seq<char>) -> PluginKind {
    if constructor == "ParserPlugin"@ {
        PluginKind::Parser
    } else if constructor == "ExporterPlugin"@ {
        PluginKind::Exporter
    } else if constructor == "UpgraderPlugin"@ {
        PluginKind::Upgrader
    } else {
        PluginKind::Modifier
    }
}

/// Infer the plugin type discriminator from the constructor name.
pub fn infer_plugin_type(constructor: &str) -> (r: &'static str)
    ensures
        r@ == plugin_type_of(constructor@),
{
    let c = chars_of(constructor);
    if is_text(c.as_slice(), "ParserPlugin") {
        "parser"
    } else if is_text(c.as_slice(), "ExporterPlugin") {
        "exporter"
    } else if is_text(c.as_slice(), "UpgraderPlugin") {
        "upgrader"
    } else {
        "function"
    }
}

/// Infer the plugin kind from the constructor name.
pub fn infer_plugin_kind(constructor: &str) -> (r: PluginKind)
    ensures
        r == plugin_kind_of(constructor@),
{
    let c = chars_of(constructor);
    if is_text(c.as_slice(), "ParserPlugin") {
        PluginKind::Parser
    } else if is_text(c.as_slice(), "ExporterPlugin") {
        PluginKind::Exporter
    } else if is_text(c.as_slice(), "UpgraderPlugin") {
        PluginKind::Upgrader
    } else {
        PluginKind::Modifier
    }
}

/// The text of a value, where the value is a text.
pub open spec fn as_text(v: Option<ValueModel>) -> Option<Seq<char>> {
    match v {
        Some(ValueModel::Text(s)) => Some(s),
        _ => None,
    }
}

/// The callable of a value, where the value is a resolved callable.
pub open spec fn as_callable(v: Option<ValueModel>) -> Option<CallableModel> {
    match v {
        Some(ValueModel::Callable(c)) if c.module.len() > 0 => Some(c),
        _ => None,
    }
}

/// The plugin that a registration call declares. The call must name a
/// constructor, and give a name that is a text and not empty and an object
/// that is a resolved callable: a call that does not is malformed.
pub open spec fn plugin_of(
    call: Seq<char>,
    table: SymbolMap,
    files: Seq<(Seq<char>, Seq<char>)>,
) -> Result<PluginModel, ErrorKind> {
    match find_char_from(call, '(', 0) {
        None => Err(ErrorKind::InvalidSyntax),
        Some(p) => match kwargs_of(call, table, files) {
            Err(e) => Err(e),
            Ok(kw) => match (as_text(kwarg(kw, "name"@)), as_callable(kwarg(kw, "obj"@))) {
                (Some(name), Some(obj)) if name.len() > 0 => Ok(
                    PluginModel {
                        name,
                        kind: plugin_kind_of(trim(call.subrange(0, p))),
                        plugin_type: plugin_type_of(trim(call.subrange(0, p))),
                        obj,
                        call_method: kwarg(kw, "call_method"@),
                        config: kwarg(kw, "config"@),
                        io_type: as_text(kwarg(kw, "io_type"@)),
                        requires_store: kwarg(kw, "requires_store"@),
                        version_strategy: kwarg(kw, "version_strategy"@),
                        version_reader: kwarg(kw, "version_reader"@),
                        upgrade_steps: kwarg(kw, "upgrade_steps"@),
                    },
                ),
                _ => Err(ErrorKind::InvalidSyntax),
            },
        },
    }
}

/// Whether a result is what the specification gives: the same plugin, or
/// an error of the same kind.
pub open spec fn plugin_as(r: Result<PluginRecord, BridgeError>, want: Result<
    PluginModel,
    ErrorKind,
>) -> bool {
    match want {
        Ok(p) => r is Ok && r.unwrap()@ == p,
        Err(k) => r is Err && r.unwrap_err().kind_of() == k,
    }
}

/// Parse a registration call into the plugin that it declares.
pub fn parse_plugin_constructor(
    plugin_def: &str,
    import_map: &ImportMap,
    sources: &Vec<SourceFile>,
) -> (r: Result<PluginRecord, BridgeError>)
    ensures
        plugin_as(r, plugin_of(plugin_def@, import_map.symbols@, sources_view(sources@))),
{
    let call = chars_of(plugin_def);
    let open = match find_char(call.as_slice(), '(', 0) {
        Some(p) => p,
        None => {
            return Err(
                BridgeError::InvalidSyntax(String::from_str("Invalid plugin constructor format")),
            );
        },
    };
    let constructor = string_of(trimmed(slice(call.as_slice(), 0, open).as_slice()).as_slice());
    let kwargs = match extract_kwargs(plugin_def, import_map, sources) {
        Ok(k) => k,
        Err(e) => {
            return Err(e);
        },
    };
    let name = match find_kwarg(&kwargs, "name") {
        Some(KwargValue::Text(s)) => s,
        _ => {
            return Err(BridgeError::InvalidSyntax(String::from_str("Plugin missing 'name' field")));
        },
    };
    if name.as_str().unicode_len() == 0 {
        return Err(BridgeError::InvalidSyntax(String::from_str("Plugin missing 'name' field")));
    }
    let obj = match find_kwarg(&kwargs, "obj") {
        Some(KwargValue::Callable(c)) => c,
        _ => {
            return Err(BridgeError::InvalidSyntax(String::from_str("Plugin missing 'obj' field")));
        },
    };
    if obj.module.as_str().unicode_len() == 0 {
        return Err(BridgeError::InvalidSyntax(String::from_str("Plugin missing 'obj' field")));
    }
    let io_type = match find_kwarg(&kwargs, "io_type") {
        Some(KwargValue::Text(s)) => Some(s),
        _ => None,
    };
    Ok(
        PluginRecord {
            name,
            kind: infer_plugin_kind(constructor.as_str()),
            plugin_type: String::from_str(infer_plugin_type(constructor.as_str())),
            obj,
            call_method: find_kwarg(&kwargs, "call_method"),
            config: find_kwarg(&kwargs, "config"),
            io_type,
            requires_store: find_kwarg(&kwargs, "requires_store"),
            version_strategy: find_kwarg(&kwargs, "version_strategy"),
            version_reader: find_kwarg(&kwargs, "version_reader"),
            upgrade_steps: find_kwarg(&kwargs, "upgrade_steps"),
        },
    )
}

} // verus!
