//! Extraction of plugin specifications from a manifest file by queries on
//! its syntax tree.

use crate::ast_parser::{class_names, extract_plugins_list, registration_calls, with_new};
use crate::config::PluginTypeConfig;
use crate::constructor_parser::{raw_pairs, raw_view, split_kwargs, RawKeyValue};
use crate::errors::BridgeError;
use crate::import_resolver::{build_import_map, import_table, ImportMap};
use crate::records::{opt_text, PluginKind};
use crate::text::{
    chars_of, contains, find_char, find_char_from, holds, includes, is_text, lists, slice,
    string_of, texts, trim, trimmed, views,
};
use ast_grep_core::tree_sitter::StrDoc;
use ast_grep_core::{AstGrep, Pattern};
use ast_grep_language::Python;
use vstd::prelude::*;
use vstd::string::*;

verus! {

/// The texts of the nodes of the syntax tree of `source` that match
/// `pattern`, in the order of the tree walk; `None` where the source or
/// the pattern cannot be parsed.
pub uninterp spec fn tree_matches(source: Seq<char>, pattern: Seq<char>) -> Option<Seq<Seq<char>>>;

/// The views of an optional vector of strings.
pub open spec fn opt_texts(r: Option<Vec<String>>) -> Option<Seq<Seq<char>>> {
    match r {
        Some(v) => Some(texts(v@)),
        None => None,
    }
}

/// Parses `source` as Python with `StrDoc::try_new`, the pattern with
/// `Pattern::try_new`, and collects the text of every node that
/// `Node::find_all` yields for the pattern. The result depends on the two
/// texts alone.
#[verifier::external_body]
fn tree_query(source: &str, pattern: &str) -> (r: Option<Vec<String>>)
    ensures
        opt_texts(r) == tree_matches(source@, pattern@),
{
    let doc = StrDoc::try_new(source, Python).ok()?;
    let pat = Pattern::try_new(pattern, Python).ok()?;
    let root = AstGrep::doc(doc);
    let mut out = Vec::new();
    for m in root.root().find_all(&pat) {
        out.push(m.text().to_string());
    }
    Some(out)
}

/// The registration calls among the matches of a query: no match at all,
/// like a query that could not be made, is an error.
pub fn calls_from_matches(found: Option<Vec<String>>) -> (r: Result<Vec<String>, BridgeError>)
    ensures
        match found {
            Some(v) if v@.len() > 0 => r == Ok::<Vec<String>, BridgeError>(v),
            _ => r is Err && r.unwrap_err().is_not_found(),
        },
{
    match found {
        Some(v) => {
            if v.len() > 0 {
                Ok(v)
            } else {
                Err(BridgeError::PluginNotFound(String::from_str("No manifest.add() calls found")))
            }
        },
        None => Err(BridgeError::PluginNotFound(String::from_str("No manifest.add() calls found"))),
    }
}

/// What a plugin consumes or produces.
#[derive(Debug, Clone, Copy, PartialEq, Eq, Structural)]
pub enum IOSlot {
    System,
    ConfigFile,
    StoreFolder,
    Folder,
}

/// The inputs and outputs of a plugin.
#[derive(Debug, Clone)]
pub struct IOContract {
    pub consumes: Vec<IOSlot>,
    pub produces: Vec<IOSlot>,
}

/// The configuration class of a plugin.
#[derive(Debug, Clone)]
pub struct ConfigSpec {
    pub module: String,
    pub name: String,
}

/// The data store of a plugin: a folder, at a path where one is given.
#[derive(Debug, Clone)]
pub struct StoreSpec {
    pub path: Option<String>,
}

/// The resources of a plugin.
#[derive(Debug, Clone)]
pub struct ResourceSpec {
    pub store: Option<StoreSpec>,
    pub config: Option<ConfigSpec>,
}

/// The specification of one plugin.
#[derive(Debug, Clone)]
pub struct PluginSpec {
    pub name: String,
    pub kind: PluginKind,
    pub entry: String,
    pub method: Option<String>,
    pub io: IOContract,
    pub resources: Option<ResourceSpec>,
    pub description: Option<String>,
}

/// The kind that a helper method of the specification stands for.
pub open spec fn kind_of_method(method: Seq<char>) -> Option<PluginKind> {
    if method == "parser"@ {
        Some(PluginKind::Parser)
    } else if method == "exporter"@ {
        Some(PluginKind::Exporter)
    } else if method == "function"@ {
        Some(PluginKind::Modifier)
    } else if method == "upgrader"@ {
        Some(PluginKind::Upgrader)
    } else if method == "utility"@ {
        Some(PluginKind::Utility)
    } else {
        None
    }
}

/// What plugins of a kind consume.
pub open spec fn consumed_by(kind: PluginKind) -> Seq<IOSlot> {
    match kind {
        PluginKind::Parser => seq![IOSlot::StoreFolder, IOSlot::ConfigFile],
        PluginKind::Exporter => seq![IOSlot::System, IOSlot::ConfigFile],
        PluginKind::Modifier => seq![IOSlot::System],
        _ => Seq::empty(),
    }
}

/// What plugins of a kind produce.
pub open spec fn produced_by(kind: PluginKind) -> Seq<IOSlot> {
    match kind {
        PluginKind::Parser => seq![IOSlot::System],
        PluginKind::Exporter => seq![IOSlot::Folder],
        PluginKind::Modifier => seq![IOSlot::System],
        _ => Seq::empty(),
    }
}

/// A text without the double quotes at its ends.
pub open spec fn bare(s: Seq<char>) -> Seq<char> {
    bare_end(bare_start(s))
}

/// A text without the double quotes at its start.
pub open spec fn bare_start(s: Seq<char>) -> Seq<char>
    decreases s.len(),
{
    if s.len() > 0 && s[0] == '"' {
        bare_start(s.drop_first())
    } else {
        s
    }
}

/// A text without the double quotes at its end.
pub open spec fn bare_end(s: Seq<char>) -> Seq<char>
    decreases s.len(),
{
    if s.len() > 0 && s.last() == '"' {
        bare_end(s.drop_last())
    } else {
        s
    }
}

fn without_quotes(s: &[char]) -> (r: Vec<char>)
    ensures
        r@ == bare(s@),
{
    let mut lo: usize = 0;
    proof {
        assert(s@.subrange(0, s@.len() as int) =~= s@);
    }
    while lo < s.len() && s[lo] == '"'
        invariant
            lo <= s.len(),
            bare_start(s@) == bare_start(s@.subrange(lo as int, s@.len() as int)),
        decreases s.len() - lo,
    {
        assert(s@.subrange(lo as int, s@.len() as int).drop_first() =~= s@.subrange(
            lo + 1,
            s@.len() as int,
        ));
        lo += 1;
    }
    let a = slice(s, lo, s.len());
    let mut hi: usize = a.len();
    proof {
        assert(a@.subrange(0, a@.len() as int) =~= a@);
    }
    while hi > 0 && a[hi - 1] == '"'
        invariant
            hi <= a.len(),
            bare_end(a@) == bare_end(a@.subrange(0, hi as int)),
        decreases hi,
    {
        assert(a@.subrange(0, hi as int).drop_last() =~= a@.subrange(0, hi - 1));
        hi -= 1;
    }
    slice(a.as_slice(), 0, hi)
}

/// The value text of the first argument named `key`, if any.
pub open spec fn first_raw(pairs: Seq<(Seq<char>, Seq<char>)>, key: Seq<char>) -> Option<Seq<char>>
    decreases pairs.len(),
{
    if pairs.len() == 0 {
        None
    } else if pairs[0].0 == key {
        Some(pairs[0].1)
    } else {
        first_raw(pairs.drop_first(), key)
    }
}

/// The value of an argument as a bare text: trimmed, without quotes.
pub open spec fn bare_value(pairs: Seq<(Seq<char>, Seq<char>)>, key: Seq<char>) -> Option<
    Seq<char>,
> {
    match first_raw(pairs, key) {
        Some(v) => Some(bare(trim(v))),
        None => None,
    }
}

fn raw_value(pairs: &Vec<RawKeyValue>, key: &str) -> (r: Option<Vec<char>>)
    ensures
        match r {
            Some(v) => first_raw(raw_view(pairs@), key@) == Some(v@),
            None => first_raw(raw_view(pairs@), key@) is None,
        },
{
    let k = String::from_str(key);
    let ghost all = raw_view(pairs@);
    let mut i: usize = 0;
    assert(all.subrange(0, all.len() as int) =~= all);
    while i < pairs.len()
        invariant
            i <= pairs@.len(),
            all == raw_view(pairs@),
            k@ == key@,
            first_raw(all, key@) == first_raw(all.subrange(i as int, all.len() as int), key@),
        decreases pairs@.len() - i,
    {
        let ghost cur = all.subrange(i as int, all.len() as int);
        assert(cur[0] == all[i as int]);
        assert(cur.drop_first() =~= all.subrange(i + 1, all.len() as int));
        assert(all[i as int] == pairs@[i as int]@);
        if pairs[i].key == k {
            return Some(chars_of(pairs[i].value.as_str()));
        }
        i += 1;
    }
    None
}

fn bare_text(pairs: &Vec<RawKeyValue>, key: &str) -> (r: Option<String>)
    ensures
        opt_text(r) == bare_value(raw_view(pairs@), key@),
{
    match raw_value(pairs, key) {
        Some(v) => Some(
            string_of(without_quotes(trimmed(v.as_slice()).as_slice()).as_slice()),
        ),
        None => None,
    }
}

/// Extracts plugin specifications from the text of a manifest file.
#[derive(Debug, Clone)]
pub struct PluginExtractor {
    pub python_file_path: String,
    pub content: String,
    pub import_map: ImportMap,
}

/// Whether the method of a helper call `PluginSpec.METHOD(...)` can be
/// read off the call text, and what it is.
pub open spec fn helper_method(call: Seq<char>) -> Option<Seq<char>> {
    match find_char_from(call, '.', 0) {
        Some(d) => match find_char_from(call, '(', d) {
            Some(p) => Some(trim(call.subrange(d + 1, p))),
            None => None,
        },
        None => None,
    }
}

/// Whether a specification is the one that a helper call declares.
pub open spec fn spec_of_call(call: Seq<char>, table: crate::import_resolver::SymbolMap, s: PluginSpec) -> bool {
    let pairs = raw_pairs(call).unwrap();
    &&& helper_method(call) is Some
    &&& kind_of_method(helper_method(call).unwrap()) == Some(s.kind)
    &&& raw_pairs(call) is Some
    &&& bare_value(pairs, "name"@) == Some(s.name@)
    &&& bare_value(pairs, "entry"@) == Some(s.entry@)
    &&& opt_text(s.description) == bare_value(pairs, "description"@)
    &&& opt_text(s.method) == bare_value(pairs, "method"@)
    &&& s.io.consumes@ == consumed_by(s.kind)
    &&& s.io.produces@ == produced_by(s.kind)
    &&& s.resources is Some == (first_raw(pairs, "config"@) is Some || first_raw(
        pairs,
        "store"@,
    ) is Some)
    &&& s.resources is Some ==> {
        &&& s.resources.unwrap().config is Some == first_raw(pairs, "config"@) is Some
        &&& s.resources.unwrap().store is Some == first_raw(pairs, "store"@) is Some
        &&& s.resources.unwrap().config matches Some(c) ==> {
            &&& c.name@ == trim(first_raw(pairs, "config"@).unwrap())
            &&& c.module@ == (if table.contains_key(c.name@) {
                table[c.name@].0
            } else {
                Seq::empty()
            })
        }
        &&& s.resources.unwrap().store matches Some(st) ==> opt_text(st.path) == store_path(
            first_raw(pairs, "store"@).unwrap(),
        )
    }
}

/// The path of a store: none where the argument only switches the store on.
pub open spec fn store_path(raw: Seq<char>) -> Option<Seq<char>> {
    if trim(raw) == "True"@ || trim(raw) == "true"@ {
        None
    } else {
        Some(bare(trim(raw)))
    }
}

/// Whether a helper call declares a specification at all.
pub open spec fn call_declares(call: Seq<char>) -> bool {
    &&& helper_method(call) is Some
    &&& kind_of_method(helper_method(call).unwrap()) is Some
    &&& raw_pairs(call) is Some
    &&& first_raw(raw_pairs(call).unwrap(), "name"@) is Some
    &&& first_raw(raw_pairs(call).unwrap(), "entry"@) is Some
}

/// The first helper call inside a `manifest.add(...)` call, if any.
pub open spec fn helper_call(add_text: Seq<char>) -> Option<Seq<char>> {
    match tree_matches(add_text, "PluginSpec.$METHOD($$$ARGS)"@) {
        Some(v) if v.len() > 0 => Some(v[0]),
        _ => None,
    }
}

/// Whether a `manifest.add(...)` call declares a specification.
pub open spec fn add_declares(add_text: Seq<char>) -> bool {
    helper_call(add_text) is Some && call_declares(helper_call(add_text).unwrap())
}

/// Whether `out` holds, in order, one specification for each of the first
/// `n` calls that declares one, and nothing else.
pub open spec fn specs_of(
    calls: Seq<Seq<char>>,
    table: crate::import_resolver::SymbolMap,
    n: int,
    out: Seq<PluginSpec>,
) -> bool
    decreases n,
{
    if n <= 0 || n > calls.len() {
        out.len() == 0
    } else if add_declares(calls[n - 1]) {
        &&& out.len() > 0
        &&& spec_of_call(helper_call(calls[n - 1]).unwrap(), table, out.last())
        &&& specs_of(calls, table, n - 1, out.drop_last())
    } else {
        specs_of(calls, table, n - 1, out)
    }
}

impl PluginExtractor {
    /// An extractor for the text of a manifest file. A text that names
    /// neither a manifest nor an addition to one is refused.
    pub fn new(python_file_path: String, content: String) -> (r: Result<Self, BridgeError>)
        ensures
            match r {
                Ok(e) => {
                    &&& contains(content@, "PluginManifest"@) || contains(content@, "manifest.add"@)
                    &&& e.content@ == content@
                    &&& e.python_file_path@ == python_file_path@
                    &&& e.import_map.symbols.wf()
                    &&& e.import_map.symbols@ == import_table(content@)
                },
                Err(e) => e.is_not_found() && !contains(content@, "PluginManifest"@) && !contains(
                    content@,
                    "manifest.add"@,
                ),
            },
    {
        let c = chars_of(content.as_str());
        let a = chars_of("PluginManifest");
        let b = chars_of("manifest.add");
        if !includes(c.as_slice(), a.as_slice()) && !includes(c.as_slice(), b.as_slice()) {
            return Err(BridgeError::PluginNotFound(python_file_path));
        }
        let import_map = Self::build_import_map_static(content.as_str());
        Ok(PluginExtractor { python_file_path, content, import_map })
    }

    /// The symbols that the import statements of a text bind.
    pub fn build_import_map_static(content: &str) -> (r: ImportMap)
        ensures
            r.symbols.wf(),
            r.symbols@ == import_table(content@),
    {
        match build_import_map(content) {
            Ok(m) => m,
            Err(_) => ImportMap { symbols: crate::import_resolver::SymbolTable::new() },
        }
    }

    /// The inputs and outputs of plugins of a kind.
    pub fn infer_io_contract(kind: PluginKind) -> (r: IOContract)
        ensures
            r.consumes@ == consumed_by(kind),
            r.produces@ == produced_by(kind),
    {
        match kind {
            PluginKind::Parser => IOContract {
                consumes: vec![IOSlot::StoreFolder, IOSlot::ConfigFile],
                produces: vec![IOSlot::System],
            },
            PluginKind::Exporter => IOContract {
                consumes: vec![IOSlot::System, IOSlot::ConfigFile],
                produces: vec![IOSlot::Folder],
            },
            PluginKind::Modifier => IOContract {
                consumes: vec![IOSlot::System],
                produces: vec![IOSlot::System],
            },
            _ => IOContract { consumes: Vec::new(), produces: Vec::new() },
        }
    }

    /// The specification that a helper call `PluginSpec.METHOD(...)`
    /// declares. The call must name a known method and give a name and an
    /// entry.
    pub fn spec_from_helper_call(&self, call_text: &str) -> (r: Result<PluginSpec, BridgeError>)
        ensures
            match r {
                Ok(s) => call_declares(call_text@) && spec_of_call(
                    call_text@,
                    self.import_map.symbols@,
                    s,
                ),
                Err(e) => !call_declares(call_text@) && (e is InvalidSyntax || e.is_not_found()),
            },
    {
        let call = chars_of(call_text);
        let dot = match find_char(call.as_slice(), '.', 0) {
            Some(d) => d,
            None => {
                return Err(BridgeError::InvalidSyntax(String::from_str("Missing helper method")));
            },
        };
        let open = match find_char(call.as_slice(), '(', dot) {
            Some(p) => p,
            None => {
                return Err(BridgeError::InvalidSyntax(String::from_str("Missing helper method")));
            },
        };
        let method = trimmed(slice(call.as_slice(), dot + 1, open).as_slice());
        let kind = if is_text(method.as_slice(), "parser") {
            PluginKind::Parser
        } else if is_text(method.as_slice(), "exporter") {
            PluginKind::Exporter
        } else if is_text(method.as_slice(), "function") {
            PluginKind::Modifier
        } else if is_text(method.as_slice(), "upgrader") {
            PluginKind::Upgrader
        } else if is_text(method.as_slice(), "utility") {
            PluginKind::Utility
        } else {
            return Err(BridgeError::InvalidSyntax(string_of(method.as_slice())));
        };
        let pairs = match split_kwargs(call_text) {
            Ok(p) => p,
            Err(e) => {
                return Err(e);
            },
        };
        let name = match bare_text(&pairs, "name") {
            Some(n) => n,
            None => {
                return Err(BridgeError::PluginNotFound(String::from_str("name")));
            },
        };
        let entry = match bare_text(&pairs, "entry") {
            Some(n) => n,
            None => {
                return Err(BridgeError::PluginNotFound(String::from_str("entry")));
            },
        };
        let config = match raw_value(&pairs, "config") {
            Some(v) => {
                let class = string_of(trimmed(v.as_slice()).as_slice());
                let module = match self.import_map.symbols.get(class.as_str()) {
                    Some(sym) => sym.module.clone(),
                    None => String::new(),
                };
                Some(ConfigSpec { module, name: class })
            },
            None => None,
        };
        let store = match raw_value(&pairs, "store") {
            Some(v) => {
                let value = trimmed(v.as_slice());
                if is_text(value.as_slice(), "True") || is_text(value.as_slice(), "true") {
                    Some(StoreSpec { path: None })
                } else {
                    Some(
                        StoreSpec {
                            path: Some(string_of(without_quotes(value.as_slice()).as_slice())),
                        },
                    )
                }
            },
            None => None,
        };
        let resources = if config.is_some() || store.is_some() {
            Some(ResourceSpec { store, config })
        } else {
            None
        };
        Ok(
            PluginSpec {
                name,
                kind,
                entry,
                method: bare_text(&pairs, "method"),
                io: Self::infer_io_contract(kind),
                resources,
                description: bare_text(&pairs, "description"),
            },
        )
    }

    /// The specification that one `manifest.add(...)` call declares: that
    /// of the first helper call among the given matches of the query for
    /// helper calls in it.
    pub fn spec_from_matches(&self, helper_calls: Option<Vec<String>>) -> (r: Result<
        PluginSpec,
        BridgeError,
    >)
        ensures
            match helper_calls {
                Some(v) if v@.len() > 0 => match r {
                    Ok(s) => call_declares(v@[0]@) && spec_of_call(
                        v@[0]@,
                        self.import_map.symbols@,
                        s,
                    ),
                    Err(_) => !call_declares(v@[0]@),
                },
                _ => r is Err && r.unwrap_err().is_not_found(),
            },
    {
        match helper_calls {
            Some(v) => {
                if v.len() > 0 {
                    self.spec_from_helper_call(v[0].as_str())
                } else {
                    Err(BridgeError::PluginNotFound(String::from_str("PluginSpec helper call")))
                }
            },
            None => Err(BridgeError::PluginNotFound(String::from_str("PluginSpec helper call"))),
        }
    }

    /// The specification that one `manifest.add(...)` call declares.
    pub fn extract_plugin_from_add_call(&self, add_text: &str) -> (r: Result<
        PluginSpec,
        BridgeError,
    >)
        ensures
            r is Ok == add_declares(add_text@),
            r is Ok ==> spec_of_call(
                helper_call(add_text@).unwrap(),
                self.import_map.symbols@,
                r.unwrap(),
            ),
            helper_call(add_text@) is None ==> r.unwrap_err().is_not_found(),
    {
        let found = tree_query(add_text, "PluginSpec.$METHOD($$$ARGS)");
        proof {
            if found is Some {
                assert(texts(found.unwrap()@).len() == found.unwrap()@.len());
                if found.unwrap()@.len() > 0 {
                    assert(texts(found.unwrap()@)[0] == found.unwrap()@[0]@);
                }
            }
        }
        self.spec_from_matches(found)
    }

    /// The texts of the `manifest.add(...)` calls of the file, in the
    /// order of the file. None at all is an error.
    pub fn locate_calls(&self) -> (r: Result<Vec<String>, BridgeError>)
        ensures
            match tree_matches(self.content@, "manifest.add($$$_)"@) {
                Some(v) if v.len() > 0 => r is Ok && texts(r.unwrap()@) == v,
                _ => r is Err && r.unwrap_err().is_not_found(),
            },
    {
        let found = tree_query(self.content.as_str(), "manifest.add($$$_)");
        proof {
            if found is Some {
                assert(texts(found.unwrap()@).len() == found.unwrap()@.len());
            }
        }
        calls_from_matches(found)
    }

    /// The plugin specifications of the file: one for each
    /// `manifest.add(...)` call that declares one, in the order of the
    /// file. No such call at all is an error.
    pub fn extract_plugins(&self) -> (r: Result<Vec<PluginSpec>, BridgeError>)
        ensures
            match tree_matches(self.content@, "manifest.add($$$_)"@) {
                Some(v) if v.len() > 0 => r is Ok && specs_of(
                    v,
                    self.import_map.symbols@,
                    v.len() as int,
                    r.unwrap()@,
                ),
                _ => r is Err && r.unwrap_err().is_not_found(),
            },
    {
        let calls = match self.locate_calls() {
            Ok(c) => c,
            Err(e) => {
                return Err(e);
            },
        };
        let ghost cs = texts(calls@);
        let mut plugins: Vec<PluginSpec> = Vec::new();
        let mut i: usize = 0;
        while i < calls.len()
            invariant
                i <= calls@.len(),
                cs == texts(calls@),
                specs_of(cs, self.import_map.symbols@, i as int, plugins@),
            decreases calls@.len() - i,
        {
            assert(cs[i as int] == calls@[i as int]@);
            match self.extract_plugin_from_add_call(calls[i].as_str()) {
                Ok(p) => {
                    assert(plugins@.push(p).drop_last() =~= plugins@);
                    plugins.push(p);
                },
                Err(_) => {},
            }
            i += 1;
        }
        Ok(plugins)
    }

    /// References are resolved when they are used: nothing is done here.
    pub fn resolve_references(&self, _plugin: &mut PluginSpec, _package_name: &str) -> (r: Result<
        (),
        BridgeError,
    >)
        ensures
            r is Ok,
            *final(_plugin) == *old(_plugin),
    {
        Ok(())
    }
}

/// The callee of a call text: what stands before its first opening
/// parenthesis, without the spaces around it.
pub open spec fn callee_of(call: Seq<char>) -> Seq<char> {
    match find_char_from(call, '(', 0) {
        Some(q) => trim(call.subrange(0, q)),
        None => trim(call),
    }
}

/// `acc` with those of the first `n` items that are calls of one of the
/// names, in their order, none twice.
pub open spec fn with_calls_of(
    acc: Seq<Seq<char>>,
    items: Seq<Seq<char>>,
    names: Seq<Seq<char>>,
    n: int,
) -> Seq<Seq<char>>
    decreases n,
{
    if n <= 0 || n > items.len() {
        acc
    } else {
        let prev = with_calls_of(acc, items, names, n - 1);
        if names.contains(callee_of(items[n - 1])) {
            with_new(prev, items[n - 1])
        } else {
            prev
        }
    }
}

/// The registration calls that a query on the syntax tree finds: of all
/// call expressions of the text, in the order of the tree walk, which is
/// the order in which they start in the text, those whose callee is a
/// recognised constructor, none twice.
pub open spec fn tree_calls(fc: Seq<char>) -> Seq<Seq<char>> {
    match tree_matches(fc, "$F($$$ARGS)"@) {
        Some(v) => with_calls_of(Seq::empty(), v, PluginTypeConfig::classes(), v.len() as int),
        None => Seq::empty(),
    }
}

/// Adds to the calls found so far those of the given matches that are
/// calls of a recognised constructor, in their order, none twice. A query
/// that could not be made adds nothing.
pub fn add_matches(out: &mut Vec<String>, found: Option<Vec<String>>)
    ensures
        texts(final(out)@) == (match found {
            Some(v) => with_calls_of(
                texts(old(out)@),
                texts(v@),
                PluginTypeConfig::classes(),
                v@.len() as int,
            ),
            None => texts(old(out)@),
        }),
{
    match found {
        Some(v) => {
            let names = class_names();
            let ghost items = texts(v@);
            let ghost start = texts(out@);
            let mut i: usize = 0;
            while i < v.len()
                invariant
                    i <= v@.len(),
                    items == texts(v@),
                    views(names@) == PluginTypeConfig::classes(),
                    texts(out@) == with_calls_of(
                        start,
                        items,
                        PluginTypeConfig::classes(),
                        i as int,
                    ),
                decreases v@.len() - i,
            {
                assert(items[i as int] == v@[i as int]@);
                let call = chars_of(v[i].as_str());
                let callee = match find_char(call.as_slice(), '(', 0) {
                    Some(q) => trimmed(slice(call.as_slice(), 0, q).as_slice()),
                    None => trimmed(call.as_slice()),
                };
                if holds(&names, callee.as_slice()) && !lists(out, &v[i]) {
                    let copy = v[i].clone();
                    assert(texts(out@.push(copy)) =~= texts(out@).push(copy@));
                    out.push(copy);
                }
                i += 1;
            }
        },
        None => {},
    }
}

/// Extract the registration calls by a query on the syntax tree for every
/// call expression. Finding none is an error.
pub fn extract_plugins_list_by_tree(func_content: &str) -> (r: Result<Vec<String>, BridgeError>)
    ensures
        match r {
            Ok(calls) => calls@.len() > 0 && texts(calls@) == tree_calls(func_content@),
            Err(e) => e.is_not_found() && tree_calls(func_content@).len() == 0,
        },
{
    let mut out: Vec<String> = Vec::new();
    assert(texts(out@) =~= Seq::empty());
    let found = tree_query(func_content, "$F($$$ARGS)");
    proof {
        if found is Some {
            assert(texts(found.unwrap()@).len() == found.unwrap()@.len());
        }
    }
    add_matches(&mut out, found);
    if out.len() == 0 {
        return Err(
            BridgeError::PluginNotFound(
                String::from_str("No plugin definitions found in plugins array"),
            ),
        );
    }
    Ok(out)
}

/// The strategies by which registration calls are located.
#[derive(Debug, Clone, Copy, PartialEq, Eq, Structural)]
pub enum CallLocator {
    /// By indentation and matching of delimiters in the text.
    Textual,
    /// By queries on the syntax tree.
    TreeQuery,
}

impl CallLocator {
    /// The calls that the strategy finds in a text.
    pub open spec fn calls(&self, fc: Seq<char>) -> Seq<Seq<char>> {
        match self {
            CallLocator::Textual => registration_calls(fc),
            CallLocator::TreeQuery => tree_calls(fc),
        }
    }

    /// Locates the registration calls of a text. Whatever the strategy,
    /// finding none is an error of the same kind.
    pub fn locate(&self, func_content: &str) -> (r: Result<Vec<String>, BridgeError>)
        ensures
            match r {
                Ok(calls) => calls@.len() > 0 && texts(calls@) == self.calls(func_content@),
                Err(e) => e.is_not_found() && self.calls(func_content@).len() == 0,
            },
    {
        match self {
            CallLocator::Textual => extract_plugins_list(func_content),
            CallLocator::TreeQuery => extract_plugins_list_by_tree(func_content),
        }
    }
}

} // verus!
