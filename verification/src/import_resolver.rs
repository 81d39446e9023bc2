//! Resolution of import statements to a table from each local symbol to
//! the module that defines it and the name it has there.

use crate::errors::BridgeError;
use crate::text::{
    begins_with, chars_of, find, find_from, finishes_with, slice, split, split_on, starts_with,
    ends_with, string_of, strip, stripped, trim, trimmed, views,
};
use vstd::prelude::*;
use vstd::string::*;

verus! {

/// One imported symbol: the local name, the defining module, and the name
/// that the symbol has in that module.
#[derive(Debug, Clone)]
pub struct Symbol {
    pub local: String,
    pub module: String,
    pub name: String,
}

/// What a symbol table says: local symbol to (module, name in that module).
pub type SymbolMap = Map<Seq<char>, (Seq<char>, Seq<char>)>;

/// The table of symbols of one file. No local name stands in it twice.
#[derive(Debug, Clone)]
pub struct SymbolTable {
    pub entries: Vec<Symbol>,
}

/// Import mapping from short name to full module path.
#[derive(Debug, Clone)]
pub struct ImportMap {
    pub symbols: SymbolTable,
}

/// The first entry for `key` among `es`, if any.
pub open spec fn lookup(es: Seq<Symbol>, key: Seq<char>) -> Option<(Seq<char>, Seq<char>)>
    decreases es.len(),
{
    if es.len() == 0 {
        None
    } else if es[0].local@ == key {
        Some((es[0].module@, es[0].name@))
    } else {
        lookup(es.drop_first(), key)
    }
}

/// What a list of entries says: under each local name the first entry for it.
pub open spec fn table_of(es: Seq<Symbol>) -> SymbolMap {
    Map::new(|k: Seq<char>| lookup(es, k) is Some, |k: Seq<char>| lookup(es, k).unwrap())
}

/// No two entries have the same local name.
pub open spec fn distinct_locals(es: Seq<Symbol>) -> bool {
    forall|i: int, j: int| 0 <= i < j < es.len() ==> es[i].local@ != es[j].local@
}

/// The first entry for a key is the one that is looked up.
pub proof fn lemma_lookup_at(es: Seq<Symbol>, key: Seq<char>, i: int)
    requires
        0 <= i < es.len(),
        es[i].local@ == key,
        forall|j: int| 0 <= j < i ==> es[j].local@ != key,
    ensures
        lookup(es, key) == Some((es[i].module@, es[i].name@)),
    decreases i,
{
    if i > 0 {
        lemma_lookup_at(es.drop_first(), key, i - 1);
    }
}

/// A key that no entry has is not looked up.
pub proof fn lemma_lookup_none(es: Seq<Symbol>, key: Seq<char>)
    requires
        forall|j: int| 0 <= j < es.len() ==> es[j].local@ != key,
    ensures
        lookup(es, key) is None,
    decreases es.len(),
{
    if es.len() > 0 {
        lemma_lookup_none(es.drop_first(), key);
    }
}

/// Replacing the entry at `i`, whose key is the first of its kind, changes
/// what is looked up under that key and nothing else.
pub proof fn lemma_lookup_update(es: Seq<Symbol>, i: int, e: Symbol, k: Seq<char>)
    requires
        0 <= i < es.len(),
        es[i].local@ == e.local@,
        forall|j: int| 0 <= j < i ==> es[j].local@ != e.local@,
    ensures
        lookup(es.update(i, e), k) == if k == e.local@ {
            Some((e.module@, e.name@))
        } else {
            lookup(es, k)
        },
    decreases i,
{
    let es2 = es.update(i, e);
    if i == 0 {
        assert(es2.drop_first() =~= es.drop_first());
    } else {
        assert(es2.drop_first() =~= es.drop_first().update(i - 1, e));
        lemma_lookup_update(es.drop_first(), i - 1, e, k);
    }
}

/// Appending an entry whose key is new changes what is looked up under
/// that key and nothing else.
pub proof fn lemma_lookup_push(es: Seq<Symbol>, e: Symbol, k: Seq<char>)
    requires
        forall|j: int| 0 <= j < es.len() ==> es[j].local@ != e.local@,
    ensures
        lookup(es.push(e), k) == if k == e.local@ {
            Some((e.module@, e.name@))
        } else {
            lookup(es, k)
        },
    decreases es.len(),
{
    if es.len() == 0 {
        assert(es.push(e).drop_first() =~= es);
    } else {
        assert(es.push(e).drop_first() =~= es.drop_first().push(e));
        lemma_lookup_push(es.drop_first(), e, k);
    }
}

impl View for SymbolTable {
    type V = SymbolMap;

    open spec fn view(&self) -> SymbolMap {
        table_of(self.entries@)
    }
}

impl SymbolTable {
    /// No local name stands in the table twice.
    pub open spec fn wf(&self) -> bool {
        distinct_locals(self.entries@)
    }

    /// An empty table.
    pub fn new() -> (r: SymbolTable)
        ensures
            r.wf(),
            r@ == SymbolMap::empty(),
            r.entries@.len() == 0,
    {
        let r = SymbolTable { entries: Vec::new() };
        assert(r@ =~= SymbolMap::empty());
        r
    }

    /// Whether no local name stands in the table twice.
    pub fn is_well_formed(&self) -> (r: bool)
        ensures
            r == self.wf(),
    {
        let mut j: usize = 0;
        while j < self.entries.len()
            invariant
                j <= self.entries@.len(),
                forall|a: int, b: int|
                    0 <= a < b < j ==> self.entries@[a].local@ != self.entries@[b].local@,
            decreases self.entries@.len() - j,
        {
            let mut i: usize = 0;
            while i < j
                invariant
                    i <= j < self.entries@.len(),
                    forall|a: int|
                        0 <= a < i ==> self.entries@[a].local@ != self.entries@[j as int].local@,
                decreases j - i,
            {
                if self.entries[i].local == self.entries[j].local {
                    return false;
                }
                i += 1;
            }
            j += 1;
        }
        true
    }

    /// The place of the entry for `key`.
    pub fn position(&self, key: &str) -> (r: Option<usize>)
        ensures
            match r {
                Some(i) => i < self.entries@.len() && self.entries@[i as int].local@ == key@
                    && self@.contains_key(key@) && self@[key@] == (
                    self.entries@[i as int].module@,
                    self.entries@[i as int].name@,
                ) && forall|j: int| 0 <= j < i ==> self.entries@[j].local@ != key@,
                None => !self@.contains_key(key@) && forall|j: int|
                    0 <= j < self.entries@.len() ==> self.entries@[j].local@ != key@,
            },
    {
        let k = String::from_str(key);
        let mut i: usize = 0;
        while i < self.entries.len()
            invariant
                i <= self.entries@.len(),
                k@ == key@,
                forall|j: int| 0 <= j < i ==> self.entries@[j].local@ != key@,
            decreases self.entries@.len() - i,
        {
            if self.entries[i].local == k {
                proof {
                    lemma_lookup_at(self.entries@, key@, i as int);
                }
                return Some(i);
            }
            i += 1;
        }
        proof {
            lemma_lookup_none(self.entries@, key@);
        }
        None
    }

    /// Binds `local` to `(module, name)`; an earlier binding of `local` is
    /// overwritten.
    pub fn insert(&mut self, local: String, module: String, name: String)
        requires
            old(self).wf(),
        ensures
            final(self).wf(),
            final(self)@ == old(self)@.insert(local@, (module@, name@)),
    {
        let ghost before = self.entries@;
        let ghost key = local@;
        let found = self.position(local.as_str());
        let e = Symbol { local, module, name };
        match found {
            Some(i) => {
                proof {
                    assert forall|k: Seq<char>| #[trigger]
                        lookup(before.update(i as int, e), k) == if k == key {
                            Some((e.module@, e.name@))
                        } else {
                            lookup(before, k)
                        } by {
                        lemma_lookup_update(before, i as int, e, k);
                    }
                }
                self.entries[i] = e;
                assert(self.entries@ == before.update(i as int, e));
            },
            None => {
                proof {
                    assert forall|k: Seq<char>| #[trigger]
                        lookup(before.push(e), k) == if k == key {
                            Some((e.module@, e.name@))
                        } else {
                            lookup(before, k)
                        } by {
                        lemma_lookup_push(before, e, k);
                    }
                }
                self.entries.push(e);
            },
        }
        assert(self@ =~= old(self)@.insert(key, (e.module@, e.name@)));
    }

    /// Whether a local name is bound.
    pub fn contains_key(&self, key: &str) -> (r: bool)
        ensures
            r == self@.contains_key(key@),
    {
        self.position(key).is_some()
    }

    /// The entry bound to `key`.
    pub fn get(&self, key: &str) -> (r: Option<&Symbol>)
        ensures
            r is Some == self@.contains_key(key@),
            r is Some ==> self@[key@] == (r.unwrap().module@, r.unwrap().name@) && r.unwrap().local@
                == key@,
    {
        match self.position(key) {
            Some(i) => Some(&self.entries[i]),
            None => None,
        }
    }

    /// The number of symbols bound.
    pub fn len(&self) -> (r: usize)
        ensures
            r == self.entries@.len(),
    {
        self.entries.len()
    }

    /// Whether nothing is bound.
    pub fn is_empty(&self) -> (r: bool)
        ensures
            r == (self.entries@.len() == 0),
            r == (self@ == SymbolMap::empty()),
            r == (forall|k: Seq<char>| !self@.contains_key(k)),
    {
        proof {
            if self.entries@.len() > 0 {
                assert(lookup(self.entries@, self.entries@[0].local@) is Some);
                assert(self@.contains_key(self.entries@[0].local@));
            } else {
                assert(self@ =~= SymbolMap::empty());
            }
        }
        self.entries.len() == 0
    }
}

/// The name that an import item binds locally, and the name it has in its
/// module: `B as C` binds `C` to `B`; a plain name binds itself.
pub open spec fn item_names(item: Seq<char>) -> (Seq<char>, Seq<char>) {
    match find_from(item, " as "@, 0) {
        Some(i) if 0 <= i && i + 4 <= item.len() => (
            trim(strip(trim(item.subrange(i + 4, item.len() as int)))),
            trim(strip(trim(item.subrange(0, i)))),
        ),
        _ => (trim(strip(item)), trim(strip(item))),
    }
}

/// Whether an import item binds anything: an empty item, a line
/// continuation, and a name that is empty or a comment bind nothing.
pub open spec fn item_binds(item: Seq<char>) -> bool {
    item.len() > 0 && !ends_with(item, "\\"@) && item_names(item).0.len() > 0 && !starts_with(
        item_names(item).0,
        "#"@,
    )
}

/// The table after the first `n` items of an import list from `module`.
pub open spec fn items_table(t: SymbolMap, module: Seq<char>, items: Seq<Seq<char>>, n: int)
    -> SymbolMap
    decreases n,
{
    if n <= 0 || n > items.len() {
        t
    } else {
        let before = items_table(t, module, items, n - 1);
        let item = trim(items[n - 1]);
        if item_binds(item) {
            before.insert(item_names(item).0, (module, item_names(item).1))
        } else {
            before
        }
    }
}

/// The table after one more line.
pub open spec fn line_table(t: SymbolMap, raw: Seq<char>) -> SymbolMap {
    let line = trim(raw);
    if !starts_with(line, "from "@) {
        t
    } else {
        match find_from(line, " import "@, 0) {
            Some(i) if 5 <= i && i + 8 <= line.len() => {
                let items = split(line.subrange(i + 8, line.len() as int), ',');
                items_table(t, trim(line.subrange(5, i)), items, items.len() as int)
            },
            _ => t,
        }
    }
}

/// The table after the first `n` lines.
pub open spec fn lines_table(lines: Seq<Seq<char>>, n: int) -> SymbolMap
    decreases n,
{
    if n <= 0 || n > lines.len() {
        SymbolMap::empty()
    } else {
        line_table(lines_table(lines, n - 1), lines[n - 1])
    }
}

/// The symbol table of a file: every single-line statement
/// `from MODULE import NAME[, NAME...]` binds each name it lists, a later
/// binding of a name replacing an earlier one.
pub open spec fn import_table(content: Seq<char>) -> SymbolMap {
    lines_table(split(content, '\n'), split(content, '\n').len() as int)
}

fn add_line(table: &mut SymbolTable, raw: &[char])
    requires
        old(table).wf(),
    ensures
        final(table).wf(),
        final(table)@ == line_table(old(table)@, raw@),
{
    let line = trimmed(raw);
    let from_kw = chars_of("from ");
    let import_kw = chars_of(" import ");
    let as_kw = chars_of(" as ");
    let cont = chars_of("\\");
    let hash = chars_of("#");
    proof {
        reveal_strlit("from ");
        reveal_strlit(" import ");
        reveal_strlit(" as ");
        assert(import_kw@.len() == 8);
        assert(from_kw@.len() == 5);
        assert(as_kw@.len() == 4);
    }
    if !begins_with(line.as_slice(), from_kw.as_slice()) {
        return ;
    }
    match find(line.as_slice(), import_kw.as_slice(), 0) {
        Some(i) => {
            if i < 5 {
                return ;
            }
            let module = trimmed(slice(line.as_slice(), 5, i).as_slice());
            let end: usize = line.len();
            let rest = slice(line.as_slice(), i + 8, end);
            let items = split_on(rest.as_slice(), ',');
            let ghost start = table@;
            let ghost its = views(items@);
            let mut n: usize = 0;
            while n < items.len()
                invariant
                    n <= items@.len(),
                    its == views(items@),
                    table.wf(),
                    table@ == items_table(start, module@, its, n as int),
                    as_kw@ == " as "@,
                    cont@ == "\\"@,
                    hash@ == "#"@,
                    " as "@.len() == 4,
                decreases items@.len() - n,
            {
                let item = trimmed(items[n].as_slice());
                assert(item@ == trim(its[n as int]));
                n += 1;
                if item.len() == 0 || finishes_with(item.as_slice(), cont.as_slice()) {
                    continue ;
                }
                let (local, name) = match find(item.as_slice(), as_kw.as_slice(), 0) {
                    Some(a) => (
                        trimmed(
                            stripped(
                                trimmed(slice(item.as_slice(), a + 4, item.len()).as_slice()).as_slice(),
                            ).as_slice(),
                        ),
                        trimmed(
                            stripped(trimmed(slice(item.as_slice(), 0, a).as_slice()).as_slice()).as_slice(),
                        ),
                    ),
                    None => (
                        trimmed(stripped(item.as_slice()).as_slice()),
                        trimmed(stripped(item.as_slice()).as_slice()),
                    ),
                };
                assert(local@ == item_names(item@).0);
                assert(name@ == item_names(item@).1);
                if local.len() == 0 || begins_with(local.as_slice(), hash.as_slice()) {
                    continue ;
                }
                table.insert(
                    string_of(local.as_slice()),
                    string_of(module.as_slice()),
                    string_of(name.as_slice()),
                );
            }
        },
        None => {},
    }
}

/// Build import map from import statements.
pub fn build_import_map(func_content: &str) -> (r: Result<ImportMap, BridgeError>)
    ensures
        r is Ok,
        r.unwrap().symbols.wf(),
        r.unwrap().symbols@ == import_table(func_content@),
{
    let content = chars_of(func_content);
    let lines = split_on(content.as_slice(), '\n');
    let mut table = SymbolTable::new();
    let mut n: usize = 0;
    while n < lines.len()
        invariant
            n <= lines@.len(),
            table.wf(),
            table@ == lines_table(views(lines@), n as int),
        decreases lines@.len() - n,
    {
        add_line(&mut table, lines[n].as_slice());
        n += 1;
    }
    Ok(ImportMap { symbols: table })
}

} // verus!
