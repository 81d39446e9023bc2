//! The registry of installed plugins, by name.

use crate::records::{CallableMetadata, Parameter};
use vstd::prelude::*;
use vstd::string::*;

verus! {

/// Errors that can occur during plugin manifest operations.
#[derive(Debug)]
pub enum ManifestError {
    Io(String),
    Parse(String),
    Serialize(String),
    InvalidPlugin(String),
}

impl ManifestError {
    /// The text of the error, as shown to a user.
    pub open spec fn text(&self) -> Seq<char> {
        match self {
            ManifestError::Io(m) => "IO error: "@ + m@,
            ManifestError::Parse(m) => "Failed to parse manifest: "@ + m@,
            ManifestError::Serialize(m) => "Failed to serialize manifest: "@ + m@,
            ManifestError::InvalidPlugin(m) => "Invalid plugin: "@ + m@,
        }
    }

    /// The text of the error.
    #[allow(clippy::inherent_to_string)]
    pub fn to_string(&self) -> (r: String)
        ensures
            r@ == self.text(),
    {
        match self {
            ManifestError::Io(m) => String::from_str("IO error: ").concat(m.as_str()),
            ManifestError::Parse(m) => String::from_str("Failed to parse manifest: ").concat(
                m.as_str(),
            ),
            ManifestError::Serialize(m) => String::from_str(
                "Failed to serialize manifest: ",
            ).concat(m.as_str()),
            ManifestError::InvalidPlugin(m) => String::from_str("Invalid plugin: ").concat(
                m.as_str(),
            ),
        }
    }
}

/// Configuration schema metadata.
#[derive(Debug, Clone)]
pub struct ConfigMetadata {
    pub module: String,
    pub name: String,
    pub return_annotation: Option<String>,
    pub parameters: Vec<Parameter>,
}

/// Upgrader-specific metadata.
#[derive(Debug, Clone)]
pub struct UpgraderMetadata {
    pub version_strategy_json: Option<String>,
    pub version_reader_json: Option<String>,
    pub upgrade_steps_json: Option<String>,
}

/// Plugin metadata. The name of the plugin is the key under which the
/// manifest holds it.
#[derive(Debug, Clone)]
pub struct Plugin {
    pub package_name: Option<String>,
    pub plugin_type: Option<String>,
    pub description: Option<String>,
    pub doc: Option<String>,
    pub io_type: Option<String>,
    pub call_method: Option<String>,
    pub requires_store: Option<bool>,
    pub obj: Option<CallableMetadata>,
    pub config: Option<ConfigMetadata>,
    pub upgrader: Option<UpgraderMetadata>,
    pub install_type: Option<String>,
    pub installed_by: Option<String>,
}

impl Plugin {
    /// Whether the plugin belongs to the package of the given name.
    pub open spec fn belongs_to(&self, package_name: Seq<char>) -> bool {
        self.package_name matches Some(p) && p@ == package_name
    }

    /// Validate plugin metadata: every field is optional, so every plugin
    /// is valid.
    pub fn validate(&self, _name: &str) -> (r: Result<(), ManifestError>)
        ensures
            r is Ok,
    {
        Ok(())
    }
}

/// One plugin under its name.
#[derive(Debug, Clone)]
pub struct PluginEntry {
    pub name: String,
    pub plugin: Plugin,
}

/// What a manifest holds: plugins by name.
pub type PluginMap = Map<Seq<char>, Plugin>;

/// Plugin registry manifest. No name stands in it twice.
#[derive(Debug, Clone)]
pub struct PluginManifest {
    pub plugins: Vec<PluginEntry>,
}

/// The first plugin named `key` among `es`, if any.
pub open spec fn lookup(es: Seq<PluginEntry>, key: Seq<char>) -> Option<Plugin>
    decreases es.len(),
{
    if es.len() == 0 {
        None
    } else if es[0].name@ == key {
        Some(es[0].plugin)
    } else {
        lookup(es.drop_first(), key)
    }
}

/// No two entries have the same name.
pub open spec fn distinct_names(es: Seq<PluginEntry>) -> bool {
    forall|i: int, j: int| 0 <= i < j < es.len() ==> es[i].name@ != es[j].name@
}

/// The entries among the first `n` that do not belong to a package.
pub open spec fn kept(es: Seq<PluginEntry>, package_name: Seq<char>, n: int) -> Seq<PluginEntry>
    decreases n,
{
    if n <= 0 || n > es.len() {
        Seq::empty()
    } else if es[n - 1].plugin.belongs_to(package_name) {
        kept(es, package_name, n - 1)
    } else {
        kept(es, package_name, n - 1).push(es[n - 1])
    }
}

/// The first entry of a name is the one that is looked up.
pub proof fn lemma_lookup_at(es: Seq<PluginEntry>, key: Seq<char>, i: int)
    requires
        0 <= i < es.len(),
        es[i].name@ == key,
        forall|j: int| 0 <= j < i ==> es[j].name@ != key,
    ensures
        lookup(es, key) == Some(es[i].plugin),
    decreases i,
{
    if i > 0 {
        lemma_lookup_at(es.drop_first(), key, i - 1);
    }
}

/// A name that no entry has is not looked up.
pub proof fn lemma_lookup_none(es: Seq<PluginEntry>, key: Seq<char>)
    requires
        forall|j: int| 0 <= j < es.len() ==> es[j].name@ != key,
    ensures
        lookup(es, key) is None,
    decreases es.len(),
{
    if es.len() > 0 {
        lemma_lookup_none(es.drop_first(), key);
    }
}

/// Replacing the entry at `i`, whose name is the first of its kind,
/// changes what is looked up under that name and nothing else.
pub proof fn lemma_lookup_update(es: Seq<PluginEntry>, i: int, e: PluginEntry, k: Seq<char>)
    requires
        0 <= i < es.len(),
        es[i].name@ == e.name@,
        forall|j: int| 0 <= j < i ==> es[j].name@ != e.name@,
    ensures
        lookup(es.update(i, e), k) == if k == e.name@ {
            Some(e.plugin)
        } else {
            lookup(es, k)
        },
    decreases i,
{
    let es2 = es.update(i, e);
    if i == 0 {
        assert(es2.drop_first() =~= es.drop_first());
    } else {
        assert(es2.drop_first() =~= es.drop_first().update(i - 1, e));
        lemma_lookup_update(es.drop_first(), i - 1, e, k);
    }
}

/// Appending an entry whose name is new changes what is looked up under
/// that name and nothing else.
pub proof fn lemma_lookup_push(es: Seq<PluginEntry>, e: PluginEntry, k: Seq<char>)
    requires
        forall|j: int| 0 <= j < es.len() ==> es[j].name@ != e.name@,
    ensures
        lookup(es.push(e), k) == if k == e.name@ {
            Some(e.plugin)
        } else {
            lookup(es, k)
        },
    decreases es.len(),
{
    if es.len() == 0 {
        assert(es.push(e).drop_first() =~= es);
    } else {
        assert(es.push(e).drop_first() =~= es.drop_first().push(e));
        lemma_lookup_push(es.drop_first(), e, k);
    }
}

/// Taking out the entry at `i` of a list without repeated names removes
/// what is looked up under its name and nothing else.
pub proof fn lemma_lookup_remove(es: Seq<PluginEntry>, i: int, k: Seq<char>)
    requires
        0 <= i < es.len(),
        distinct_names(es),
    ensures
        lookup(es.remove(i), k) == if k == es[i].name@ {
            None
        } else {
            lookup(es, k)
        },
    decreases es.len(),
{
    let r = es.remove(i);
    if i == 0 {
        assert(r =~= es.drop_first());
        if k == es[0].name@ {
            assert forall|j: int| 0 <= j < r.len() implies r[j].name@ != k by {
                assert(r[j] == es[j + 1]);
            }
            lemma_lookup_none(r, k);
        }
    } else {
        assert(r.drop_first() =~= es.drop_first().remove(i - 1));
        assert(r[0] == es[0]);
        assert(distinct_names(es.drop_first())) by {
            assert forall|a: int, b: int| 0 <= a < b < es.drop_first().len() implies es.drop_first()[a].name@
                != es.drop_first()[b].name@ by {
                assert(es.drop_first()[a] == es[a + 1]);
                assert(es.drop_first()[b] == es[b + 1]);
            }
        }
        lemma_lookup_remove(es.drop_first(), i - 1, k);
        assert(es.drop_first()[i - 1] == es[i]);
    }
}

impl View for PluginManifest {
    type V = PluginMap;

    open spec fn view(&self) -> PluginMap {
        Map::new(
            |k: Seq<char>| lookup(self.plugins@, k) is Some,
            |k: Seq<char>| lookup(self.plugins@, k).unwrap(),
        )
    }
}

impl Default for PluginManifest {
    fn default() -> (r: PluginManifest)
        ensures
            r.wf(),
            r.plugins@.len() == 0,
            r@ == PluginMap::empty(),
    {
        let r = PluginManifest { plugins: Vec::new() };
        assert(r@ =~= PluginMap::empty());
        r
    }
}

impl PluginManifest {
    /// No name stands in the manifest twice.
    pub open spec fn wf(&self) -> bool {
        distinct_names(self.plugins@)
    }

    /// Whether no name stands in the manifest twice.
    pub fn is_well_formed(&self) -> (r: bool)
        ensures
            r == self.wf(),
    {
        let mut j: usize = 0;
        while j < self.plugins.len()
            invariant
                j <= self.plugins@.len(),
                forall|a: int, b: int| 0 <= a < b < j ==> self.plugins@[a].name@ != self.plugins@[b].name@,
            decreases self.plugins@.len() - j,
        {
            let mut i: usize = 0;
            while i < j
                invariant
                    i <= j < self.plugins@.len(),
                    forall|a: int| 0 <= a < i ==> self.plugins@[a].name@ != self.plugins@[j as int].name@,
                decreases j - i,
            {
                if self.plugins[i].name == self.plugins[j].name {
                    return false;
                }
                i += 1;
            }
            j += 1;
        }
        true
    }

    fn position(&self, name: &str) -> (r: Option<usize>)
        ensures
            match r {
                Some(i) => i < self.plugins@.len() && self.plugins@[i as int].name@ == name@
                    && self@.contains_key(name@) && self@[name@] == self.plugins@[i as int].plugin
                    && forall|j: int| 0 <= j < i ==> self.plugins@[j].name@ != name@,
                None => !self@.contains_key(name@) && forall|j: int|
                    0 <= j < self.plugins@.len() ==> self.plugins@[j].name@ != name@,
            },
    {
        let k = String::from_str(name);
        let mut i: usize = 0;
        while i < self.plugins.len()
            invariant
                i <= self.plugins@.len(),
                k@ == name@,
                forall|j: int| 0 <= j < i ==> self.plugins@[j].name@ != name@,
            decreases self.plugins@.len() - i,
        {
            if self.plugins[i].name == k {
                proof {
                    lemma_lookup_at(self.plugins@, name@, i as int);
                }
                return Some(i);
            }
            i += 1;
        }
        proof {
            lemma_lookup_none(self.plugins@, name@);
        }
        None
    }

    /// Add or update a plugin in the manifest.
    pub fn add_plugin(&mut self, name: String, plugin: Plugin) -> (r: Result<(), ManifestError>)
        requires
            old(self).wf(),
        ensures
            r is Ok,
            final(self).wf(),
            final(self)@ == old(self)@.insert(name@, plugin),
    {
        let ghost before = self.plugins@;
        let ghost key = name@;
        let found = self.position(name.as_str());
        let e = PluginEntry { name, plugin };
        match found {
            Some(i) => {
                proof {
                    assert forall|k: Seq<char>| #[trigger]
                        lookup(before.update(i as int, e), k) == if k == key {
                            Some(e.plugin)
                        } else {
                            lookup(before, k)
                        } by {
                        lemma_lookup_update(before, i as int, e, k);
                    }
                }
                self.plugins[i] = e;
                assert(self.plugins@ == before.update(i as int, e));
            },
            None => {
                proof {
                    assert forall|k: Seq<char>| #[trigger]
                        lookup(before.push(e), k) == if k == key {
                            Some(e.plugin)
                        } else {
                            lookup(before, k)
                        } by {
                        lemma_lookup_push(before, e, k);
                    }
                }
                self.plugins.push(e);
            },
        }
        assert(self@ =~= old(self)@.insert(key, e.plugin));
        Ok(())
    }

    /// Remove a plugin from the manifest; says whether it was there.
    pub fn remove_plugin(&mut self, name: &str) -> (r: bool)
        requires
            old(self).wf(),
        ensures
            final(self).wf(),
            r == old(self)@.contains_key(name@),
            final(self)@ == old(self)@.remove(name@),
    {
        let ghost before = self.plugins@;
        match self.position(name) {
            Some(i) => {
                proof {
                    assert forall|k: Seq<char>| #[trigger]
                        lookup(before.remove(i as int), k) == if k == name@ {
                            None
                        } else {
                            lookup(before, k)
                        } by {
                        lemma_lookup_remove(before, i as int, k);
                    }
                }
                self.plugins.remove(i);
                assert(self.plugins@ == before.remove(i as int));
                assert(self@ =~= old(self)@.remove(name@));
                true
            },
            None => {
                assert(self@ =~= old(self)@.remove(name@));
                false
            },
        }
    }

    /// Remove all plugins that belong to a package; returns how many were
    /// removed. The others stay, in their order.
    pub fn remove_plugins_by_package(&mut self, package_name: &str) -> (count: usize)
        requires
            old(self).wf(),
        ensures
            final(self).wf(),
            final(self).plugins@ == kept(
                old(self).plugins@,
                package_name@,
                old(self).plugins@.len() as int,
            ),
            count == old(self).plugins@.len() - final(self).plugins@.len(),
    {
        let pkg = String::from_str(package_name);
        let ghost orig = self.plugins@;
        let ghost total = orig.len() as int;
        let initial: usize = self.plugins.len();
        let mut i: usize = 0;
        let mut count: usize = 0;
        let ghost mut j: int = 0;
        assert(self.plugins@ =~= kept(orig, package_name@, 0) + orig.subrange(0, total));
        while i < self.plugins.len()
            invariant
                pkg@ == package_name@,
                total == orig.len(),
                total == initial,
                0 <= j <= total,
                j < total || i == self.plugins@.len(),
                i + count == j,
                i == kept(orig, package_name@, j).len(),
                self.plugins@ == kept(orig, package_name@, j) + orig.subrange(j, total),
                self.wf(),
            decreases total - j,
        {
            let ghost cur = self.plugins@;
            assert(cur[i as int] == orig[j]);
            let belongs = match &self.plugins[i].plugin.package_name {
                Some(p) => *p == pkg,
                None => false,
            };
            if belongs {
                self.plugins.remove(i);
                proof {
                    assert(self.plugins@ =~= kept(orig, package_name@, j + 1) + orig.subrange(
                        j + 1,
                        total,
                    ));
                    assert forall|a: int, b: int| 0 <= a < b < self.plugins@.len() implies self.plugins@[a].name@
                        != self.plugins@[b].name@ by {
                        let a0 = if a < i { a } else { a + 1 };
                        let b0 = if b < i { b } else { b + 1 };
                        assert(self.plugins@[a] == cur[a0]);
                        assert(self.plugins@[b] == cur[b0]);
                    }
                }
                count += 1;
            } else {
                proof {
                    assert(self.plugins@ =~= kept(orig, package_name@, j + 1) + orig.subrange(
                        j + 1,
                        total,
                    ));
                }
                i += 1;
            }
            proof {
                j = j + 1;
            }
        }
        assert(self.plugins@ =~= kept(orig, package_name@, total)) by {
            assert(j == total);
        }
        count
    }

    /// Get a plugin by name.
    pub fn get_plugin(&self, name: &str) -> (r: Option<&Plugin>)
        ensures
            r is Some == self@.contains_key(name@),
            r is Some ==> *r.unwrap() == self@[name@],
    {
        match self.position(name) {
            Some(i) => Some(&self.plugins[i].plugin),
            None => None,
        }
    }

    /// List all plugins with their names.
    pub fn list_plugins(&self) -> (r: Vec<(&str, &Plugin)>)
        ensures
            r@.len() == self.plugins@.len(),
            forall|i: int|
                0 <= i < r@.len() ==> (#[trigger] r@[i]).0@ == self.plugins@[i].name@ && *r@[i].1
                    == self.plugins@[i].plugin,
    {
        let mut r: Vec<(&str, &Plugin)> = Vec::new();
        let mut i: usize = 0;
        while i < self.plugins.len()
            invariant
                i <= self.plugins@.len(),
                r@.len() == i,
                forall|k: int|
                    0 <= k < i ==> (#[trigger] r@[k]).0@ == self.plugins@[k].name@ && *r@[k].1
                        == self.plugins@[k].plugin,
            decreases self.plugins@.len() - i,
        {
            r.push((self.plugins[i].name.as_str(), &self.plugins[i].plugin));
            i += 1;
        }
        r
    }

    /// Check if the manifest has no plugins.
    pub fn is_empty(&self) -> (r: bool)
        ensures
            r == (self.plugins@.len() == 0),
            r == (self@ == PluginMap::empty()),
            r == (forall|k: Seq<char>| !self@.contains_key(k)),
    {
        proof {
            if self.plugins@.len() > 0 {
                assert(lookup(self.plugins@, self.plugins@[0].name@) is Some);
                assert(self@.contains_key(self.plugins@[0].name@));
            } else {
                assert(self@ =~= PluginMap::empty());
            }
        }
        self.plugins.len() == 0
    }

    /// Check if a specific plugin exists.
    pub fn has_plugin(&self, name: &str) -> (r: bool)
        ensures
            r == self@.contains_key(name@),
    {
        self.position(name).is_some()
    }
}

} // verus!
