//! Which packages become orphans when a package is removed.

use crate::plugin_manifest::{Plugin, PluginEntry, PluginManifest};
use crate::text::{lists, texts};
use vstd::prelude::*;
use vstd::string::*;

verus! {

/// Whether a plugin was installed explicitly, as part of the package `d`.
pub open spec fn explicit_of(p: Plugin, d: Seq<char>) -> bool {
    &&& p.package_name matches Some(n) && n@ == d
    &&& p.install_type matches Some(t) && t@ == "explicit"@
}

/// The installer of a plugin of the package `d` that was installed as a
/// dependency, where it has one.
pub open spec fn installer_of(p: Plugin, d: Seq<char>) -> Option<Seq<char>> {
    if (p.package_name matches Some(n) && n@ == d) && (p.install_type matches Some(t) && t@
        == "dependency"@) {
        match p.installed_by {
            Some(b) => Some(b@),
            None => None,
        }
    } else {
        None
    }
}

/// Whether the package `d` is needed once `package` is gone: a plugin of
/// it was installed explicitly, or as a dependency of another package.
pub open spec fn still_needed(es: Seq<PluginEntry>, package: Seq<char>, d: Seq<char>) -> bool {
    exists|i: int|
        0 <= i < es.len() && (explicit_of((#[trigger] es[i]).plugin, d) || (installer_of(
            es[i].plugin,
            d,
        ) matches Some(b) && b != package))
}

/// Whether `package` brought the package `d` in as a dependency.
pub open spec fn brought_in(es: Seq<PluginEntry>, package: Seq<char>, d: Seq<char>) -> bool {
    exists|i: int| 0 <= i < es.len() && installer_of((#[trigger] es[i]).plugin, d) == Some(package)
}

/// A package that becomes an orphan when `package` is removed: `package`
/// brought it in, and nothing else needs it.
pub open spec fn orphaned(es: Seq<PluginEntry>, package: Seq<char>, d: Seq<char>) -> bool {
    brought_in(es, package, d) && !still_needed(es, package, d)
}

fn text_is(o: &Option<String>, want: &String) -> (r: bool)
    ensures
        r == (*o matches Some(s) && s@ == want@),
{
    match o {
        Some(s) => *s == *want,
        None => false,
    }
}

fn is_still_needed(manifest: &PluginManifest, package: &String, d: &String) -> (r: bool)
    ensures
        r == still_needed(manifest.plugins@, package@, d@),
{
    let explicit = String::from_str("explicit");
    let dependency = String::from_str("dependency");
    let mut i: usize = 0;
    while i < manifest.plugins.len()
        invariant
            i <= manifest.plugins@.len(),
            explicit@ == "explicit"@,
            dependency@ == "dependency"@,
            forall|j: int|
                0 <= j < i ==> !(explicit_of((#[trigger] manifest.plugins@[j]).plugin, d@) || (
                installer_of(manifest.plugins@[j].plugin, d@) matches Some(b) && b != package@)),
        decreases manifest.plugins@.len() - i,
    {
        let p = &manifest.plugins[i].plugin;
        if text_is(&p.package_name, d) {
            if text_is(&p.install_type, &explicit) {
                return true;
            }
            if text_is(&p.install_type, &dependency) {
                match &p.installed_by {
                    Some(b) => {
                        if *b != *package {
                            return true;
                        }
                    },
                    None => {},
                }
            }
        }
        i += 1;
    }
    false
}

/// The package of the entry at `k`, where `package` brought that entry in
/// as a dependency.
pub open spec fn brought_at(es: Seq<PluginEntry>, package: Seq<char>, k: int) -> Option<Seq<char>> {
    match es[k].plugin.package_name {
        Some(d) => if installer_of(es[k].plugin, d@) == Some(package) {
            Some(d@)
        } else {
            None
        },
        None => None,
    }
}

/// The orphans among the packages of the first `n` entries, each where
/// the manifest first names it.
pub open spec fn orphans_among(es: Seq<PluginEntry>, package: Seq<char>, n: int) -> Seq<Seq<char>>
    decreases n,
{
    if n <= 0 || n > es.len() {
        Seq::empty()
    } else {
        let prev = orphans_among(es, package, n - 1);
        match brought_at(es, package, n - 1) {
            Some(d) => if !still_needed(es, package, d) && !prev.contains(d) {
                prev.push(d)
            } else {
                prev
            },
            None => prev,
        }
    }
}

/// Find the dependencies that would become orphans if a package were
/// removed: each once, in the order in which the manifest first names
/// them.
pub fn find_orphaned_dependencies(manifest: &PluginManifest, package: &str) -> (r: Vec<String>)
    ensures
        forall|d: Seq<char>|
            texts(r@).contains(d) <==> orphaned(manifest.plugins@, package@, d),
        forall|i: int, j: int| 0 <= i < j < r@.len() ==> r@[i]@ != r@[j]@,
        texts(r@) == orphans_among(manifest.plugins@, package@, manifest.plugins@.len() as int),
{
    let pkg = String::from_str(package);
    let dependency = String::from_str("dependency");
    let ghost es = manifest.plugins@;
    let mut out: Vec<String> = Vec::new();
    let mut i: usize = 0;
    while i < manifest.plugins.len()
        invariant
            i <= manifest.plugins@.len(),
            es == manifest.plugins@,
            pkg@ == package@,
            dependency@ == "dependency"@,
            forall|d: Seq<char>|
                texts(out@).contains(d) <==> (!still_needed(es, package@, d) && exists|k: int|
                    0 <= k < i && installer_of((#[trigger] es[k]).plugin, d) == Some(package@)),
            forall|a: int, b: int| 0 <= a < b < out@.len() ==> out@[a]@ != out@[b]@,
            texts(out@) == orphans_among(es, package@, i as int),
        decreases manifest.plugins@.len() - i,
    {
        let p = &manifest.plugins[i].plugin;
        let ghost before = texts(out@);
        let mut added = false;
        let ghost mut name: Seq<char> = Seq::empty();
        match &p.package_name {
            Some(d) => {
                if text_is(&p.install_type, &dependency) && text_is(&p.installed_by, &pkg) {
                    assert(installer_of(es[i as int].plugin, d@) == Some(package@));
                    if !is_still_needed(manifest, &pkg, d) && !lists(&out, d) {
                        let copy = d.clone();
                        proof {
                            name = d@;
                            assert(texts(out@.push(copy)) =~= before.push(d@));
                            assert forall|a: int, b: int|
                                0 <= a < b < out@.push(copy).len() implies out@.push(copy)[a]@
                                != out@.push(copy)[b]@ by {
                                if b == out@.len() {
                                    assert(before[a] == out@[a]@);
                                }
                            }
                        }
                        out.push(copy);
                        added = true;
                    }
                }
            },
            None => {},
        }
        proof {
            assert forall|d: Seq<char>|
                texts(out@).contains(d) <==> (!still_needed(es, package@, d) && exists|k: int|
                    0 <= k < i + 1 && installer_of((#[trigger] es[k]).plugin, d) == Some(
                        package@,
                    )) by {
                let here = installer_of(es[i as int].plugin, d) == Some(package@);
                if texts(out@).contains(d) {
                    if before.contains(d) {
                        let k = choose|k: int|
                            0 <= k < i && installer_of((#[trigger] es[k]).plugin, d) == Some(
                                package@,
                            );
                        assert(0 <= k < i + 1);
                    } else {
                        assert(added);
                        let w = choose|w: int| 0 <= w < texts(out@).len() && texts(out@)[w] == d;
                        if w < before.len() {
                            assert(before[w] == d);
                        }
                        assert(d == name);
                        assert(installer_of(es[i as int].plugin, d) == Some(package@));
                    }
                }
                if !still_needed(es, package@, d) && exists|k: int|
                    0 <= k < i + 1 && installer_of((#[trigger] es[k]).plugin, d) == Some(
                        package@,
                    ) {
                    let k = choose|k: int|
                        0 <= k < i + 1 && installer_of((#[trigger] es[k]).plugin, d) == Some(
                            package@,
                        );
                    if k < i {
                        assert(before.contains(d));
                        let w = choose|w: int| 0 <= w < before.len() && before[w] == d;
                        assert(texts(out@)[w] == d);
                    } else {
                        assert(here);
                        if added {
                            assert(texts(out@)[out@.len() - 1] == d);
                        } else {
                            assert(before.contains(d));
                        }
                    }
                }
            }
        }
        i += 1;
    }
    proof {
        assert forall|d: Seq<char>|
            texts(out@).contains(d) <==> orphaned(es, package@, d) by {
            if brought_in(es, package@, d) {
                let k = choose|k: int|
                    0 <= k < es.len() && installer_of((#[trigger] es[k]).plugin, d) == Some(
                        package@,
                    );
                assert(0 <= k < i);
            }
        }
    }
    out
}

} // verus!
