//! Discovery of the plugins of a package from the text of its
//! registration file.

use crate::ast_parser::{extract_register_plugin_function, register_body, registration_calls};
use crate::errors::BridgeError;
use crate::import_resolver::{build_import_map, import_table};
use crate::json_builder::{all_resolved, distinct_names, extract_package, package_plugins};
use crate::plugin_manifest::{Plugin, PluginEntry, PluginManifest, PluginMap};
use crate::records::{plugins_view, sources_view, PackageRecord, SourceFile};
use crate::render::{package_json, render_package};
use crate::text::texts;
use crate::utils::{looks_like_r2x_plugin, plugin_like};
use vstd::prelude::*;
use vstd::string::*;

verus! {

/// Plugin discovery by static analysis.
pub struct AstDiscovery;

impl AstDiscovery {
    /// Discover the plugins of a package.
    ///
    /// `entry` is the text of the registration file and `sources` the
    /// source files of the package. The symbols come from the whole file,
    /// the registration calls from the body of the registration function.
    /// A file without that function, and a function without registration
    /// calls, are errors: there is no success without a call.
    pub fn discover_package(entry: &str, package_name_full: &str, sources: &Vec<SourceFile>) -> (r:
        Result<PackageRecord, BridgeError>)
        ensures
            match r {
                Ok(pkg) => {
                    &&& register_body(entry@) is Some
                    &&& registration_calls(register_body(entry@).unwrap()).len() > 0
                    &&& pkg.name@ == package_name_full@
                    &&& plugins_view(pkg.plugins@) == package_plugins(
                        register_body(entry@).unwrap(),
                        import_table(entry@),
                        sources_view(sources@),
                    )
                    &&& distinct_names(plugins_view(pkg.plugins@))
                    &&& all_resolved(plugins_view(pkg.plugins@))
                },
                Err(e) => {
                    &&& e.is_not_found()
                    &&& (register_body(entry@) is None || registration_calls(
                        register_body(entry@).unwrap(),
                    ).len() == 0)
                },
            },
    {
        let body = match extract_register_plugin_function(entry) {
            Ok(b) => b,
            Err(e) => {
                return Err(e);
            },
        };
        let import_map = match build_import_map(entry) {
            Ok(m) => m,
            Err(e) => {
                return Err(e);
            },
        };
        extract_package(body.as_str(), &import_map, package_name_full, sources)
    }

    /// Discover the plugins of a package, as the JSON document that is
    /// handed on.
    pub fn discover_plugins(entry: &str, package_name_full: &str, sources: &Vec<SourceFile>) -> (r:
        Result<String, BridgeError>)
        ensures
            match r {
                Ok(json) => {
                    &&& register_body(entry@) is Some
                    &&& registration_calls(register_body(entry@).unwrap()).len() > 0
                    &&& json@ == package_json(
                        package_name_full@,
                        package_plugins(
                            register_body(entry@).unwrap(),
                            import_table(entry@),
                            sources_view(sources@),
                        ),
                    )
                },
                Err(e) => {
                    &&& e.is_not_found()
                    &&& (register_body(entry@) is None || registration_calls(
                        register_body(entry@).unwrap(),
                    ).len() == 0)
                },
            },
    {
        match Self::discover_package(entry, package_name_full, sources) {
            Ok(pkg) => Ok(render_package(&pkg)),
            Err(e) => Err(e),
        }
    }
}

/// Options for plugin discovery and registration.
#[derive(Debug, Clone)]
pub struct DiscoveryOptions {
    pub package: String,
    pub package_name_full: String,
    pub dependencies: Vec<String>,
    pub package_version: Option<String>,
    pub no_cache: bool,
}

/// The dependencies among the first `n` that look like plugins.
pub open spec fn plugin_like_among(deps: Seq<Seq<char>>, n: int) -> Seq<Seq<char>>
    decreases n,
{
    if n <= 0 || n > deps.len() {
        Seq::empty()
    } else if plugin_like(deps[n - 1]) {
        plugin_like_among(deps, n - 1).push(deps[n - 1])
    } else {
        plugin_like_among(deps, n - 1)
    }
}

/// The dependencies that look like plugins, in their order.
pub fn plugin_dependencies(dependencies: &Vec<String>) -> (r: Vec<String>)
    ensures
        texts(r@) == plugin_like_among(texts(dependencies@), dependencies@.len() as int),
{
    let mut out: Vec<String> = Vec::new();
    let mut i: usize = 0;
    assert(texts(out@) =~= Seq::empty());
    while i < dependencies.len()
        invariant
            i <= dependencies@.len(),
            texts(out@) == plugin_like_among(texts(dependencies@), i as int),
        decreases dependencies@.len() - i,
    {
        assert(texts(dependencies@)[i as int] == dependencies@[i as int]@);
        if looks_like_r2x_plugin(dependencies[i].as_str()) {
            let d = dependencies[i].clone();
            assert(texts(out@.push(d)) =~= texts(out@).push(d@));
            out.push(d);
        }
        i += 1;
    }
    out
}

/// The names among the first `n` entries whose plugin belongs to a
/// package.
pub open spec fn names_of_package(es: Seq<PluginEntry>, package_name: Seq<char>, n: int) -> Seq<
    Seq<char>,
>
    decreases n,
{
    if n <= 0 || n > es.len() {
        Seq::empty()
    } else if es[n - 1].plugin.belongs_to(package_name) {
        names_of_package(es, package_name, n - 1).push(es[n - 1].name@)
    } else {
        names_of_package(es, package_name, n - 1)
    }
}

/// The names of the plugins that the manifest holds for a package: with
/// any, and unless the cache is switched off, discovery can be spared.
pub fn cached_plugins(manifest: &PluginManifest, package_name: &str) -> (r: Vec<String>)
    ensures
        texts(r@) == names_of_package(
            manifest.plugins@,
            package_name@,
            manifest.plugins@.len() as int,
        ),
{
    let pkg = String::from_str(package_name);
    let mut out: Vec<String> = Vec::new();
    let mut i: usize = 0;
    assert(texts(out@) =~= Seq::empty());
    while i < manifest.plugins.len()
        invariant
            i <= manifest.plugins@.len(),
            pkg@ == package_name@,
            texts(out@) == names_of_package(manifest.plugins@, package_name@, i as int),
        decreases manifest.plugins@.len() - i,
    {
        let belongs = match &manifest.plugins[i].plugin.package_name {
            Some(p) => *p == pkg,
            None => false,
        };
        if belongs {
            let name = manifest.plugins[i].name.clone();
            assert(texts(out@.push(name)) =~= texts(out@).push(name@));
            out.push(name);
        }
        i += 1;
    }
    out
}

/// Whether `new` is `old` marked as installed: with the install type and
/// the package, and with the installer where one is given; all else as it
/// was.
pub open spec fn marked(
    new: Plugin,
    old: Plugin,
    install_type: Seq<char>,
    package_name: Seq<char>,
    installed_by: Option<Seq<char>>,
) -> bool {
    &&& new.install_type matches Some(s) && s@ == install_type
    &&& new.package_name matches Some(s) && s@ == package_name
    &&& match installed_by {
        Some(b) => new.installed_by matches Some(s) && s@ == b,
        None => new.installed_by == old.installed_by,
    }
    &&& new.plugin_type == old.plugin_type
    &&& new.description == old.description
    &&& new.doc == old.doc
    &&& new.io_type == old.io_type
    &&& new.call_method == old.call_method
    &&& new.requires_store == old.requires_store
    &&& new.obj == old.obj
    &&& new.config == old.config
    &&& new.upgrader == old.upgrader
}

/// The place of the last entry named `k` among the first `n`.
pub open spec fn last_named(es: Seq<PluginEntry>, k: Seq<char>, n: int) -> Option<int>
    decreases n,
{
    if n <= 0 || n > es.len() {
        None
    } else if es[n - 1].name@ == k {
        Some(n - 1)
    } else {
        last_named(es, k, n - 1)
    }
}

/// The view of an optional string slice.
pub open spec fn opt_view(o: Option<&str>) -> Option<Seq<char>> {
    match o {
        Some(s) => Some(s@),
        None => None,
    }
}

/// Whether `after` is `before` with the entries registered: the names of
/// the entries are added; under each stands the plugin of the last entry
/// of that name, marked; what stood under other names stands as it was.
pub open spec fn registered(
    before: PluginMap,
    after: PluginMap,
    entries: Seq<PluginEntry>,
    install_type: Seq<char>,
    package_name: Seq<char>,
    installed_by: Option<Seq<char>>,
) -> bool {
    &&& forall|k: Seq<char>|
        after.contains_key(k) <==> before.contains_key(k) || (#[trigger] last_named(
            entries,
            k,
            entries.len() as int,
        )) is Some
    &&& forall|k: Seq<char>|
        (#[trigger] last_named(entries, k, entries.len() as int)) is None && before.contains_key(k)
            ==> after[k] == before[k]
    &&& forall|k: Seq<char>|
        (#[trigger] last_named(entries, k, entries.len() as int)) is Some ==> marked(
            after[k],
            entries[last_named(entries, k, entries.len() as int).unwrap()].plugin,
            install_type,
            package_name,
            installed_by,
        )
}

/// Registers plugins in the manifest, each marked with how it came to be
/// installed. Of two entries with one name the later stays; what the
/// manifest held under other names stays as it was. Returns how many
/// entries were registered.
pub fn register_plugins(
    manifest: &mut PluginManifest,
    entries: Vec<PluginEntry>,
    install_type: &str,
    package_name: &str,
    installed_by: Option<&str>,
) -> (count: usize)
    requires
        old(manifest).wf(),
    ensures
        final(manifest).wf(),
        count == entries@.len(),
        registered(
            old(manifest)@,
            final(manifest)@,
            entries@,
            install_type@,
            package_name@,
            opt_view(installed_by),
        ),
{
    let ghost es = entries@;
    let ghost before = manifest@;
    let total: usize = entries.len();
    let mut rest = entries;
    let mut i: usize = 0;
    while i < total
        invariant
            i <= total,
            total == es.len(),
            rest@ == es.subrange(i as int, total as int),
            manifest.wf(),
            forall|k: Seq<char>|
                manifest@.contains_key(k) <==> before.contains_key(k) || (#[trigger] last_named(
                    es,
                    k,
                    i as int,
                )) is Some,
            forall|k: Seq<char>|
                (#[trigger] last_named(es, k, i as int)) is None && before.contains_key(k)
                    ==> manifest@[k] == before[k],
            forall|k: Seq<char>|
                (#[trigger] last_named(es, k, i as int)) is Some ==> marked(
                    manifest@[k],
                    es[last_named(es, k, i as int).unwrap()].plugin,
                    install_type@,
                    package_name@,
                    opt_view(installed_by),
                ),
        decreases total - i,
    {
        let e = rest.remove(0);
        assert(e == es[i as int]);
        assert(rest@ =~= es.subrange(i + 1, total as int));
        let PluginEntry { name, plugin } = e;
        let mut plugin = plugin;
        plugin.install_type = Some(String::from_str(install_type));
        plugin.package_name = Some(String::from_str(package_name));
        match installed_by {
            Some(b) => {
                plugin.installed_by = Some(String::from_str(b));
            },
            None => {},
        }
        assert(marked(plugin, es[i as int].plugin, install_type@, package_name@, opt_view(installed_by)));
        let ghost prev = manifest@;
        let ghost key = name@;
        let _ = manifest.add_plugin(name, plugin);
        proof {
            assert forall|k: Seq<char>|
                manifest@.contains_key(k) <==> before.contains_key(k) || (#[trigger] last_named(
                    es,
                    k,
                    i + 1,
                )) is Some by {
                let earlier = last_named(es, k, i as int);
                assert(prev.contains_key(k) <==> before.contains_key(k) || earlier is Some);
            }
            assert forall|k: Seq<char>|
                (#[trigger] last_named(es, k, i + 1)) is None && before.contains_key(
                    k,
                ) implies manifest@[k] == before[k] by {
                let earlier = last_named(es, k, i as int);
                assert(earlier is None);
                assert(k != key);
            }
            assert forall|k: Seq<char>| (#[trigger] last_named(es, k, i + 1)) is Some implies marked(
                manifest@[k],
                es[last_named(es, k, i + 1).unwrap()].plugin,
                install_type@,
                package_name@,
                opt_view(installed_by),
            ) by {
                let earlier = last_named(es, k, i as int);
                if k != key {
                    assert(earlier is Some);
                }
            }
        }
        i += 1;
    }
    total
}

/// The plugins discovered in one dependency of a package.
#[derive(Debug, Clone)]
pub struct DependencyPlugins {
    pub package: String,
    pub entries: Vec<PluginEntry>,
}

/// How many plugins the first `n` dependencies bring: those of the
/// dependencies that look like plugins.
pub open spec fn dependency_total(deps: Seq<DependencyPlugins>, n: int) -> int
    decreases n,
{
    if n <= 0 || n > deps.len() {
        0
    } else if plugin_like(deps[n - 1].package@) {
        dependency_total(deps, n - 1) + deps[n - 1].entries@.len()
    } else {
        dependency_total(deps, n - 1)
    }
}

/// Whether `after` is `before` with the plugins of the first `n`
/// dependencies registered, one dependency after the other: those of a
/// dependency that looks like a plugin, marked as installed by
/// `installer`; of another dependency none.
pub open spec fn dependencies_registered(
    before: PluginMap,
    after: PluginMap,
    deps: Seq<DependencyPlugins>,
    installer: Seq<char>,
    n: int,
) -> bool
    decreases n,
{
    if n <= 0 || n > deps.len() {
        after == before
    } else if plugin_like(deps[n - 1].package@) {
        exists|mid: PluginMap| #[trigger]
            registered(
                mid,
                after,
                deps[n - 1].entries@,
                "dependency"@,
                deps[n - 1].package@,
                Some(installer),
            ) && dependencies_registered(before, mid, deps, installer, n - 1)
    } else {
        dependencies_registered(before, after, deps, installer, n - 1)
    }
}

/// Whether `after` is `before` after a discovery: the plugins of the
/// package registered as installed explicitly, then those of its
/// dependencies.
pub open spec fn discovery_registered(
    before: PluginMap,
    after: PluginMap,
    package: Seq<char>,
    entries: Seq<PluginEntry>,
    deps: Seq<DependencyPlugins>,
) -> bool {
    exists|mid: PluginMap|
        #[trigger] registered(before, mid, entries, "explicit"@, package, None)
            && dependencies_registered(mid, after, deps, package, deps.len() as int)
}

/// How many plugins a discovery registers: none where the package itself
/// has none; else its own and those of its dependencies.
pub open spec fn registered_total(entries: Seq<PluginEntry>, deps: Seq<DependencyPlugins>) -> int {
    if entries.len() == 0 {
        0
    } else {
        entries.len() + dependency_total(deps, deps.len() as int)
    }
}

/// Register the plugins discovered for a package, marked as installed
/// explicitly, and those discovered for its dependencies that look like
/// plugins, marked as installed by the package. A package without plugins
/// registers nothing. Returns how many plugins were registered; a count
/// beyond what the machine can hold is an error.
pub fn discover_and_register_entry_points_with_deps(
    manifest: &mut PluginManifest,
    opts: &DiscoveryOptions,
    entries: Vec<PluginEntry>,
    dependency_entries: Vec<DependencyPlugins>,
) -> (r: Result<usize, String>)
    requires
        old(manifest).wf(),
    ensures
        final(manifest).wf(),
        entries@.len() == 0 ==> r == Ok::<usize, String>(0) && *final(manifest) == *old(manifest),
        r matches Ok(total) ==> total == registered_total(entries@, dependency_entries@),
        r is Ok && entries@.len() > 0 ==> discovery_registered(
            old(manifest)@,
            final(manifest)@,
            opts.package_name_full@,
            entries@,
            dependency_entries@,
        ),
        r is Err ==> registered_total(entries@, dependency_entries@) > usize::MAX,
{
    if entries.len() == 0 {
        return Ok(0);
    }
    let ghost deps = dependency_entries@;
    let mut total: usize = register_plugins(
        manifest,
        entries,
        "explicit",
        opts.package_name_full.as_str(),
        None,
    );
    let ghost first = manifest@;
    let ghost package = opts.package_name_full@;
    let count: usize = dependency_entries.len();
    let mut rest = dependency_entries;
    let mut i: usize = 0;
    while i < count
        invariant
            i <= count,
            count == deps.len(),
            rest@ == deps.subrange(i as int, count as int),
            deps == dependency_entries@,
            entries@.len() > 0,
            manifest.wf(),
            total == entries@.len() + dependency_total(deps, i as int),
            package == opts.package_name_full@,
            registered(old(manifest)@, first, entries@, "explicit"@, package, None),
            dependencies_registered(first, manifest@, deps, package, i as int),
        decreases count - i,
    {
        let dep = rest.remove(0);
        assert(dep == deps[i as int]);
        assert(rest@ =~= deps.subrange(i + 1, count as int));
        let ghost mid = manifest@;
        let DependencyPlugins { package: dep_name, entries: found } = dep;
        if looks_like_r2x_plugin(dep_name.as_str()) {
            if found.len() > usize::MAX - total {
                proof {
                    lemma_total_grows(deps, i + 1, count as int);
                }
                return Err(String::from_str("too many plugins"));
            }
            let n = register_plugins(
                manifest,
                found,
                "dependency",
                dep_name.as_str(),
                Some(opts.package_name_full.as_str()),
            );
            total = total + n;
            assert(dependencies_registered(first, mid, deps, package, i as int));
            assert(registered(
                mid,
                manifest@,
                deps[i as int].entries@,
                "dependency"@,
                deps[i as int].package@,
                Some(package),
            ));
            assert(dependencies_registered(first, manifest@, deps, package, i + 1));
        } else {
            assert(dependencies_registered(first, manifest@, deps, package, i + 1));
        }
        i += 1;
    }
    Ok(total)
}

/// More dependencies do not bring fewer plugins.
pub proof fn lemma_total_grows(deps: Seq<DependencyPlugins>, n: int, m: int)
    requires
        0 <= n <= m <= deps.len(),
    ensures
        0 <= dependency_total(deps, n) <= dependency_total(deps, m),
    decreases m,
{
    if n < m {
        lemma_total_grows(deps, n, m - 1);
    } else if n > 0 {
        lemma_total_grows(deps, n - 1, n - 1);
    }
}

} // verus!
