//! Assembly of the plugins of one package from the registration calls of
//! its registration function.

pub use crate::constructor_parser::{infer_callable_type_from_name, infer_plugin_type};

use crate::ast_parser::{extract_plugins_list, registration_calls};
use crate::constructor_parser::{parse_plugin_constructor, plugin_of};
use crate::errors::BridgeError;
use crate::import_resolver::{ImportMap, SymbolMap};
use crate::parameter_extractor::{callable_parameters, extract_callable_parameters};
use crate::records::{
    plugins_view, sources_view, CallableModel, PackageRecord, PluginModel, PluginRecord,
    SourceFile,
};
use crate::render::{package_json, render_package};
use crate::text::texts;
use vstd::prelude::*;
use vstd::string::*;

verus! {

/// Whether one of the plugins has the given name.
pub open spec fn has_name(ps: Seq<PluginModel>, name: Seq<char>) -> bool {
    exists|i: int| 0 <= i < ps.len() && #[trigger] ps[i].name == name
}

/// No two plugins have the same name.
pub open spec fn distinct_names(ps: Seq<PluginModel>) -> bool {
    forall|i: int, j: int| 0 <= i < j < ps.len() ==> ps[i].name != ps[j].name
}

/// Every plugin has a name and an object that lives in a module.
pub open spec fn all_resolved(ps: Seq<PluginModel>) -> bool {
    forall|i: int| 0 <= i < ps.len() ==> (#[trigger] ps[i]).name.len() > 0 && ps[i].obj.module.len() > 0
}

/// The plugins that the first `n` calls declare: a call that cannot be
/// parsed declares none, and of two plugins with one name the first stays.
pub open spec fn assemble(
    calls: Seq<Seq<char>>,
    table: SymbolMap,
    files: Seq<(Seq<char>, Seq<char>)>,
    n: int,
) -> Seq<PluginModel>
    decreases n,
{
    if n <= 0 || n > calls.len() {
        Seq::empty()
    } else {
        let prev = assemble(calls, table, files, n - 1);
        match plugin_of(calls[n - 1], table, files) {
            Ok(p) => if has_name(prev, p.name) {
                prev
            } else {
                prev.push(p)
            },
            Err(_) => prev,
        }
    }
}

/// The plugins of a registration function body.
pub open spec fn package_plugins(
    fc: Seq<char>,
    table: SymbolMap,
    files: Seq<(Seq<char>, Seq<char>)>,
) -> Seq<PluginModel> {
    assemble(registration_calls(fc), table, files, registration_calls(fc).len() as int)
}

fn holds_name(plugins: &Vec<PluginRecord>, name: &String) -> (r: bool)
    ensures
        r == has_name(plugins_view(plugins@), name@),
{
    let mut i: usize = 0;
    while i < plugins.len()
        invariant
            i <= plugins@.len(),
            forall|j: int| 0 <= j < i ==> plugins_view(plugins@)[j].name != name@,
        decreases plugins@.len() - i,
    {
        if plugins[i].name == *name {
            assert(plugins_view(plugins@)[i as int].name == name@);
            return true;
        }
        i += 1;
    }
    false
}

/// Assemble the plugins of a package from the body of its registration
/// function. No registration call at all is an error; a call that cannot
/// be parsed is passed over.
pub fn extract_package(
    func_content: &str,
    import_map: &ImportMap,
    package_name_full: &str,
    sources: &Vec<SourceFile>,
) -> (r: Result<PackageRecord, BridgeError>)
    ensures
        match r {
            Ok(pkg) => {
                &&& registration_calls(func_content@).len() > 0
                &&& pkg.name@ == package_name_full@
                &&& plugins_view(pkg.plugins@) == package_plugins(
                    func_content@,
                    import_map.symbols@,
                    sources_view(sources@),
                )
                &&& distinct_names(plugins_view(pkg.plugins@))
                &&& all_resolved(plugins_view(pkg.plugins@))
            },
            Err(e) => e.is_not_found() && registration_calls(func_content@).len() == 0,
        },
{
    let calls = match extract_plugins_list(func_content) {
        Ok(c) => c,
        Err(e) => {
            return Err(e);
        },
    };
    let ghost cs = texts(calls@);
    let ghost table = import_map.symbols@;
    let ghost files = sources_view(sources@);
    let mut plugins: Vec<PluginRecord> = Vec::new();
    let mut i: usize = 0;
    assert(plugins_view(plugins@) =~= Seq::empty());
    while i < calls.len()
        invariant
            i <= calls@.len(),
            cs == texts(calls@),
            table == import_map.symbols@,
            files == sources_view(sources@),
            plugins_view(plugins@) == assemble(cs, table, files, i as int),
            distinct_names(plugins_view(plugins@)),
            all_resolved(plugins_view(plugins@)),
        decreases calls@.len() - i,
    {
        assert(cs[i as int] == calls@[i as int]@);
        match parse_plugin_constructor(calls[i].as_str(), import_map, sources) {
            Ok(plugin) => {
                if !holds_name(&plugins, &plugin.name) {
                    let ghost before = plugins_view(plugins@);
                    assert(plugins_view(plugins@.push(plugin)) =~= before.push(plugin@));
                    plugins.push(plugin);
                }
            },
            Err(_) => {},
        }
        i += 1;
    }
    Ok(PackageRecord { name: String::from_str(package_name_full), plugins })
}

/// Assemble the plugins of a package as the JSON document that is handed
/// on: `{"name": ..., "plugins": [...], "metadata": {}}`.
pub fn extract_package_json(
    func_content: &str,
    import_map: &ImportMap,
    package_name_full: &str,
    sources: &Vec<SourceFile>,
) -> (r: Result<String, BridgeError>)
    ensures
        match r {
            Ok(json) => registration_calls(func_content@).len() > 0 && json@ == package_json(
                package_name_full@,
                package_plugins(func_content@, import_map.symbols@, sources_view(sources@)),
            ),
            Err(e) => e.is_not_found() && registration_calls(func_content@).len() == 0,
        },
{
    match extract_package(func_content, import_map, package_name_full, sources) {
        Ok(pkg) => Ok(render_package(&pkg)),
        Err(e) => Err(e),
    }
}

/// A plugin with the parameters of its object filled in: those of the
/// constructor of the object's class, as the sources of the package
/// declare them.
pub open spec fn with_parameters(p: PluginModel, files: Seq<(Seq<char>, Seq<char>)>) -> PluginModel {
    PluginModel {
        obj: CallableModel {
            parameters: callable_parameters(p.obj.module, p.obj.name, files),
            ..p.obj
        },
        ..p
    }
}

/// Fills in, for every plugin of a package, the parameters of its object
/// from the sources given; all else stays as it is.
pub fn fill_parameters(pkg: PackageRecord, sources: &Vec<SourceFile>) -> (r: PackageRecord)
    ensures
        r.name@ == pkg.name@,
        r.plugins@.len() == pkg.plugins@.len(),
        forall|i: int|
            0 <= i < r.plugins@.len() ==> (#[trigger] r.plugins@[i])@ == with_parameters(
                pkg.plugins@[i]@,
                sources_view(sources@),
            ),
{
    let ghost all = pkg.plugins@;
    let ghost files = sources_view(sources@);
    let PackageRecord { name, plugins } = pkg;
    let total: usize = plugins.len();
    let mut rest = plugins;
    let mut out: Vec<PluginRecord> = Vec::new();
    let mut i: usize = 0;
    while i < total
        invariant
            i <= total,
            total == all.len(),
            files == sources_view(sources@),
            rest@ == all.subrange(i as int, total as int),
            out@.len() == i,
            forall|j: int| 0 <= j < i ==> (#[trigger] out@[j])@ == with_parameters(all[j]@, files),
        decreases total - i,
    {
        let mut p = rest.remove(0);
        assert(p == all[i as int]);
        assert(rest@ =~= all.subrange(i + 1, total as int));
        match extract_callable_parameters(p.obj.module.as_str(), p.obj.name.as_str(), sources) {
            Ok(ps) => {
                p.obj.parameters = ps;
            },
            Err(_) => {},
        }
        assert(p@ == with_parameters(all[i as int]@, files));
        out.push(p);
        i += 1;
    }
    PackageRecord { name, plugins: out }
}

} // verus!
