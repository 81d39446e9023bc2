//! The decisions before a plugin is invoked: what its target names and
//! which handler runs it.

use crate::errors::BridgeError;
use crate::file_finder::{replace_char, replaced};
use crate::plugin_manifest::Plugin;
use crate::records::opt_text;
use crate::text::{chars_of, split, split_on, string_of, views};
use vstd::prelude::*;
use vstd::string::*;

verus! {

/// What a target names: a module, a callable in it, and a method of the
/// callable where the target gives one.
#[derive(Debug, Clone)]
pub struct Target {
    pub module: String,
    pub callable: String,
    pub method: Option<String>,
}

/// The parts of a target `module:callable` or `module:Class.method`;
/// `None` where the target has not exactly one colon, or its callable
/// more than one dot.
pub open spec fn target_parts(target: Seq<char>) -> Option<(Seq<char>, Seq<char>, Option<Seq<char>>)> {
    let parts = split(target, ':');
    if parts.len() != 2 {
        None
    } else {
        let path = split(parts[1], '.');
        if path.len() == 1 {
            Some((parts[0], parts[1], None))
        } else if path.len() == 2 {
            Some((parts[0], path[0], Some(path[1])))
        } else {
            None
        }
    }
}

/// Reads a target. A target of another form is an invalid entry point.
pub fn parse_target(target: &str) -> (r: Result<Target, BridgeError>)
    ensures
        match target_parts(target@) {
            Some(parts) => r is Ok && r.unwrap().module@ == parts.0 && r.unwrap().callable@
                == parts.1 && opt_text(r.unwrap().method) == parts.2,
            None => r matches Err(BridgeError::InvalidEntryPoint(t)) && t@ == target@,
        },
{
    let t = chars_of(target);
    let parts = split_on(t.as_slice(), ':');
    if parts.len() != 2 {
        return Err(BridgeError::InvalidEntryPoint(String::from_str(target)));
    }
    assert(views(parts@)[0] == parts@[0]@);
    assert(views(parts@)[1] == parts@[1]@);
    let path = split_on(parts[1].as_slice(), '.');
    if path.len() == 1 {
        Ok(
            Target {
                module: string_of(parts[0].as_slice()),
                callable: string_of(parts[1].as_slice()),
                method: None,
            },
        )
    } else if path.len() == 2 {
        assert(views(path@)[0] == path@[0]@);
        assert(views(path@)[1] == path@[1]@);
        Ok(
            Target {
                module: string_of(parts[0].as_slice()),
                callable: string_of(path[0].as_slice()),
                method: Some(string_of(path[1].as_slice())),
            },
        )
    } else {
        Err(BridgeError::InvalidEntryPoint(String::from_str(target)))
    }
}

/// The module that is imported for a target: a module path that starts
/// with a dot is relative to the package, whose name is taken with
/// underscores for hyphens; `None` where a relative path has no package.
pub open spec fn import_path(module: Seq<char>, package_name: Option<Seq<char>>) -> Option<
    Seq<char>,
> {
    if module.len() > 0 && module[0] == '.' {
        match package_name {
            Some(p) => Some(replaced(p, '-', '_') + module),
            None => None,
        }
    } else {
        Some(module)
    }
}

/// Resolves the module of a target against the package of the plugin.
pub fn resolve_module(module: &str, package_name: Option<&str>) -> (r: Result<String, BridgeError>)
    ensures
        match import_path(
            module@,
            match package_name {
                Some(p) => Some(p@),
                None => None,
            },
        ) {
            Some(path) => r is Ok && r.unwrap()@ == path,
            None => r is Err && r.unwrap_err() is Python,
        },
{
    let m = chars_of(module);
    if m.len() > 0 && m[0] == '.' {
        match package_name {
            Some(p) => {
                let name = chars_of(p);
                let out = replace_char(name.as_slice(), '-', '_');
                Ok(string_of(out.as_slice()).concat(module))
            },
            None => Err(
                BridgeError::Python(
                    String::from_str("Cannot resolve relative import without package name"),
                ),
            ),
        }
    } else {
        Ok(String::from_str(module))
    }
}

/// Whether a plugin is run by the handler for upgraders: it is, where its
/// metadata holds an upgrader.
pub fn routes_to_upgrader(plugin_metadata: Option<&Plugin>) -> (r: bool)
    ensures
        r == (plugin_metadata matches Some(p) && p.upgrader is Some),
{
    match plugin_metadata {
        Some(p) => p.upgrader.is_some(),
        None => false,
    }
}

} // verus!
