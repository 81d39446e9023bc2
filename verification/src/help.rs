//! What the help of a plugin says of its needs.

use crate::plugin_manifest::Plugin;
use crate::records::Parameter;
use crate::text::{chars_of, contains, includes};
use vstd::prelude::*;
use vstd::string::*;

verus! {

/// Whether an annotation speaks of a data store.
pub open spec fn names_store(annotation: Seq<char>) -> bool {
    contains(annotation, "DataStore"@) || contains(annotation, "data_store"@)
}

/// Whether one of the parameters is annotated with a data store.
pub open spec fn any_store(ps: Seq<Parameter>) -> bool {
    exists|i: int|
        0 <= i < ps.len() && (#[trigger] ps[i]).meta.annotation is Some && names_store(
            ps[i].meta.annotation.unwrap()@,
        )
}

/// Whether a plugin needs a data store: it says so, or a parameter of its
/// callable or of its configuration is annotated with one.
pub open spec fn needs_store(plugin: Plugin) -> bool {
    ||| plugin.requires_store == Some(true)
    ||| (plugin.obj is Some && any_store(plugin.obj.unwrap().parameters@))
    ||| (plugin.config is Some && any_store(plugin.config.unwrap().parameters@))
}

fn mentions_store(ps: &Vec<Parameter>) -> (r: bool)
    ensures
        r == any_store(ps@),
{
    let a = chars_of("DataStore");
    let b = chars_of("data_store");
    let mut i: usize = 0;
    while i < ps.len()
        invariant
            i <= ps@.len(),
            a@ == "DataStore"@,
            b@ == "data_store"@,
            forall|j: int|
                0 <= j < i ==> !((#[trigger] ps@[j]).meta.annotation is Some && names_store(
                    ps@[j].meta.annotation.unwrap()@,
                )),
        decreases ps@.len() - i,
    {
        match &ps[i].meta.annotation {
            Some(text) => {
                let t = chars_of(text.as_str());
                if includes(t.as_slice(), a.as_slice()) || includes(t.as_slice(), b.as_slice()) {
                    return true;
                }
            },
            None => {},
        }
        i += 1;
    }
    false
}

/// Check if a plugin requires a data store.
pub fn check_needs_datastore(plugin: &Plugin) -> (r: bool)
    ensures
        r == needs_store(*plugin),
{
    let said = match plugin.requires_store {
        Some(b) => b,
        None => false,
    };
    if said {
        return true;
    }
    let by_obj = match &plugin.obj {
        Some(obj) => mentions_store(&obj.parameters),
        None => false,
    };
    if by_obj {
        return true;
    }
    match &plugin.config {
        Some(config) => mentions_store(&config.parameters),
        None => false,
    }
}

} // verus!
