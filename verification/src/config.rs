//! The plugin constructors that discovery recognises.

use vstd::prelude::*;

verus! {

/// Supported plugin types.
pub struct PluginTypeConfig;

impl PluginTypeConfig {
    /// The recognised plugin class names, in the order in which they are
    /// searched for.
    pub open spec fn classes() -> Seq<Seq<char>> {
        seq!["ParserPlugin"@, "UpgraderPlugin"@, "BasePlugin"@, "ExporterPlugin"@]
    }

    /// List of recognised plugin class names.
    pub fn plugin_classes() -> (r: Vec<&'static str>)
        ensures
            r@.len() == 4,
            r@.map_values(|s: &'static str| s@) == Self::classes(),
    {
        let r = vec!["ParserPlugin", "UpgraderPlugin", "BasePlugin", "ExporterPlugin"];
        assert(r@.map_values(|s: &'static str| s@) =~= Self::classes());
        r
    }
}

} // verus!
