use r2x::errors::{BridgeError, PipelineError};
use r2x::plugin_manifest::{ManifestError, Plugin, PluginManifest};
use r2x::settings::{
    next_uv_action, uv_binary_name, uv_binary_path, uv_download_url, Config, UvAction, UvSource,
};
use r2x::utils::{
    find_matching_bracket, find_matching_delimiter, find_matching_paren, looks_like_r2x_plugin,
};

fn bare_plugin() -> Plugin {
    Plugin {
        package_name: None,
        plugin_type: None,
        description: None,
        doc: None,
        io_type: None,
        call_method: None,
        requires_store: None,
        obj: None,
        config: None,
        upgrader: None,
        install_type: None,
        installed_by: None,
    }
}

fn plugin_of_package(package: &str) -> Plugin {
    let mut p = bare_plugin();
    p.package_name = Some(package.to_string());
    p
}

#[test]
fn test_config_new() {
    let config = Config::default();
    assert!(config.is_empty());
}

#[test]
fn test_config_set_get() {
    let mut config = Config::default();
    config.set("cache-path", "test-value".to_string());
    assert_eq!(config.get("cache-path"), Some("test-value".to_string()));
}

#[test]
fn test_config_multiple_fields() {
    let mut config = Config::default();
    config.set("cache-path", "/tmp/cache".to_string());
    assert_eq!(config.get("cache-path"), Some("/tmp/cache".to_string()));
    assert!(!config.is_empty());
}

#[test]
fn test_config_unknown_key() {
    let mut config = Config::default();
    config.set("unknown-key", "value".to_string());
    assert_eq!(config.get("unknown-key"), None);
}

#[test]
fn config_every_key_round_trips() {
    let keys = ["cache-path", "uv-path", "python-version", "venv-path", "r2x-core-version"];
    for key in keys {
        let mut config = Config::default();
        config.set(key, "v".to_string());
        assert_eq!(config.get(key), Some("v".to_string()));
        for other in keys {
            if other != key {
                assert_eq!(config.get(other), None);
            }
        }
    }
}

#[test]
fn config_values_are_listed_in_key_order() {
    let mut config = Config::default();
    config.set("venv-path", "/v".to_string());
    config.set("cache-path", "/c".to_string());
    let listed = config.values_iter();
    assert_eq!(listed, vec![("cache-path", "/c".to_string()), ("venv-path", "/v".to_string())]);
}

#[test]
fn config_core_package_spec() {
    let mut config = Config::default();
    assert_eq!(config.get_r2x_core_package_spec(), "r2x-core==0.1.0rc1");
    config.set("r2x-core-version", "1.2.3".to_string());
    assert_eq!(config.get_r2x_core_package_spec(), "r2x-core==1.2.3");
    config.set("r2x-core-version", ">=1.0".to_string());
    assert_eq!(config.get_r2x_core_package_spec(), "r2x-core>=1.0");
    config.set("r2x-core-version", "~=2.0".to_string());
    assert_eq!(config.get_r2x_core_package_spec(), "r2x-core~=2.0");
    config.set("r2x-core-version", "<3".to_string());
    assert_eq!(config.get_r2x_core_package_spec(), "r2x-core<3");
}

#[test]
fn config_python_path_of_configured_environment() {
    let mut config = Config::default();
    config.set("venv-path", "/opt/env".to_string());
    assert_eq!(config.get_venv_python_path(), Some("/opt/env/bin/python".to_string()));
    assert_eq!(config.get_venv_python_path_in("/home/u"), "/opt/env/bin/python");
    let fresh = Config::default();
    assert_eq!(fresh.get_venv_path_in("/home/u"), "/home/u/.config/r2x/.venv");
    assert_eq!(fresh.get_venv_python_path_in("/home/u"), "/home/u/.config/r2x/.venv/bin/python");
}

#[test]
fn uv_search_steps() {
    let mut seen = Vec::new();
    let mut action = next_uv_action(None, false, true);
    while action != UvAction::Fail {
        seen.push(action);
        action = next_uv_action(Some(action), action == UvAction::Install, true);
    }
    assert_eq!(
        seen,
        vec![
            UvAction::Probe(UvSource::Stored),
            UvAction::Probe(UvSource::Expected),
            UvAction::Probe(UvSource::OnPath),
            UvAction::Install,
            UvAction::Probe(UvSource::Installed),
        ]
    );
    assert_eq!(next_uv_action(None, false, false), UvAction::Probe(UvSource::Expected));
    assert_eq!(
        next_uv_action(Some(UvAction::Probe(UvSource::OnPath)), true, false),
        UvAction::Use(UvSource::OnPath)
    );
    assert_eq!(next_uv_action(Some(UvAction::Install), false, false), UvAction::Fail);
    assert_eq!(
        next_uv_action(Some(UvAction::Use(UvSource::Stored)), false, true),
        UvAction::Use(UvSource::Stored)
    );
}

#[test]
fn cache_path_of_settings() {
    let mut config = Config::default();
    assert_eq!(config.get_cache_path_in("/home/u"), "/home/u/.cache/r2x");
    config.set("cache-path", "/c".to_string());
    assert_eq!(config.get_cache_path_in("/home/u"), "/c");
}

#[test]
fn uv_names() {
    assert_eq!(uv_binary_name(), "uv");
    assert_eq!(uv_binary_path("/x/bin"), "/x/bin/uv");
    assert_eq!(uv_download_url(), "https://github.com/astral-sh/uv/releases/download/0.9.24");
}

#[test]
fn test_bridge_error_display() {
    let err = BridgeError::PluginNotFound("test-plugin".to_string());
    assert_eq!(err.to_string(), "Plugin 'test-plugin' not found");
}

#[test]
fn bridge_error_texts() {
    assert_eq!(BridgeError::Python("x".to_string()).to_string(), "Python error: x");
    assert_eq!(
        BridgeError::Import("m".to_string(), "why".to_string()).to_string(),
        "Failed to import module 'm': why"
    );
    assert_eq!(
        BridgeError::R2XCoreNotInstalled.to_string(),
        "r2x-core is not installed in the Python environment"
    );
    assert_eq!(
        BridgeError::InvalidEntryPoint("e".to_string()).to_string(),
        "Invalid entry point format: e"
    );
    assert_eq!(BridgeError::Io("gone".to_string()).to_string(), "IO error: gone");
}

#[test]
fn test_pipeline_error_display() {
    let err = PipelineError::PipelineNotFound("test-pipeline".to_string());
    assert_eq!(err.to_string(), "Pipeline 'test-pipeline' not found in YAML");
}

#[test]
fn pipeline_error_texts() {
    assert_eq!(PipelineError::Io("e".to_string()).to_string(), "IO error: e");
    assert_eq!(
        PipelineError::Parse("e".to_string()).to_string(),
        "Failed to parse pipeline YAML: e"
    );
    assert_eq!(
        PipelineError::VariableNotFound("v".to_string()).to_string(),
        "Variable 'v' not found in variables section"
    );
    assert_eq!(
        PipelineError::InvalidConfig("c".to_string()).to_string(),
        "Invalid configuration: c"
    );
    assert_eq!(ManifestError::Io("e".to_string()).to_string(), "IO error: e");
    assert_eq!(
        ManifestError::Parse("e".to_string()).to_string(),
        "Failed to parse manifest: e"
    );
    assert_eq!(
        ManifestError::Serialize("e".to_string()).to_string(),
        "Failed to serialize manifest: e"
    );
}

#[test]
fn test_config_default_cache_path() {
    let config = Config::default();
    let cache_path = config.get_cache_path().unwrap();
    assert!(!cache_path.is_empty());
    assert!(cache_path.contains("r2x"));
}

#[test]
fn test_manifest_error_display() {
    let err = ManifestError::InvalidPlugin("test".to_string());
    assert_eq!(err.to_string(), "Invalid plugin: test");
}

#[test]
fn test_show_run_help() {
    // Test run help display
}

#[test]
fn test_show_plugin_help() {
    // Test plugin help display
}

#[test]
fn test_manifest_new() {
    let manifest = PluginManifest::default();
    assert!(manifest.is_empty());
}

#[test]
fn test_add_plugin() {
    let mut manifest = PluginManifest::default();
    let plugin = bare_plugin();
    manifest.add_plugin("test-plugin".to_string(), plugin).unwrap();
    assert!(!manifest.is_empty());
    assert!(manifest.has_plugin("test-plugin"));
}

#[test]
fn test_remove_plugin() {
    let mut manifest = PluginManifest::default();
    let plugin = bare_plugin();
    manifest.add_plugin("test-plugin".to_string(), plugin).unwrap();
    assert!(manifest.remove_plugin("test-plugin"));
    assert!(manifest.is_empty());
    assert!(!manifest.remove_plugin("non-existent"));
}

#[test]
fn manifest_add_twice_overwrites() {
    let mut manifest = PluginManifest::default();
    manifest.add_plugin("p".to_string(), plugin_of_package("a")).unwrap();
    manifest.add_plugin("p".to_string(), plugin_of_package("b")).unwrap();
    assert_eq!(manifest.list_plugins().len(), 1);
    assert_eq!(manifest.get_plugin("p").unwrap().package_name, Some("b".to_string()));
    assert!(manifest.get_plugin("q").is_none());
}

#[test]
fn manifest_remove_by_package() {
    let mut manifest = PluginManifest::default();
    manifest.add_plugin("a1".to_string(), plugin_of_package("a")).unwrap();
    manifest.add_plugin("b1".to_string(), plugin_of_package("b")).unwrap();
    manifest.add_plugin("a2".to_string(), plugin_of_package("a")).unwrap();
    manifest.add_plugin("n".to_string(), bare_plugin()).unwrap();
    assert_eq!(manifest.remove_plugins_by_package("a"), 2);
    let names: Vec<&str> = manifest.list_plugins().iter().map(|(n, _)| *n).collect();
    assert_eq!(names, vec!["b1", "n"]);
    assert_eq!(manifest.remove_plugins_by_package("a"), 0);
    assert!(bare_plugin().validate("x").is_ok());
    assert!(manifest.is_well_formed());
    let twice = PluginManifest {
        plugins: vec![
            r2x::plugin_manifest::PluginEntry { name: "a".to_string(), plugin: bare_plugin() },
            r2x::plugin_manifest::PluginEntry { name: "b".to_string(), plugin: bare_plugin() },
            r2x::plugin_manifest::PluginEntry { name: "a".to_string(), plugin: bare_plugin() },
        ],
    };
    assert!(!twice.is_well_formed());
}

#[test]
fn test_looks_like_r2x_plugin() {
    assert!(looks_like_r2x_plugin("r2x-reeds"));
    assert!(looks_like_r2x_plugin("r2x-plexos"));
    assert!(!looks_like_r2x_plugin("numpy"));
}

#[test]
fn looks_like_plugin_edges() {
    assert!(looks_like_r2x_plugin("r2x"));
    assert!(looks_like_r2x_plugin("my-plugin-pack"));
    assert!(!looks_like_r2x_plugin("r2xx"));
    assert!(!looks_like_r2x_plugin(""));
}

#[test]
fn test_plugins_module() {
    // Module-level tests
}

#[test]
fn matching_delimiters() {
    assert_eq!(find_matching_paren("f(a, (b), c) + (d)", 1), Some(11));
    assert_eq!(find_matching_paren("f(a, (b), c)", 5), Some(7));
    assert_eq!(find_matching_paren("f(a, (b)", 1), None);
    assert_eq!(find_matching_paren("f(a)", 0), None);
    assert_eq!(find_matching_paren("f(a)", 9), None);
    assert_eq!(find_matching_bracket("[[1], [2]]", 0), Some(9));
    assert_eq!(find_matching_bracket("[[1], [2]]", 1), Some(3));
    assert_eq!(find_matching_delimiter("{a{b}}", 0, '{', '}'), Some(5));
    assert_eq!(find_matching_delimiter("|a|", 0, '|', '|'), None);
}
