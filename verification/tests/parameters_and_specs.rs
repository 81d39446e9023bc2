use r2x::discovery::{
    cached_plugins, discover_and_register_entry_points_with_deps, plugin_dependencies,
    register_plugins, DependencyPlugins, DiscoveryOptions,
};
use r2x::errors::ErrorKind;
use r2x::extractor::{calls_from_matches, IOSlot, PluginExtractor};
use r2x::file_finder::{candidate_file_names, dist_info_name, module_to_path, parse_entry_points};
use r2x::help::check_needs_datastore;
use r2x::parameter_extractor::{
    extract_callable_parameters, extract_init_parameters, find_and_read_python_file,
    module_file_name, parse_function_signature, split_top_level,
};
use r2x::plugin_manifest::{Plugin, PluginEntry, PluginManifest};
use r2x::records::{CallableMetadata, Parameter, ParameterMetadata, PluginKind, SourceFile};
use r2x::utils::split_qualified_target;

fn chars(s: &str) -> Vec<char> {
    s.chars().collect()
}

fn pieces(s: &str, sep: char) -> Vec<String> {
    split_top_level(&chars(s), sep).into_iter().map(|p| p.into_iter().collect()).collect()
}

fn described(p: &Parameter) -> (String, Option<String>, Option<String>, bool) {
    (p.name.clone(), p.meta.annotation.clone(), p.meta.default.clone(), p.meta.is_required)
}

fn some(s: &str) -> Option<String> {
    Some(s.to_string())
}

fn source(name: &str, content: &str) -> SourceFile {
    SourceFile { name: name.to_string(), content: content.to_string() }
}

fn empty_plugin() -> Plugin {
    Plugin {
        package_name: None,
        plugin_type: None,
        description: None,
        doc: None,
        io_type: None,
        call_method: None,
        requires_store: None,
        obj: None,
        config: None,
        upgrader: None,
        install_type: None,
        installed_by: None,
    }
}

fn entry(name: &str) -> PluginEntry {
    PluginEntry { name: name.to_string(), plugin: empty_plugin() }
}

#[test]
fn top_level_cut() {
    assert_eq!(pieces("a, b(c, d), e[1, 2], {x, y}", ','), vec!["a", " b(c, d)", " e[1, 2]", " {x, y}"]);
    assert_eq!(pieces("a: str = \"x,y\", b", ','), vec!["a: str = \"x,y\"", " b"]);
    assert_eq!(pieces("", ','), vec![""]);
    assert_eq!(pieces("a,", ','), vec!["a", ""]);
    assert_eq!(pieces("dict[str, int] = f(a=1)", '='), vec!["dict[str, int] ", " f(a=1)"]);
}

#[test]
fn constructor_parameters_with_and_without_default() {
    let file = "import x\n\nclass Reader:\n    def __init__(self, a: int, b: str = \"x\"):\n        pass\n";
    let params = extract_init_parameters(file, "Reader").unwrap();
    assert_eq!(params.len(), 2);
    assert_eq!(described(&params[0]), ("a".to_string(), some("int"), None, true));
    assert_eq!(described(&params[1]), ("b".to_string(), some("str"), some("\"x\""), false));
    let again = parse_function_signature(file, "Reader").unwrap();
    assert_eq!(again.len(), 2);
}

#[test]
fn constructor_parameters_with_nested_defaults() {
    let file = "class Other:\n    def __init__(self, z: int):\n        pass\n\nclass Big(Base):\n    def __init__(\n        self,\n        path: Path | None = None,\n        opts: dict[str, int] = make(1, (2, 3)),\n        *args: Any,\n        flag: bool=True,\n        path: str = \"again\",\n    ) -> None:\n        self.x = compute(path)\n";
    let params = extract_init_parameters(file, "Big").unwrap();
    let got: Vec<_> = params.iter().map(described).collect();
    assert_eq!(
        got,
        vec![
            ("path".to_string(), some("Path | None"), some("None"), false),
            ("opts".to_string(), some("dict[str, int]"), some("make(1, (2, 3))"), false),
            ("*args".to_string(), some("Any"), None, true),
            ("flag".to_string(), some("bool"), some("True"), false),
        ]
    );
}

#[test]
fn missing_class_or_constructor_has_no_parameters() {
    assert!(extract_init_parameters("class A:\n    pass\n", "A").unwrap().is_empty());
    assert!(extract_init_parameters("class A:\n    def __init__(self, a: int):\n        pass\n", "B").unwrap().is_empty());
    assert!(extract_init_parameters("", "A").unwrap().is_empty());
    assert!(extract_init_parameters("class A:\n    def __init__(self, a: int", "A").unwrap().is_empty());
    assert!(extract_init_parameters("class A:\n    def __init__(self):\n        pass\n", "A").unwrap().is_empty());
}

#[test]
fn parameters_come_from_the_first_file_named_after_the_module() {
    let sources = vec![
        source("other.py", "class Reader:\n    def __init__(self, no: int):\n        pass\n"),
        source("parser.py", "class Reader:\n    def __init__(self, first: int):\n        pass\n"),
        source("parser.py", "class Reader:\n    def __init__(self, second: int):\n        pass\n"),
    ];
    assert_eq!(module_file_name("pkg.sub.parser"), "parser.py");
    assert_eq!(module_file_name("parser"), "parser.py");
    let params = extract_callable_parameters("pkg.sub.parser", "Reader", &sources).unwrap();
    assert_eq!(params.len(), 1);
    assert_eq!(params[0].name, "first");
    assert!(extract_callable_parameters("pkg.missing", "Reader", &sources).unwrap().is_empty());
    assert!(find_and_read_python_file(&sources, "parser.py").unwrap().contains("first"));
    let err = find_and_read_python_file(&sources, "nowhere.py").unwrap_err();
    assert_eq!(err.kind(), ErrorKind::NotFound);
}

#[test]
fn registration_index() {
    let index = "[console_scripts]\nr2x = r2x.cli:main\n\n[r2x_plugin]\n# comment\n\nreeds = r2x_reeds.plugins : register_plugin\nother = a.b:c\n\n[other]\nx = y.z:w\n";
    assert_eq!(parse_entry_points(index), some("r2x_reeds.plugins"));
    assert_eq!(parse_entry_points("[r2x_plugin]\nbroken line\nname = no_colon\n[next]\na = b:c\n"), None);
    assert_eq!(parse_entry_points("a = b:c\n"), None);
    assert_eq!(parse_entry_points(""), None);
    assert_eq!(parse_entry_points("[r2x_plugin]\r\nreeds = m.p:f\r\n"), some("m.p"));
    assert_eq!(dist_info_name("r2x-reeds", Some("1.2.0")), "r2x_reeds-1.2.0.dist-info");
    assert_eq!(dist_info_name("r2x-a-b", None), "r2x_a_b-0.0.0.dist-info");
    assert_eq!(module_to_path("r2x_reeds.plugins"), "r2x_reeds/plugins.py");
    assert_eq!(candidate_file_names(), vec!["plugins.py", "plugin.py"]);
}

#[test]
fn qualified_targets() {
    assert_eq!(split_qualified_target("pkg.mod:Class"), Some(("pkg.mod".to_string(), "Class".to_string())));
    assert_eq!(split_qualified_target("pkg.mod.Class"), Some(("pkg.mod".to_string(), "Class".to_string())));
    assert_eq!(split_qualified_target("a:b:c"), Some(("a:b".to_string(), "c".to_string())));
    assert_eq!(split_qualified_target("plain"), None);
    assert_eq!(split_qualified_target(""), None);
}

#[test]
fn data_store_need() {
    let mut plugin = empty_plugin();
    assert!(!check_needs_datastore(&plugin));
    plugin.requires_store = Some(false);
    assert!(!check_needs_datastore(&plugin));
    plugin.requires_store = Some(true);
    assert!(check_needs_datastore(&plugin));
    let mut plugin = empty_plugin();
    plugin.obj = Some(CallableMetadata {
        module: "m".to_string(),
        name: "C".to_string(),
        callable_type: "class".to_string(),
        return_annotation: None,
        parameters: vec![
            Parameter {
                name: "a".to_string(),
                meta: ParameterMetadata { annotation: None, default: None, is_required: true },
            },
            Parameter {
                name: "store".to_string(),
                meta: ParameterMetadata { annotation: some("DataStore | None"), default: None, is_required: true },
            },
        ],
    });
    assert!(check_needs_datastore(&plugin));
}

#[test]
fn manifest_file_is_queried_by_tree() {
    let text = "from r2x_core import PluginManifest, PluginSpec\nfrom my_pkg.config import MyConfig\n\nmanifest = PluginManifest(package=\"my-pkg\")\n\nmanifest.add(\n    PluginSpec.parser(\n        name=\"my-parser\",\n        entry=\"my_pkg.parser:MyParser\",\n        config=MyConfig,\n        store=True,\n        description=\"Reads things\",\n    )\n)\nmanifest.add(PluginSpec.function(name=\"fix\", entry=\"my_pkg.fix:run\", store=\"data\"))\nmanifest.add(PluginSpec.unknown(name=\"x\", entry=\"y\"))\nmanifest.add(PluginSpec.exporter(name=\"no entry\"))\n";
    let extractor = PluginExtractor::new("plugins.py".to_string(), text.to_string()).unwrap();
    assert!(extractor.import_map.symbols.contains_key("MyConfig"));
    let calls = extractor.locate_calls().unwrap();
    assert_eq!(calls.len(), 4);
    assert!(calls[0].starts_with("manifest.add("));
    assert_ne!(calls[0], text);
    let plugins = extractor.extract_plugins().unwrap();
    assert_eq!(plugins.len(), 2);
    assert_eq!(plugins[0].name, "my-parser");
    assert_eq!(plugins[0].kind, PluginKind::Parser);
    assert_eq!(plugins[0].entry, "my_pkg.parser:MyParser");
    assert_eq!(plugins[0].description, some("Reads things"));
    assert_eq!(plugins[0].method, None);
    assert_eq!(plugins[0].io.consumes, vec![IOSlot::StoreFolder, IOSlot::ConfigFile]);
    assert_eq!(plugins[0].io.produces, vec![IOSlot::System]);
    let resources = plugins[0].resources.as_ref().unwrap();
    assert_eq!(resources.config.as_ref().unwrap().module, "my_pkg.config");
    assert_eq!(resources.config.as_ref().unwrap().name, "MyConfig");
    assert_eq!(resources.store.as_ref().unwrap().path, None);
    assert_eq!(plugins[1].name, "fix");
    assert_eq!(plugins[1].kind, PluginKind::Modifier);
    assert_eq!(plugins[1].resources.as_ref().unwrap().store.as_ref().unwrap().path, some("data"));
    assert!(plugins[1].resources.as_ref().unwrap().config.is_none());
}

#[test]
fn manifest_file_without_calls_is_not_found() {
    let err = PluginExtractor::new("p.py".to_string(), "x = 1\n".to_string()).unwrap_err();
    assert_eq!(err.kind(), ErrorKind::NotFound);
    let extractor = PluginExtractor::new("p.py".to_string(), "m = PluginManifest()\n".to_string()).unwrap();
    assert_eq!(extractor.locate_calls().unwrap_err().kind(), ErrorKind::NotFound);
    assert_eq!(extractor.extract_plugins().unwrap_err().kind(), ErrorKind::NotFound);
    assert_eq!(calls_from_matches(None).unwrap_err().kind(), ErrorKind::NotFound);
    assert_eq!(calls_from_matches(Some(vec![])).unwrap_err().kind(), ErrorKind::NotFound);
    assert_eq!(calls_from_matches(Some(vec!["a".to_string()])).unwrap(), vec!["a"]);
    let spec = extractor.extract_plugin_from_add_call("manifest.add(PluginSpec.utility(name=\"u\", entry=\"e\", method=\"run\"))").unwrap();
    assert_eq!(spec.kind, PluginKind::Utility);
    assert_eq!(spec.method, some("run"));
    assert!(spec.io.consumes.is_empty());
    assert!(spec.resources.is_none());
    assert!(extractor.extract_plugin_from_add_call("manifest.add(other)").is_err());
    let upgrader = PluginExtractor::infer_io_contract(PluginKind::Upgrader);
    assert!(upgrader.consumes.is_empty() && upgrader.produces.is_empty());
    let exporter = PluginExtractor::infer_io_contract(PluginKind::Exporter);
    assert_eq!(exporter.consumes, vec![IOSlot::System, IOSlot::ConfigFile]);
    assert_eq!(exporter.produces, vec![IOSlot::Folder]);
    let mut spec = spec;
    assert!(extractor.resolve_references(&mut spec, "pkg").is_ok());
    assert_eq!(spec.name, "u");
}

#[test]
fn registration_marks_plugins() {
    let mut manifest = PluginManifest::default();
    manifest.add_plugin("old".to_string(), empty_plugin()).unwrap();
    let n = register_plugins(&mut manifest, vec![entry("a"), entry("b"), entry("a")], "explicit", "pkg", None);
    assert_eq!(n, 3);
    assert_eq!(manifest.list_plugins().len(), 3);
    let a = manifest.get_plugin("a").unwrap();
    assert_eq!(a.install_type, some("explicit"));
    assert_eq!(a.package_name, some("pkg"));
    assert_eq!(a.installed_by, None);
    assert_eq!(manifest.get_plugin("old").unwrap().install_type, None);
    assert_eq!(cached_plugins(&manifest, "pkg"), vec!["a", "b"]);
    assert!(cached_plugins(&manifest, "none").is_empty());
}

#[test]
fn discovery_registers_package_and_plugin_like_dependencies() {
    let opts = DiscoveryOptions {
        package: "reeds".to_string(),
        package_name_full: "r2x-reeds".to_string(),
        dependencies: vec!["numpy".to_string(), "r2x-core".to_string()],
        package_version: None,
        no_cache: false,
    };
    assert_eq!(plugin_dependencies(&opts.dependencies), vec!["r2x-core"]);
    let mut manifest = PluginManifest::default();
    let deps = vec![
        DependencyPlugins { package: "numpy".to_string(), entries: vec![entry("n1")] },
        DependencyPlugins { package: "r2x-core".to_string(), entries: vec![entry("c1"), entry("c2")] },
    ];
    let total = discover_and_register_entry_points_with_deps(&mut manifest, &opts, vec![entry("p")], deps).unwrap();
    assert_eq!(total, 3);
    assert!(!manifest.has_plugin("n1"));
    let c1 = manifest.get_plugin("c1").unwrap();
    assert_eq!(c1.install_type, some("dependency"));
    assert_eq!(c1.installed_by, some("r2x-reeds"));
    assert_eq!(c1.package_name, some("r2x-core"));
    assert_eq!(manifest.get_plugin("p").unwrap().install_type, some("explicit"));
    let mut untouched = PluginManifest::default();
    let deps = vec![DependencyPlugins { package: "r2x-core".to_string(), entries: vec![entry("c1")] }];
    assert_eq!(discover_and_register_entry_points_with_deps(&mut untouched, &opts, vec![], deps), Ok(0));
    assert!(untouched.is_empty());
}
