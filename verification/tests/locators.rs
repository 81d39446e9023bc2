use r2x::ast_parser::extract_plugins_list;
use r2x::errors::{BridgeError, ErrorKind};
use r2x::extractor::{add_matches, extract_plugins_list_by_tree, CallLocator};
use r2x::invoker::{parse_target, resolve_module, routes_to_upgrader};
use r2x::orphans::find_orphaned_dependencies;
use r2x::plugin_manifest::{Plugin, PluginManifest, UpgraderMetadata};

const BODY: &str = "return Package(\n    name=\"pkg\",\n    plugins=[\n        ParserPlugin(name=\"p1\", obj=Parser, io_type=IOType.STDOUT),\n        UpgraderPlugin(name=\"up\", obj=Up, upgrade_steps=Upgrader.steps),\n        ExporterPlugin(\n            name=\"ex\",\n            obj=make(1, (2, 3)),\n        ),\n        BasePlugin(name=\"text, with [brackets]\", obj=f),\n        ParserPlugin(name=\"p2\", obj=Parser),\n        ParserPlugin(name=\"p2\", obj=Parser),\n    ],\n)\n";

const FIXTURES: [&str; 4] = [
    BODY,
    "plugins=[ParserPlugin(a=1)]",
    "x = dict(plugins=[BasePlugin(name=\"b\"), ExporterPlugin(name=\"e\", obj=[1, 2])])\n",
    "plugins=[]\n",
];

fn plugin(package: Option<&str>, install_type: Option<&str>, installed_by: Option<&str>) -> Plugin {
    Plugin {
        package_name: package.map(str::to_string),
        plugin_type: None,
        description: None,
        doc: None,
        io_type: None,
        call_method: None,
        requires_store: None,
        obj: None,
        config: None,
        upgrader: None,
        install_type: install_type.map(str::to_string),
        installed_by: installed_by.map(str::to_string),
    }
}

#[test]
fn textual_locator_on_shared_fixture() {
    let calls = CallLocator::Textual.locate(BODY).unwrap();
    assert_eq!(
        calls,
        vec![
            "ParserPlugin(name=\"p1\", obj=Parser, io_type=IOType.STDOUT)",
            "UpgraderPlugin(name=\"up\", obj=Up, upgrade_steps=Upgrader.steps)",
            "ExporterPlugin(\n            name=\"ex\",\n            obj=make(1, (2, 3)),\n        )",
            "BasePlugin(name=\"text, with [brackets]\", obj=f)",
            "ParserPlugin(name=\"p2\", obj=Parser)",
        ]
    );
    assert_eq!(calls, extract_plugins_list(BODY).unwrap());
}

#[test]
fn both_locators_agree_on_shared_fixtures() {
    for text in FIXTURES {
        let textual = CallLocator::Textual.locate(text);
        let by_tree = CallLocator::TreeQuery.locate(text);
        match (textual, by_tree) {
            (Ok(a), Ok(b)) => assert_eq!(a, b, "{}", text),
            (Err(a), Err(b)) => {
                assert_eq!(a.kind(), ErrorKind::NotFound);
                assert_eq!(b.kind(), ErrorKind::NotFound);
            }
            (a, b) => panic!("{:?} against {:?} on {}", a, b, text),
        }
    }
    assert_eq!(extract_plugins_list_by_tree("x = 1\n").unwrap_err().kind(), ErrorKind::NotFound);
    assert_eq!(extract_plugins_list_by_tree("").unwrap_err().kind(), ErrorKind::NotFound);
}

#[test]
fn tree_locator_reads_parentheses_inside_strings() {
    let text = "plugins=[BasePlugin(name=\"half (open\", obj=f), ParserPlugin(name=\"p\")]";
    let calls = CallLocator::TreeQuery.locate(text).unwrap();
    assert_eq!(calls, vec!["BasePlugin(name=\"half (open\", obj=f)", "ParserPlugin(name=\"p\")"]);
}

#[test]
fn matches_of_recognised_constructors_are_added_once() {
    let mut out = vec!["ParserPlugin(a)".to_string()];
    add_matches(
        &mut out,
        Some(vec![
            "BasePlugin(b)".to_string(),
            "ParserPlugin(a)".to_string(),
            "other(x)".to_string(),
            "BasePlugin(b)".to_string(),
            "Package(plugins=[ExporterPlugin(c)])".to_string(),
            " ExporterPlugin (c)".to_string(),
            "UpgraderPlugin".to_string(),
        ]),
    );
    assert_eq!(out, vec!["ParserPlugin(a)", "BasePlugin(b)", " ExporterPlugin (c)", "UpgraderPlugin"]);
    add_matches(&mut out, None);
    assert_eq!(out.len(), 4);
}

#[test]
fn targets() {
    let t = parse_target("pkg.mod:run").unwrap();
    assert_eq!((t.module.as_str(), t.callable.as_str(), t.method), ("pkg.mod", "run", None));
    let t = parse_target("pkg.mod:Class.method").unwrap();
    assert_eq!(
        (t.module.as_str(), t.callable.as_str(), t.method),
        ("pkg.mod", "Class", Some("method".to_string()))
    );
    for bad in ["pkg.mod", "a:b:c", "a:b.c.d", ""] {
        match parse_target(bad) {
            Err(BridgeError::InvalidEntryPoint(t)) => assert_eq!(t, bad),
            other => panic!("{:?}", other),
        }
    }
    assert_eq!(resolve_module("pkg.mod", None).unwrap(), "pkg.mod");
    assert_eq!(resolve_module(".upgrader", Some("r2x-sienna-x")).unwrap(), "r2x_sienna_x.upgrader");
    assert!(matches!(resolve_module(".upgrader", None), Err(BridgeError::Python(_))));
    assert_eq!(resolve_module("", None).unwrap(), "");
}

#[test]
fn upgraders_are_routed_apart() {
    let mut p = plugin(None, None, None);
    assert!(!routes_to_upgrader(None));
    assert!(!routes_to_upgrader(Some(&p)));
    p.upgrader = Some(UpgraderMetadata {
        version_strategy_json: None,
        version_reader_json: None,
        upgrade_steps_json: None,
    });
    assert!(routes_to_upgrader(Some(&p)));
}

#[test]
fn test_find_orphaned_dependencies() {
    let mut m = PluginManifest::default();
    m.add_plugin("main".to_string(), plugin(Some("r2x-a"), Some("explicit"), None)).unwrap();
    m.add_plugin("d1".to_string(), plugin(Some("dep-one"), Some("dependency"), Some("r2x-a"))).unwrap();
    m.add_plugin("d1b".to_string(), plugin(Some("dep-one"), Some("dependency"), Some("r2x-a"))).unwrap();
    m.add_plugin("d2".to_string(), plugin(Some("dep-two"), Some("dependency"), Some("r2x-a"))).unwrap();
    m.add_plugin("d2b".to_string(), plugin(Some("dep-two"), Some("dependency"), Some("r2x-b"))).unwrap();
    m.add_plugin("d3".to_string(), plugin(Some("dep-three"), Some("dependency"), Some("r2x-a"))).unwrap();
    m.add_plugin("d3b".to_string(), plugin(Some("dep-three"), Some("explicit"), None)).unwrap();
    m.add_plugin("d4".to_string(), plugin(Some("dep-four"), Some("dependency"), None)).unwrap();
    m.add_plugin("d5".to_string(), plugin(None, Some("dependency"), Some("r2x-a"))).unwrap();
    assert_eq!(find_orphaned_dependencies(&m, "r2x-a"), vec!["dep-one"]);
    m.add_plugin("d0".to_string(), plugin(Some("dep-zero"), Some("dependency"), Some("r2x-a"))).unwrap();
    m.add_plugin("d1c".to_string(), plugin(Some("dep-one"), Some("dependency"), Some("r2x-a"))).unwrap();
    assert_eq!(find_orphaned_dependencies(&m, "r2x-a"), vec!["dep-one", "dep-zero"]);
    assert_eq!(find_orphaned_dependencies(&m, "r2x-b"), Vec::<String>::new());
    assert_eq!(find_orphaned_dependencies(&m, "other"), Vec::<String>::new());
}

fn installed() -> PluginManifest {
    let mut m = PluginManifest::default();
    m.add_plugin("main".to_string(), plugin(Some("r2x-a"), Some("explicit"), None)).unwrap();
    m.add_plugin("dep".to_string(), plugin(Some("helper"), Some("dependency"), Some("r2x-a"))).unwrap();
    m.add_plugin("other".to_string(), plugin(Some("r2x-b"), Some("explicit"), None)).unwrap();
    m
}

#[test]
fn test_remove_plugin_not_found() {
    let mut m = installed();
    assert!(find_orphaned_dependencies(&m, "r2x-missing").is_empty());
    assert_eq!(m.remove_plugins_by_package("r2x-missing"), 0);
    assert_eq!(m.list_plugins().len(), 3);
}

#[test]
fn test_remove_plugin_with_dependencies() {
    let mut m = installed();
    let orphans = find_orphaned_dependencies(&m, "r2x-a");
    assert_eq!(orphans, vec!["helper"]);
    let mut removed = m.remove_plugins_by_package("r2x-a");
    for dep in &orphans {
        removed += m.remove_plugins_by_package(dep);
    }
    assert_eq!(removed, 2);
    let names: Vec<&str> = m.list_plugins().iter().map(|(n, _)| *n).collect();
    assert_eq!(names, vec!["other"]);
}
