use r2x::ast_parser::{extract_plugins_list, extract_register_plugin_function};
use r2x::constructor_parser::{
    extract_kwargs, find_kwarg, infer_plugin_kind, parse_kwarg_value, parse_plugin_constructor,
    resolve_enum_value, split_kwargs, Classified,
};
use r2x::decorator_processor::{
    build_upgrade_step_from_decorator, extract_decorator_based_attribute,
    extract_steps_from_decorators, is_excluded_entry, is_source_file, search_decorators,
    search_decorators_recursive,
};
use r2x::discovery::AstDiscovery;
use r2x::errors::{BridgeError, ErrorKind};
use r2x::import_resolver::{build_import_map, ImportMap};
use r2x::json_builder::{
    extract_package, extract_package_json, fill_parameters, infer_callable_type_from_name,
    infer_plugin_type,
};
use r2x::render::{render_callable, render_step, render_value};
use r2x::records::{KwargValue, PluginKind, SourceFile, StepKind};

fn imports(text: &str) -> ImportMap {
    build_import_map(text).unwrap()
}

fn bound(map: &ImportMap, local: &str) -> Option<(String, String)> {
    map.symbols.get(local).map(|s| (s.module.clone(), s.name.clone()))
}

fn pair(a: &str, b: &str) -> Option<(String, String)> {
    Some((a.to_string(), b.to_string()))
}

fn raw(call: &str) -> Vec<(String, String)> {
    split_kwargs(call).unwrap().into_iter().map(|p| (p.key, p.value)).collect()
}

fn kv(k: &str, v: &str) -> (String, String) {
    (k.to_string(), v.to_string())
}

fn value(text: &str, map: &ImportMap) -> KwargValue {
    match parse_kwarg_value(text, map).unwrap() {
        Classified::Value(v) => v,
        Classified::NeedsSteps(c) => panic!("steps of {}", c),
    }
}

fn text_of(v: &KwargValue) -> Option<&str> {
    match v {
        KwargValue::Text(s) => Some(s.as_str()),
        _ => None,
    }
}

fn source(name: &str, content: &str) -> SourceFile {
    SourceFile { name: name.to_string(), content: content.to_string() }
}

#[test]
fn test_import_map_single() {
    let content = "from r2x_reeds.parser import ReEDSParser";
    let map = build_import_map(content).unwrap();
    assert_eq!(map.symbols.len(), 1);
    assert!(map.symbols.contains_key("ReEDSParser"));
}

#[test]
fn test_import_map_multiple() {
    let content = "from r2x_reeds.parser import ReEDSParser, Helper";
    let map = build_import_map(content).unwrap();
    assert_eq!(map.symbols.len(), 2);
    assert!(map.symbols.contains_key("ReEDSParser"));
    assert!(map.symbols.contains_key("Helper"));
}

#[test]
fn test_import_map_empty_lines() {
    let content = "\n\nfrom r2x_reeds.parser import ReEDSParser\n";
    let map = build_import_map(content).unwrap();
    assert_eq!(map.symbols.len(), 1);
}

#[test]
fn import_with_rename_binds_local_name() {
    let map = imports("from M import A, B as C");
    assert_eq!(map.symbols.len(), 2);
    assert_eq!(bound(&map, "A"), pair("M", "A"));
    assert_eq!(bound(&map, "C"), pair("M", "B"));
    assert_eq!(bound(&map, "B"), None);
}

#[test]
fn import_later_binding_wins() {
    let map = imports("from a import X\nimport os\nfrom b import X\n");
    assert_eq!(map.symbols.len(), 1);
    assert_eq!(bound(&map, "X"), pair("b", "X"));
}

#[test]
fn import_multi_line_lists_are_passed_over() {
    let map = imports("from a import (\n    X,\n    Y,\n)\nfrom b import Z, \\\n  W\n# from c import Q\n");
    assert_eq!(map.symbols.len(), 1);
    assert_eq!(bound(&map, "Z"), pair("b", "Z"));
    assert!(!map.symbols.contains_key("X"));
    assert!(!map.symbols.contains_key("Q"));
    assert!(imports("").symbols.is_empty());
    assert!(imports("   from  import").symbols.is_empty());
}

#[test]
fn import_names_lose_stray_brackets() {
    let map = imports("  from pkg.mod import (Alpha, Beta)  ");
    assert_eq!(bound(&map, "Alpha"), pair("pkg.mod", "Alpha"));
    assert_eq!(bound(&map, "Beta"), pair("pkg.mod", "Beta"));
}

#[test]
fn kwargs_are_cut_at_top_level_commas() {
    assert_eq!(
        raw("ParserPlugin(name=\"p1\", obj=Parser, io_type=IOType.STDOUT)"),
        vec![kv("name", "\"p1\""), kv("obj", "Parser"), kv("io_type", "IOType.STDOUT")]
    );
    assert_eq!(
        raw("P(\n    a = f(1, 2),\n    b=[1, 2],\n    c={\"k\": (1, 2)},\n)"),
        vec![kv("a", " f(1, 2)"), kv("b", "[1, 2]"), kv("c", "{\"k\": (1, 2)}")]
    );
    assert_eq!(raw("P()"), vec![]);
    assert_eq!(raw("P(a=1) trailing(b=2)"), vec![kv("a", "1")]);
    assert!(matches!(split_kwargs("no parenthesis"), Err(BridgeError::InvalidSyntax(_))));
}

#[test]
fn quoted_value_with_commas_and_parens_is_one_value() {
    assert_eq!(raw("P(a=\"a,b(c)\", b=2)"), vec![kv("a", "\"a,b(c)\""), kv("b", "2")]);
    assert_eq!(raw("P(a='x)', b=\"q\\\"r,\")"), vec![kv("a", "'x)'"), kv("b", "\"q\\\"r,\"")]);
    let map = imports("");
    let pairs = split_kwargs("P(a=\"a,b(c)\")").unwrap();
    assert_eq!(text_of(&value(&pairs[0].value, &map)), Some("a,b(c)"));
}

#[test]
fn scan_of_incomplete_argument_lists() {
    assert_eq!(raw("P(a=,b=1)"), vec![kv("a", "b=1")]);
    assert_eq!(raw("P(a=f(x), b=g(y)"), vec![kv("a", "f(x)")]);
    assert_eq!(raw("P(,a=1,,b=2,)"), vec![kv("a", "1"), kv("b", "2")]);
    assert_eq!(raw("P(a)"), vec![]);
    assert_eq!(raw("P(  spaced   =  v  )"), vec![kv("spaced", "  v  ")]);
    assert_eq!(raw("outer(a=inner(b=1), c=2)"), vec![kv("a", "inner(b=1)"), kv("c", "2")]);
}

#[test]
fn written_pairs_are_read_back() {
    let pairs = vec![
        kv("name", "\"a,b(c)\""),
        kv("obj", "make(1, [2, 3], {\"k\": (4, 5)})"),
        kv("flag", "x==y"),
        kv("text", "'it, (really)'"),
    ];
    let mut call = String::from("ParserPlugin(");
    for (i, (k, v)) in pairs.iter().enumerate() {
        if i > 0 {
            call.push(',');
        }
        call.push_str(k);
        call.push('=');
        call.push_str(v);
    }
    call.push(')');
    assert_eq!(raw(&call), pairs);
}

#[test]
fn blanks_before_keys_are_passed_over() {
    assert_eq!(
        raw("P(  a=1, b=f(x, y),\n\tc=\"s, t\",\r\n    d=[1, 2])"),
        vec![kv("a", "1"), kv("b", "f(x, y)"), kv("c", "\"s, t\""), kv("d", "[1, 2]")]
    );
    let map = imports("from m import Reader");
    let kwargs = extract_kwargs("P(name=\"n\", obj=Reader, flag=True)", &map, &vec![]).unwrap();
    assert_eq!(kwargs.len(), 3);
    assert_eq!(text_of(&find_kwarg(&kwargs, "name").unwrap()), Some("n"));
    assert!(matches!(find_kwarg(&kwargs, "obj"), Some(KwargValue::Callable(_))));
    assert!(matches!(find_kwarg(&kwargs, "flag"), Some(KwargValue::Bool(true))));
}

#[test]
fn key_prefix_up_to_colon_is_dropped() {
    assert_eq!(raw("P(cfg: name=1)"), vec![kv("name", "1")]);
}

#[test]
fn classifier_literals() {
    let map = imports("from pkg.parser import Parser, helper");
    assert!(matches!(value("True", &map), KwargValue::Bool(true)));
    assert!(matches!(value("False", &map), KwargValue::Bool(false)));
    assert!(matches!(value("None", &map), KwargValue::Null));
    assert!(matches!(value("", &map), KwargValue::Null));
    assert!(matches!(value("   ", &map), KwargValue::Null));
    assert_eq!(text_of(&value("\"x\"", &map)), Some("x"));
    assert_eq!(text_of(&value(" 'y' ", &map)), Some("y"));
    assert_eq!(text_of(&value("\"\"", &map)), Some(""));
    assert_eq!(text_of(&value("\"", &map)), Some("\""));
    assert_eq!(text_of(&value("IOType.STDOUT", &map)), Some("stdout"));
    assert_eq!(text_of(&value("IOType.STDIN", &map)), Some("stdin"));
    assert_eq!(text_of(&value("IOType.BOTH", &map)), Some("both"));
    assert!(matches!(value("[1, 2, 3]", &map), KwargValue::List));
    assert!(matches!(value("[a.b]", &map), KwargValue::List));
    assert_eq!(text_of(&value("unknown_name", &map)), Some("unknown_name"));
    assert_eq!(text_of(&value("42", &map)), Some("42"));
    assert_eq!(text_of(&value("'x\"", &map)), Some("'x\""));
    assert!(matches!(value("\u{a0}True\u{2003}", &map), KwargValue::Bool(true)));
}

#[test]
fn classifier_symbols_and_attributes() {
    let map = imports("from pkg.parser import Parser, helper");
    match value("Parser", &map) {
        KwargValue::Callable(c) => {
            assert_eq!(c.module, "pkg.parser");
            assert_eq!(c.name, "Parser");
            assert_eq!(c.callable_type, "class");
            assert_eq!(c.return_annotation, None);
            assert!(c.parameters.is_empty());
        }
        other => panic!("{:?}", other),
    }
    match value("helper", &map) {
        KwargValue::Callable(c) => assert_eq!(c.callable_type, "function"),
        other => panic!("{:?}", other),
    }
    match parse_kwarg_value("Upgrader.steps", &map) {
        Ok(Classified::NeedsSteps(class)) => assert_eq!(class, "Upgrader"),
        other => panic!("{:?}", other),
    }
    let err = parse_kwarg_value("IOType.OTHER", &map).unwrap_err();
    assert_eq!(err.kind(), ErrorKind::UnsupportedConstruct);
    assert!(matches!(err, BridgeError::UnsupportedConstruct(_)));
    assert_eq!(parse_kwarg_value("3.14", &map).unwrap_err().kind(), ErrorKind::UnsupportedConstruct);
}

#[test]
fn enum_table_and_name_heuristics() {
    assert_eq!(resolve_enum_value("IOType.STDOUT"), Some("stdout".to_string()));
    assert_eq!(resolve_enum_value("IOType.stdout"), None);
    assert_eq!(infer_callable_type_from_name("Parser"), "class");
    assert_eq!(infer_callable_type_from_name("parse"), "function");
    assert_eq!(infer_callable_type_from_name(""), "function");
    assert_eq!(infer_callable_type_from_name("_P"), "function");
    assert_eq!(infer_callable_type_from_name("ReEDSParser"), "class");
    assert_eq!(infer_callable_type_from_name("run"), "function");
    assert_eq!(infer_callable_type_from_name("_Private"), "function");
    assert_eq!(infer_callable_type_from_name("\u{c9}mile"), "class");
    assert_eq!(infer_callable_type_from_name("\u{e9}mile"), "function");
    assert_eq!(infer_plugin_type("ParserPlugin"), "parser");
    assert_eq!(infer_plugin_type("ExporterPlugin"), "exporter");
    assert_eq!(infer_plugin_type("UpgraderPlugin"), "upgrader");
    assert_eq!(infer_plugin_type("BasePlugin"), "function");
    assert_eq!(infer_plugin_type("Anything"), "function");
    assert_eq!(infer_plugin_kind("ParserPlugin"), PluginKind::Parser);
    assert_eq!(infer_plugin_kind("ExporterPlugin"), PluginKind::Exporter);
    assert_eq!(infer_plugin_kind("UpgraderPlugin"), PluginKind::Upgrader);
    assert_eq!(infer_plugin_kind("BasePlugin"), PluginKind::Modifier);
}

#[test]
fn upgrade_step_defaults_and_overrides() {
    let step = build_upgrade_step_from_decorator("move_files", "").unwrap();
    assert_eq!(step.name, "move_files");
    assert_eq!(step.func.name, "move_files");
    assert_eq!(step.func.callable_type, "function");
    assert_eq!(step.target_version, "unknown");
    assert_eq!(step.upgrade_type, StepKind::File);
    assert_eq!(step.priority, 100);
    assert_eq!(step.min_version, None);
    assert_eq!(step.max_version, None);

    let step = build_upgrade_step_from_decorator(
        "s",
        "target_version=\"2.0\", upgrade_type=UpgradeType.system, priority=30, min_version=\"1.0\", max_version=LATEST",
    )
    .unwrap();
    assert_eq!(step.target_version, "2.0");
    assert_eq!(step.upgrade_type, StepKind::System);
    assert_eq!(step.priority, 30);
    assert_eq!(step.min_version, Some("1.0".to_string()));
    assert_eq!(step.max_version, Some("LATEST".to_string()));

    let step = build_upgrade_step_from_decorator("s", "upgrade_type=UpgradeType.OTHER, priority=x").unwrap();
    assert_eq!(step.upgrade_type, StepKind::Unknown);
    assert_eq!(step.priority, 100);
    let step = build_upgrade_step_from_decorator(
        "f",
        "target_version='1.0', upgrade_type=pkg.UpgradeType.System, min_version='0.9', max_version=\"2'",
    )
    .unwrap();
    assert_eq!(step.target_version, "1.0");
    assert_eq!(step.upgrade_type, StepKind::System);
    assert_eq!(step.min_version, Some("0.9".to_string()));
    assert_eq!(step.max_version, Some("\"2'".to_string()));
    let step = build_upgrade_step_from_decorator("s", "upgrade_type=a.b.System").unwrap();
    assert_eq!(step.upgrade_type, StepKind::System);
    let step = build_upgrade_step_from_decorator("s", "upgrade_type=FILE, priority=-7").unwrap();
    assert_eq!(step.upgrade_type, StepKind::File);
    assert_eq!(step.priority, -7);
    let step = build_upgrade_step_from_decorator("s", "priority=9223372036854775807").unwrap();
    assert_eq!(step.priority, i64::MAX);
    let step = build_upgrade_step_from_decorator("s", "priority=-9223372036854775808").unwrap();
    assert_eq!(step.priority, i64::MIN);
    let step = build_upgrade_step_from_decorator("s", "priority=9223372036854775808").unwrap();
    assert_eq!(step.priority, 100);
    let step = build_upgrade_step_from_decorator("s", "priority=+12").unwrap();
    assert_eq!(step.priority, 12);
}

const STEP_FILE_ONE: &str = "class U:\n    @Upgrader.register_step(target_version=\"1.1\", priority=10)\n    def first_step(self, data):\n        pass\n";
const STEP_FILE_TWO: &str = "@Upgrader.register_step(upgrade_type=UpgradeType.SYSTEM)\ndef second_step(system):\n    pass\n\n@Other.register_step()\ndef not_ours():\n    pass\n";

#[test]
fn steps_of_one_file_come_in_file_order() {
    let both = format!("{}{}", STEP_FILE_ONE, STEP_FILE_TWO);
    let steps = extract_steps_from_decorators(&both, "Upgrader").unwrap();
    assert_eq!(steps.len(), 2);
    assert_eq!(steps[0].name, "first_step");
    assert_eq!(steps[0].target_version, "1.1");
    assert_eq!(steps[0].priority, 10);
    assert_eq!(steps[1].name, "second_step");
    assert_eq!(steps[1].upgrade_type, StepKind::System);
    assert_eq!(steps[1].priority, 100);
    assert!(extract_steps_from_decorators(&both, "Missing").unwrap().is_empty());
    assert!(extract_steps_from_decorators("@Upgrader.register_step(a=1", "Upgrader").unwrap().is_empty());
}

#[test]
fn two_files_with_one_decorator_each_give_two_steps() {
    let sources = vec![
        source("a.py", STEP_FILE_ONE),
        source("notes.txt", STEP_FILE_ONE),
        source("b.py", STEP_FILE_TWO),
    ];
    let steps = search_decorators(&sources, "Upgrader");
    assert_eq!(steps.len(), 2);
    assert_eq!(steps[0].name, "first_step");
    assert_eq!(steps[1].name, "second_step");
    assert_eq!(steps[1].priority, 100);
    let mut all = search_decorators(&sources, "Other");
    assert_eq!(all.len(), 1);
    search_decorators_recursive(&sources, "Upgrader", &mut all);
    let names: Vec<&str> = all.iter().map(|s| s.name.as_str()).collect();
    assert_eq!(names, vec!["not_ours", "first_step", "second_step"]);
    let found = extract_decorator_based_attribute("Upgrader", "steps", &sources).unwrap();
    assert_eq!(found.len(), 2);
    let missing = extract_decorator_based_attribute("Nobody", "steps", &sources).unwrap_err();
    assert_eq!(missing.kind(), ErrorKind::NotFound);
}

#[test]
fn walk_passes_over_hidden_and_cache_entries() {
    assert!(is_excluded_entry(".git"));
    assert!(is_excluded_entry("__pycache__"));
    assert!(is_excluded_entry("venv"));
    assert!(!is_excluded_entry("src"));
    assert!(!is_excluded_entry(""));
    assert!(is_source_file("plugins.py"));
    assert!(!is_source_file("plugins.pyc"));
    assert!(!is_source_file("py"));
}

const ENTRY: &str = "from pkg.parser import Parser\nfrom pkg.up import Upgrader as Up, export\n\ndef register_plugin() -> Package:\n\n    return Package(\n        name=\"pkg\",\n        plugins=[\n            ParserPlugin(name=\"p1\", obj=Parser, io_type=IOType.STDOUT, call_method=\"build\"),\n            UpgraderPlugin(name=\"up\", obj=Up, upgrade_steps=Upgrader.steps),\n            ExporterPlugin(name=\"ex\", obj=export),\n            BasePlugin(name=\"bad\", obj=missing.attr),\n            ParserPlugin(name=\"p1\", obj=export),\n        ],\n    )\n\ndef other():\n    pass\n";

#[test]
fn registration_function_body_is_cut_by_indent() {
    let body = extract_register_plugin_function(ENTRY).unwrap();
    assert!(body.starts_with("    return Package("));
    assert!(body.ends_with("    )\n"));
    assert!(!body.contains("def other"));
    assert_eq!(
        extract_register_plugin_function("def register_plugin():\n  a\n\n  b\nc\n  d").unwrap(),
        "  a\n\n  b"
    );
    let err = extract_register_plugin_function("def something_else():\n    pass\n").unwrap_err();
    assert_eq!(err.kind(), ErrorKind::NotFound);
    let err = extract_register_plugin_function("def register_plugin(").unwrap_err();
    assert!(matches!(err, BridgeError::PluginNotFound(_)));
}

#[test]
fn registration_calls_come_in_the_order_of_the_text() {
    let calls = extract_plugins_list("plugins= [ParserPlugin(name=\"a\"), BasePlugin(name=f(1)), ParserPlugin(name=\"b\")]").unwrap();
    assert_eq!(
        calls,
        vec!["ParserPlugin(name=\"a\")", "BasePlugin(name=f(1))", "ParserPlugin(name=\"b\")"]
    );
    let calls =
        extract_plugins_list("plugins=[ExporterPlugin(name=\"e\"), ParserPlugin(name=\"p\")]")
            .unwrap();
    assert_eq!(calls, vec!["ExporterPlugin(name=\"e\")", "ParserPlugin(name=\"p\")"]);
    let calls = extract_plugins_list("plugins=[ParserPlugin(a=1), ParserPlugin(a=1)]").unwrap();
    assert_eq!(calls, vec!["ParserPlugin(a=1)"]);
    let calls = extract_plugins_list(
        "plugins=[UpgraderPlugin(name=\"u\", obj=BasePlugin(name=\"in\")), ExporterPlugin]",
    )
    .unwrap();
    assert_eq!(
        calls,
        vec!["UpgraderPlugin(name=\"u\", obj=BasePlugin(name=\"in\"))", "BasePlugin(name=\"in\")"]
    );
}

#[test]
fn first_of_two_plugins_with_one_name_is_the_first_in_the_text() {
    let entry = "from m import A, b\n\ndef register_plugin():\n    return Package(plugins=[ExporterPlugin(name=\"same\", obj=b), ParserPlugin(name=\"same\", obj=A)])\n";
    let pkg = AstDiscovery::discover_package(entry, "x", &vec![]).unwrap();
    assert_eq!(pkg.plugins.len(), 1);
    assert_eq!(pkg.plugins[0].plugin_type, "exporter");
    assert_eq!(pkg.plugins[0].obj.name, "b");
}

#[test]
fn no_registration_call_is_not_found() {
    for text in ["", "plugins=[]", "plugins=[Other(a=1)]", "plugins=(ParserPlugin(a=1))", "plugins=[ParserPlugin(a=1)", "nothing here", "plugins=[ParserPlugin]"] {
        let err = extract_plugins_list(text).unwrap_err();
        assert_eq!(err.kind(), ErrorKind::NotFound, "{}", text);
        let map = imports("");
        let err = extract_package(text, &map, "pkg", &vec![]).unwrap_err();
        assert_eq!(err.kind(), ErrorKind::NotFound, "{}", text);
    }
    let err = AstDiscovery::discover_package("x = 1\n", "pkg", &vec![]).unwrap_err();
    assert_eq!(err.kind(), ErrorKind::NotFound);
    let err = AstDiscovery::discover_package("def register_plugin():\n    return Package(plugins=[])\n", "pkg", &vec![]).unwrap_err();
    assert_eq!(err.kind(), ErrorKind::NotFound);
}

#[test]
fn constructor_needs_name_and_resolved_object() {
    let map = imports("from pkg.parser import Parser");
    let none: Vec<SourceFile> = vec![];
    let p = parse_plugin_constructor("ParserPlugin(name=\"p1\", obj=Parser, requires_store=True)", &map, &none).unwrap();
    assert_eq!(p.name, "p1");
    assert_eq!(p.kind, PluginKind::Parser);
    assert_eq!(p.plugin_type, "parser");
    assert_eq!(p.obj.module, "pkg.parser");
    assert_eq!(p.obj.name, "Parser");
    assert!(matches!(p.requires_store, Some(KwargValue::Bool(true))));
    assert!(p.config.is_none());
    assert!(p.io_type.is_none());
    for bad in [
        "ParserPlugin(obj=Parser)",
        "ParserPlugin(name=\"\", obj=Parser)",
        "ParserPlugin(name=Parser, obj=Parser)",
        "ParserPlugin(name=\"p\")",
        "ParserPlugin(name=\"p\", obj=Unknown)",
        "ParserPlugin",
    ] {
        let err = parse_plugin_constructor(bad, &map, &none).unwrap_err();
        assert_eq!(err.kind(), ErrorKind::InvalidSyntax, "{}", bad);
    }
    let err = parse_plugin_constructor(
        "ParserPlugin(name=\"p\", obj=Parser, upgrade_steps=Parser.steps)",
        &map,
        &none,
    )
    .unwrap_err();
    assert_eq!(err.kind(), ErrorKind::NotFound);
    assert_eq!(BridgeError::InvalidSyntax("x".to_string()).to_string(), "Invalid syntax: x");
    assert_eq!(BridgeError::Serialization("x".to_string()).kind(), ErrorKind::Other);
    let err = parse_plugin_constructor("ParserPlugin(name=\"p\", obj=a.b)", &map, &none).unwrap_err();
    assert_eq!(err.kind(), ErrorKind::UnsupportedConstruct);
    let kwargs = extract_kwargs("P(a=1, b=2, a=3)", &map, &none).unwrap();
    assert_eq!(kwargs.len(), 3);
    assert_eq!(text_of(&find_kwarg(&kwargs, "a").unwrap()), Some("3"));
    assert!(find_kwarg(&kwargs, "c").is_none());
}

#[test]
fn end_to_end_discovery() {
    let sources = vec![source("steps.py", STEP_FILE_ONE), source("more.py", STEP_FILE_TWO)];
    let pkg = AstDiscovery::discover_package(ENTRY, "pkg-full", &sources).unwrap();
    assert_eq!(pkg.name, "pkg-full");
    let names: Vec<&str> = pkg.plugins.iter().map(|p| p.name.as_str()).collect();
    assert_eq!(names, vec!["p1", "up", "ex"]);
    assert_eq!(pkg.plugins[0].obj.module, "pkg.parser");
    assert_eq!(pkg.plugins[0].obj.name, "Parser");
    assert_eq!(pkg.plugins[0].obj.callable_type, "class");
    assert_eq!(pkg.plugins[0].io_type, Some("stdout".to_string()));
    assert_eq!(text_of(pkg.plugins[0].call_method.as_ref().unwrap()), Some("build"));
    assert_eq!(pkg.plugins[1].kind, PluginKind::Upgrader);
    assert_eq!(pkg.plugins[1].obj.module, "pkg.up");
    assert_eq!(pkg.plugins[1].obj.name, "Upgrader");
    match pkg.plugins[1].upgrade_steps.as_ref().unwrap() {
        KwargValue::Steps(steps) => {
            assert_eq!(steps.len(), 2);
            assert_eq!(steps[0].name, "first_step");
        }
        other => panic!("{:?}", other),
    }
    assert_eq!(pkg.plugins[2].obj.callable_type, "function");
    assert_eq!(pkg.plugins[2].plugin_type, "exporter");
}

#[test]
fn one_import_and_one_registration() {
    let entry = "from my_pkg.readers import Reader\n\ndef register_plugin():\n    return Package(name=\"x\", plugins=[ParserPlugin(name=\"p1\", obj=Reader)])\n";
    let pkg = AstDiscovery::discover_package(entry, "x", &vec![]).unwrap();
    assert_eq!(pkg.plugins.len(), 1);
    assert_eq!(pkg.plugins[0].name, "p1");
    assert_eq!(pkg.plugins[0].obj.module, "my_pkg.readers");
}

fn parsed(json: &str) -> serde_json::Value {
    serde_json::from_str(json).unwrap()
}

#[test]
fn one_import_and_one_registration_as_json() {
    let entry = "from my_pkg.readers import Reader\n\ndef register_plugin():\n    return Package(name=\"x\", plugins=[ParserPlugin(name=\"p1\", obj=Reader)])\n";
    let json = AstDiscovery::discover_plugins(entry, "x", &vec![]).unwrap();
    let doc = parsed(&json);
    assert_eq!(doc["name"], "x");
    assert_eq!(doc["plugins"].as_array().unwrap().len(), 1);
    assert_eq!(doc["plugins"][0]["name"], "p1");
    assert_eq!(doc["plugins"][0]["plugin_type"], "parser");
    assert_eq!(doc["plugins"][0]["obj"]["module"], "my_pkg.readers");
    assert_eq!(doc["plugins"][0]["obj"]["name"], "Reader");
    assert_eq!(doc["plugins"][0]["obj"]["type"], "class");
    assert!(doc["plugins"][0]["obj"]["return_annotation"].is_null());
    assert_eq!(doc["plugins"][0]["obj"]["parameters"].as_object().unwrap().len(), 0);
    assert_eq!(doc["metadata"].as_object().unwrap().len(), 0);
    let keys: Vec<&String> = doc["plugins"][0].as_object().unwrap().keys().collect();
    assert_eq!(keys.len(), 3);
    assert_eq!(
        json,
        "{\"metadata\":{},\"name\":\"x\",\"plugins\":[{\"name\":\"p1\",\"obj\":{\"module\":\"my_pkg.readers\",\"name\":\"Reader\",\"parameters\":{},\"return_annotation\":null,\"type\":\"class\"},\"plugin_type\":\"parser\"}]}"
    );
    assert_eq!(json, doc.to_string());
}

#[test]
fn full_document_as_json() {
    let sources = vec![source("steps.py", STEP_FILE_ONE), source("more.py", STEP_FILE_TWO)];
    let map = imports(ENTRY);
    let body = extract_register_plugin_function(ENTRY).unwrap();
    let doc = parsed(&extract_package_json(&body, &map, "pkg \"full\"", &sources).unwrap());
    assert_eq!(doc["name"], "pkg \"full\"");
    let plugins = doc["plugins"].as_array().unwrap();
    assert_eq!(plugins.len(), 3);
    assert_eq!(plugins[0]["io_type"], "stdout");
    assert_eq!(plugins[0]["call_method"], "build");
    assert!(plugins[0].get("config").is_none());
    assert!(plugins[0].get("upgrade_steps").is_none());
    let steps = plugins[1]["upgrade_steps"].as_array().unwrap();
    assert_eq!(steps.len(), 2);
    assert_eq!(steps[0]["name"], "first_step");
    assert_eq!(steps[0]["target_version"], "1.1");
    assert_eq!(steps[0]["priority"], 10);
    assert_eq!(steps[0]["upgrade_type"], "FILE");
    assert_eq!(steps[0]["func"]["type"], "function");
    assert!(steps[0].get("min_version").is_none());
    assert_eq!(steps[1]["upgrade_type"], "SYSTEM");
    assert_eq!(steps[1]["priority"], 100);
    let text = extract_package_json(&body, &map, "pkg", &sources).unwrap();
    assert_eq!(text, parsed(&text).to_string());
    let err = extract_package_json("plugins=[]", &map, "pkg", &sources).unwrap_err();
    assert_eq!(err.kind(), ErrorKind::NotFound);
}

#[test]
fn values_and_parameters_as_json() {
    assert_eq!(render_value(&KwargValue::Null), "null");
    assert_eq!(render_value(&KwargValue::Bool(true)), "true");
    assert_eq!(render_value(&KwargValue::Bool(false)), "false");
    assert_eq!(render_value(&KwargValue::List), "[]");
    assert_eq!(render_value(&KwargValue::Steps(vec![])), "[]");
    assert_eq!(render_value(&KwargValue::Text("a\"b\\c\n".to_string())), "\"a\\\"b\\\\c\\n\"");
    let file = "class R:\n    def __init__(self, a: int, b: str = \"x\"):\n        pass\n";
    let callable = r2x::records::CallableMetadata {
        module: "m".to_string(),
        name: "R".to_string(),
        callable_type: "class".to_string(),
        return_annotation: Some("None".to_string()),
        parameters: r2x::parameter_extractor::extract_init_parameters(file, "R").unwrap(),
    };
    let doc = parsed(&render_callable(&callable));
    assert_eq!(doc["return_annotation"], "None");
    assert_eq!(doc["parameters"]["a"]["annotation"], "int");
    assert_eq!(doc["parameters"]["a"]["is_required"], true);
    assert!(doc["parameters"]["a"].get("default").is_none());
    assert_eq!(doc["parameters"]["b"]["annotation"], "str");
    assert_eq!(doc["parameters"]["b"]["default"], "\"x\"");
    assert_eq!(doc["parameters"]["b"]["is_required"], false);
    let step = build_upgrade_step_from_decorator(
        "s",
        "priority=-9223372036854775808, min_version=\"1\", max_version=\"2\"",
    )
    .unwrap();
    let doc = parsed(&render_step(&step));
    assert_eq!(doc["priority"], i64::MIN);
    assert_eq!(doc["min_version"], "1");
    assert_eq!(doc["max_version"], "2");
    assert_eq!(doc["upgrade_type"], "FILE");
}

#[test]
fn parameters_are_filled_in_from_the_sources() {
    let entry = "from pkg.readers import Reader, helper\n\ndef register_plugin():\n    return Package(plugins=[ParserPlugin(name=\"p\", obj=Reader), BasePlugin(name=\"h\", obj=helper)])\n";
    let sources = vec![source(
        "readers.py",
        "class Reader:\n    def __init__(self, a: int, b: str = \"x\"):\n        pass\n",
    )];
    let pkg = AstDiscovery::discover_package(entry, "pkg", &sources).unwrap();
    assert!(pkg.plugins[0].obj.parameters.is_empty());
    let pkg = fill_parameters(pkg, &sources);
    assert_eq!(pkg.name, "pkg");
    assert_eq!(pkg.plugins.len(), 2);
    assert_eq!(pkg.plugins[0].name, "p");
    let names: Vec<&str> = pkg.plugins[0].obj.parameters.iter().map(|p| p.name.as_str()).collect();
    assert_eq!(names, vec!["a", "b"]);
    assert!(pkg.plugins[0].obj.parameters[0].meta.is_required);
    assert!(!pkg.plugins[0].obj.parameters[1].meta.is_required);
    assert_eq!(pkg.plugins[1].name, "h");
    assert!(pkg.plugins[1].obj.parameters.is_empty());
}

#[test]
fn symbol_table_without_repeated_names_is_well_formed() {
    let map = imports("from a import X, Y\nfrom b import X");
    assert!(map.symbols.is_well_formed());
    let mut table = r2x::import_resolver::SymbolTable::new();
    assert!(table.is_well_formed());
    for _ in 0..2 {
        table.entries.push(r2x::import_resolver::Symbol {
            local: "X".to_string(),
            module: "m".to_string(),
            name: "X".to_string(),
        });
    }
    assert!(!table.is_well_formed());
}
