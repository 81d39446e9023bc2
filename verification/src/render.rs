//! The document that extraction hands on: the plugins of a package as
//! JSON text. Keys that do not apply are left out; the keys of an object
//! stand in the order of the alphabet.

use crate::records::{
    opt_text, opt_value, parameters_view, plugins_view, steps_view, CallableMetadata,
    CallableModel, KwargValue, PackageRecord, Parameter, ParameterModel, PluginModel,
    PluginRecord, StepKind, StepModel, UpgradeStep, ValueModel,
};
use vstd::prelude::*;
use vstd::string::*;

verus! {

/// The JSON string literal that stands for a text.
pub uninterp spec fn json_text(s: Seq<char>) -> Seq<char>;

/// The character of a decimal digit.
pub open spec fn digit_char(d: int) -> char {
    ((d + 48) as u8) as char
}

/// A natural number in decimal digits, without leading zeros.
pub open spec fn nat_text(n: nat) -> Seq<char>
    decreases n,
{
    if n < 10 {
        seq![digit_char(n as int)]
    } else {
        nat_text(n / 10).push(digit_char((n % 10) as int))
    }
}

/// The JSON number that stands for an integer: its decimal digits, after
/// a minus sign where it is negative.
pub open spec fn json_integer(n: int) -> Seq<char> {
    if n < 0 {
        seq!['-'] + nat_text((-n) as nat)
    } else {
        nat_text(n as nat)
    }
}

/// `serde_json::to_string` on a string slice gives the JSON string
/// literal for it, quotes and escapes included; the literal depends on the
/// text alone.
#[verifier::external_body]
fn quoted(s: &str) -> (r: String)
    ensures
        r@ == json_text(s@),
{
    match serde_json::to_string(s) {
        Ok(t) => t,
        Err(_) => String::new(),
    }
}

/// `serde_json::to_string` on an integer of 64 bits writes the integer in
/// decimal digits, with a minus sign before a negative one.
#[verifier::external_body]
fn integer(n: i64) -> (r: String)
    ensures
        r@ == json_integer(n as int),
{
    match serde_json::to_string(&n) {
        Ok(t) => t,
        Err(_) => String::new(),
    }
}

/// A truth value.
pub open spec fn bool_json(b: bool) -> Seq<char> {
    if b {
        "true"@
    } else {
        "false"@
    }
}

/// A text, or `null` where there is none.
pub open spec fn nullable_json(o: Option<Seq<char>>) -> Seq<char> {
    match o {
        Some(s) => json_text(s),
        None => "null"@,
    }
}

/// A member `"key":"text",` of an object, or nothing where there is no
/// text.
pub open spec fn text_member(key: Seq<char>, o: Option<Seq<char>>) -> Seq<char> {
    match o {
        Some(s) => json_text(key) + ":"@ + json_text(s) + ","@,
        None => Seq::empty(),
    }
}

/// One parameter as a member of the object of parameters.
pub open spec fn parameter_json(p: (Seq<char>, ParameterModel)) -> Seq<char> {
    json_text(p.0) + ":{"@ + text_member("annotation"@, p.1.annotation) + text_member(
        "default"@,
        p.1.default,
    ) + "\"is_required\":"@ + bool_json(p.1.is_required) + "}"@
}

/// The first `n` parameters, with commas between them.
pub open spec fn parameters_json(ps: Seq<(Seq<char>, ParameterModel)>, n: int) -> Seq<char>
    decreases n,
{
    if n <= 0 || n > ps.len() {
        Seq::empty()
    } else if n == 1 {
        parameter_json(ps[0])
    } else {
        parameters_json(ps, n - 1) + ","@ + parameter_json(ps[n - 1])
    }
}

/// A callable as an object, its keys in the order of the alphabet.
pub open spec fn callable_json(c: CallableModel) -> Seq<char> {
    "{\"module\":"@ + json_text(c.module) + ",\"name\":"@ + json_text(c.name)
        + ",\"parameters\":{"@ + parameters_json(c.parameters, c.parameters.len() as int)
        + "},\"return_annotation\":"@ + nullable_json(c.return_annotation) + ",\"type\":"@
        + json_text(c.callable_type) + "}"@
}

/// The category of a step, in capitals.
pub open spec fn step_kind_json(k: StepKind) -> Seq<char> {
    match k {
        StepKind::File => "\"FILE\""@,
        StepKind::System => "\"SYSTEM\""@,
        StepKind::Unknown => "\"UNKNOWN\""@,
    }
}

/// A member `,"key":"text"` of an object, or nothing where there is no
/// text.
pub open spec fn late_member(key: Seq<char>, o: Option<Seq<char>>) -> Seq<char> {
    match o {
        Some(s) => ","@ + json_text(key) + ":"@ + json_text(s),
        None => Seq::empty(),
    }
}

/// An upgrade step as an object, its keys in the order of the alphabet.
pub open spec fn step_json(s: StepModel) -> Seq<char> {
    "{\"func\":"@ + callable_json(s.func) + late_member("max_version"@, s.max_version)
        + late_member("min_version"@, s.min_version) + ",\"name\":"@ + json_text(s.name)
        + ",\"priority\":"@ + json_integer(s.priority) + ",\"target_version\":"@ + json_text(
        s.target_version,
    ) + ",\"upgrade_type\":"@ + step_kind_json(s.upgrade_type) + "}"@
}

/// The first `n` steps, with commas between them.
pub open spec fn steps_json(ss: Seq<StepModel>, n: int) -> Seq<char>
    decreases n,
{
    if n <= 0 || n > ss.len() {
        Seq::empty()
    } else if n == 1 {
        step_json(ss[0])
    } else {
        steps_json(ss, n - 1) + ","@ + step_json(ss[n - 1])
    }
}

/// A classified value.
pub open spec fn value_json(v: ValueModel) -> Seq<char> {
    match v {
        ValueModel::Null => "null"@,
        ValueModel::Bool(b) => bool_json(b),
        ValueModel::Text(s) => json_text(s),
        ValueModel::List => "[]"@,
        ValueModel::Callable(c) => callable_json(c),
        ValueModel::Steps(ss) => "["@ + steps_json(ss, ss.len() as int) + "]"@,
    }
}

/// A member `,"key":value` of an object, or nothing where there is no
/// value.
pub open spec fn value_member(key: Seq<char>, o: Option<ValueModel>) -> Seq<char> {
    match o {
        Some(v) => ","@ + json_text(key) + ":"@ + value_json(v),
        None => Seq::empty(),
    }
}

/// A member `"key":value,` of an object, or nothing where there is no
/// value.
pub open spec fn early_member(key: Seq<char>, o: Option<ValueModel>) -> Seq<char> {
    match o {
        Some(v) => json_text(key) + ":"@ + value_json(v) + ","@,
        None => Seq::empty(),
    }
}

/// A plugin as an object: name, type and object always; every other key
/// only where the registration gave it; the keys in the order of the
/// alphabet.
pub open spec fn plugin_json(p: PluginModel) -> Seq<char> {
    "{"@ + early_member("call_method"@, p.call_method) + early_member("config"@, p.config)
        + text_member("io_type"@, p.io_type) + "\"name\":"@ + json_text(p.name) + ",\"obj\":"@
        + callable_json(p.obj) + ",\"plugin_type\":"@ + json_text(p.plugin_type) + value_member(
        "requires_store"@,
        p.requires_store,
    ) + value_member("upgrade_steps"@, p.upgrade_steps) + value_member(
        "version_reader"@,
        p.version_reader,
    ) + value_member("version_strategy"@, p.version_strategy) + "}"@
}

/// The first `n` plugins, with commas between them.
pub open spec fn plugins_json(ps: Seq<PluginModel>, n: int) -> Seq<char>
    decreases n,
{
    if n <= 0 || n > ps.len() {
        Seq::empty()
    } else if n == 1 {
        plugin_json(ps[0])
    } else {
        plugins_json(ps, n - 1) + ","@ + plugin_json(ps[n - 1])
    }
}

/// The document of a package: empty metadata, its name, and its plugins
/// in their order.
pub open spec fn package_json(name: Seq<char>, plugins: Seq<PluginModel>) -> Seq<char> {
    "{\"metadata\":{},\"name\":"@ + json_text(name) + ",\"plugins\":["@ + plugins_json(
        plugins,
        plugins.len() as int,
    ) + "]}"@
}

fn render_bool(b: bool) -> (r: &'static str)
    ensures
        r@ == bool_json(b),
{
    if b {
        "true"
    } else {
        "false"
    }
}

fn render_text_member(key: &str, o: &Option<String>) -> (r: String)
    ensures
        r@ == text_member(key@, opt_text(*o)),
{
    match o {
        Some(s) => quoted(key).concat(":").concat(quoted(s.as_str()).as_str()).concat(","),
        None => String::new(),
    }
}

fn render_late_member(key: &str, o: &Option<String>) -> (r: String)
    ensures
        r@ == late_member(key@, opt_text(*o)),
{
    match o {
        Some(s) => String::from_str(",").concat(quoted(key).as_str()).concat(":").concat(
            quoted(s.as_str()).as_str(),
        ),
        None => String::new(),
    }
}

fn render_parameter(p: &Parameter) -> (r: String)
    ensures
        r@ == parameter_json(p@),
{
    quoted(p.name.as_str()).concat(":{").concat(
        render_text_member("annotation", &p.meta.annotation).as_str(),
    ).concat(render_text_member("default", &p.meta.default).as_str()).concat(
        "\"is_required\":",
    ).concat(render_bool(p.meta.is_required)).concat("}")
}

fn render_parameters(ps: &Vec<Parameter>) -> (r: String)
    ensures
        r@ == parameters_json(parameters_view(ps@), ps@.len() as int),
{
    let mut out = String::new();
    let ghost items = parameters_view(ps@);
    let mut i: usize = 0;
    while i < ps.len()
        invariant
            i <= ps@.len(),
            items == parameters_view(ps@),
            out@ == parameters_json(items, i as int),
        decreases ps@.len() - i,
    {
        assert(items[i as int] == ps@[i as int]@);
        let one = render_parameter(&ps[i]);
        if i > 0 {
            out.append(",");
        }
        out.append(one.as_str());
        assert(i == 0 ==> out@ =~= one@);
        i += 1;
    }
    out
}

/// A callable as JSON text.
pub fn render_callable(c: &CallableMetadata) -> (r: String)
    ensures
        r@ == callable_json(c@),
{
    let tail = match &c.return_annotation {
        Some(s) => quoted(s.as_str()),
        None => String::from_str("null"),
    };
    String::from_str("{\"module\":").concat(quoted(c.module.as_str()).as_str()).concat(
        ",\"name\":",
    ).concat(quoted(c.name.as_str()).as_str()).concat(",\"parameters\":{").concat(
        render_parameters(&c.parameters).as_str(),
    ).concat("},\"return_annotation\":").concat(tail.as_str()).concat(",\"type\":").concat(
        quoted(c.callable_type.as_str()).as_str(),
    ).concat("}")
}

/// An upgrade step as JSON text.
pub fn render_step(s: &UpgradeStep) -> (r: String)
    ensures
        r@ == step_json(s@),
{
    let kind = match s.upgrade_type {
        StepKind::File => "\"FILE\"",
        StepKind::System => "\"SYSTEM\"",
        StepKind::Unknown => "\"UNKNOWN\"",
    };
    String::from_str("{\"func\":").concat(render_callable(&s.func).as_str()).concat(
        render_late_member("max_version", &s.max_version).as_str(),
    ).concat(render_late_member("min_version", &s.min_version).as_str()).concat(
        ",\"name\":",
    ).concat(quoted(s.name.as_str()).as_str()).concat(",\"priority\":").concat(
        integer(s.priority).as_str(),
    ).concat(",\"target_version\":").concat(quoted(s.target_version.as_str()).as_str()).concat(
        ",\"upgrade_type\":",
    ).concat(kind).concat("}")
}

fn render_steps(ss: &Vec<UpgradeStep>) -> (r: String)
    ensures
        r@ == steps_json(steps_view(ss@), ss@.len() as int),
{
    let mut out = String::new();
    let ghost items = steps_view(ss@);
    let mut i: usize = 0;
    while i < ss.len()
        invariant
            i <= ss@.len(),
            items == steps_view(ss@),
            out@ == steps_json(items, i as int),
        decreases ss@.len() - i,
    {
        assert(items[i as int] == ss@[i as int]@);
        let one = render_step(&ss[i]);
        if i > 0 {
            out.append(",");
        }
        out.append(one.as_str());
        assert(i == 0 ==> out@ =~= one@);
        i += 1;
    }
    out
}

/// A classified value as JSON text.
pub fn render_value(v: &KwargValue) -> (r: String)
    ensures
        r@ == value_json(v@),
{
    match v {
        KwargValue::Null => String::from_str("null"),
        KwargValue::Bool(b) => String::from_str(render_bool(*b)),
        KwargValue::Text(s) => quoted(s.as_str()),
        KwargValue::List => String::from_str("[]"),
        KwargValue::Callable(c) => render_callable(c),
        KwargValue::Steps(ss) => {
            assert(steps_view(ss@).len() == ss@.len());
            String::from_str("[").concat(render_steps(ss).as_str()).concat("]")
        },
    }
}

fn render_value_member(key: &str, o: &Option<KwargValue>) -> (r: String)
    ensures
        r@ == value_member(key@, opt_value(*o)),
{
    match o {
        Some(v) => String::from_str(",").concat(quoted(key).as_str()).concat(":").concat(
            render_value(v).as_str(),
        ),
        None => String::new(),
    }
}

fn render_early_member(key: &str, o: &Option<KwargValue>) -> (r: String)
    ensures
        r@ == early_member(key@, opt_value(*o)),
{
    match o {
        Some(v) => quoted(key).concat(":").concat(render_value(v).as_str()).concat(","),
        None => String::new(),
    }
}

/// A plugin as JSON text.
pub fn render_plugin(p: &PluginRecord) -> (r: String)
    ensures
        r@ == plugin_json(p@),
{
    String::from_str("{").concat(render_early_member("call_method", &p.call_method).as_str()).concat(
        render_early_member("config", &p.config).as_str(),
    ).concat(render_text_member("io_type", &p.io_type).as_str()).concat("\"name\":").concat(
        quoted(p.name.as_str()).as_str(),
    ).concat(",\"obj\":").concat(render_callable(&p.obj).as_str()).concat(
        ",\"plugin_type\":",
    ).concat(quoted(p.plugin_type.as_str()).as_str()).concat(
        render_value_member("requires_store", &p.requires_store).as_str(),
    ).concat(render_value_member("upgrade_steps", &p.upgrade_steps).as_str()).concat(
        render_value_member("version_reader", &p.version_reader).as_str(),
    ).concat(render_value_member("version_strategy", &p.version_strategy).as_str()).concat("}")
}

/// The document of a package as JSON text.
pub fn render_package(pkg: &PackageRecord) -> (r: String)
    ensures
        r@ == package_json(pkg.name@, plugins_view(pkg.plugins@)),
{
    let mut list = String::new();
    let ghost items = plugins_view(pkg.plugins@);
    let mut i: usize = 0;
    while i < pkg.plugins.len()
        invariant
            i <= pkg.plugins@.len(),
            items == plugins_view(pkg.plugins@),
            list@ == plugins_json(items, i as int),
        decreases pkg.plugins@.len() - i,
    {
        assert(items[i as int] == pkg.plugins@[i as int]@);
        let one = render_plugin(&pkg.plugins[i]);
        if i > 0 {
            list.append(",");
        }
        list.append(one.as_str());
        assert(i == 0 ==> list@ =~= one@);
        i += 1;
    }
    String::from_str("{\"metadata\":{},\"name\":").concat(quoted(pkg.name.as_str()).as_str()).concat(
        ",\"plugins\":[",
    ).concat(list.as_str()).concat("]}")
}

} // verus!
