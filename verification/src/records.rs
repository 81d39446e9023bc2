//! The records that extraction produces, each with the mathematical
//! value that contracts speak of.

use vstd::prelude::*;
use vstd::string::*;

verus! {

/// The view of an optional string.
pub open spec fn opt_text(o: Option<String>) -> Option<Seq<char>> {
    match o {
        Some(s) => Some(s@),
        None => None,
    }
}

/// Parameter metadata for a callable or config.
#[derive(Debug, Clone)]
pub struct ParameterMetadata {
    /// Type annotation, as written.
    pub annotation: Option<String>,
    /// Default value, as written.
    pub default: Option<String>,
    /// Whether this parameter is required.
    pub is_required: bool,
}

/// What contracts say of a parameter.
pub struct ParameterModel {
    pub annotation: Option<Seq<char>>,
    pub default: Option<Seq<char>>,
    pub is_required: bool,
}

impl View for ParameterMetadata {
    type V = ParameterModel;

    open spec fn view(&self) -> ParameterModel {
        ParameterModel {
            annotation: opt_text(self.annotation),
            default: opt_text(self.default),
            is_required: self.is_required,
        }
    }
}

/// A named parameter of a signature.
#[derive(Debug, Clone)]
pub struct Parameter {
    pub name: String,
    pub meta: ParameterMetadata,
}

impl View for Parameter {
    type V = (Seq<char>, ParameterModel);

    open spec fn view(&self) -> (Seq<char>, ParameterModel) {
        (self.name@, self.meta@)
    }
}

/// The views of a vector of parameters, in order.
pub open spec fn parameters_view(ps: Seq<Parameter>) -> Seq<(Seq<char>, ParameterModel)> {
    ps.map_values(|p: Parameter| p@)
}

/// Callable object metadata: where a class or function lives.
#[derive(Debug, Clone)]
pub struct CallableMetadata {
    /// Module path.
    pub module: String,
    /// Exported name.
    pub name: String,
    /// Callable type: "class" or "function".
    pub callable_type: String,
    /// Return annotation.
    pub return_annotation: Option<String>,
    /// Parameters by name, in the order of the signature.
    pub parameters: Vec<Parameter>,
}

/// What contracts say of a callable.
pub struct CallableModel {
    pub module: Seq<char>,
    pub name: Seq<char>,
    pub callable_type: Seq<char>,
    pub return_annotation: Option<Seq<char>>,
    pub parameters: Seq<(Seq<char>, ParameterModel)>,
}

impl View for CallableMetadata {
    type V = CallableModel;

    open spec fn view(&self) -> CallableModel {
        CallableModel {
            module: self.module@,
            name: self.name@,
            callable_type: self.callable_type@,
            return_annotation: opt_text(self.return_annotation),
            parameters: parameters_view(self.parameters@),
        }
    }
}

/// A callable that is only referred to: no parameters, no return annotation.
pub open spec fn reference_to(module: Seq<char>, name: Seq<char>, callable_type: Seq<char>)
    -> CallableModel {
    CallableModel {
        module,
        name,
        callable_type,
        return_annotation: None,
        parameters: Seq::empty(),
    }
}

/// The category of an upgrade step.
#[derive(Debug, Clone, Copy, PartialEq, Eq, Structural)]
pub enum StepKind {
    File,
    System,
    Unknown,
}

/// One unit of a multi-step migration.
#[derive(Debug, Clone)]
pub struct UpgradeStep {
    pub name: String,
    pub func: CallableMetadata,
    pub target_version: String,
    pub upgrade_type: StepKind,
    pub priority: i64,
    pub min_version: Option<String>,
    pub max_version: Option<String>,
}

/// What contracts say of an upgrade step.
pub struct StepModel {
    pub name: Seq<char>,
    pub func: CallableModel,
    pub target_version: Seq<char>,
    pub upgrade_type: StepKind,
    pub priority: int,
    pub min_version: Option<Seq<char>>,
    pub max_version: Option<Seq<char>>,
}

impl View for UpgradeStep {
    type V = StepModel;

    open spec fn view(&self) -> StepModel {
        StepModel {
            name: self.name@,
            func: self.func@,
            target_version: self.target_version@,
            upgrade_type: self.upgrade_type,
            priority: self.priority as int,
            min_version: opt_text(self.min_version),
            max_version: opt_text(self.max_version),
        }
    }
}

/// The views of a vector of upgrade steps, in order.
pub open spec fn steps_view(v: Seq<UpgradeStep>) -> Seq<StepModel> {
    v.map_values(|s: UpgradeStep| s@)
}

/// A classified keyword-argument value.
#[derive(Debug, Clone)]
pub enum KwargValue {
    Null,
    Bool(bool),
    Text(String),
    /// A list whose contents are not looked into.
    List,
    Callable(CallableMetadata),
    Steps(Vec<UpgradeStep>),
}

/// What contracts say of a classified value.
pub enum ValueModel {
    Null,
    Bool(bool),
    Text(Seq<char>),
    List,
    Callable(CallableModel),
    Steps(Seq<StepModel>),
}

impl View for KwargValue {
    type V = ValueModel;

    open spec fn view(&self) -> ValueModel {
        match self {
            KwargValue::Null => ValueModel::Null,
            KwargValue::Bool(b) => ValueModel::Bool(*b),
            KwargValue::Text(s) => ValueModel::Text(s@),
            KwargValue::List => ValueModel::List,
            KwargValue::Callable(c) => ValueModel::Callable(c@),
            KwargValue::Steps(v) => ValueModel::Steps(steps_view(v@)),
        }
    }
}

/// The view of an optional value.
pub open spec fn opt_value(o: Option<KwargValue>) -> Option<ValueModel> {
    match o {
        Some(v) => Some(v@),
        None => None,
    }
}

/// The kind of a plugin.
#[derive(Debug, Clone, Copy, PartialEq, Eq, Structural)]
pub enum PluginKind {
    Parser,
    Exporter,
    Modifier,
    Upgrader,
    Utility,
}

/// One plugin that a registration declares.
#[derive(Debug, Clone)]
pub struct PluginRecord {
    pub name: String,
    pub kind: PluginKind,
    pub plugin_type: String,
    pub obj: CallableMetadata,
    pub call_method: Option<KwargValue>,
    pub config: Option<KwargValue>,
    pub io_type: Option<String>,
    pub requires_store: Option<KwargValue>,
    pub version_strategy: Option<KwargValue>,
    pub version_reader: Option<KwargValue>,
    pub upgrade_steps: Option<KwargValue>,
}

/// What contracts say of a plugin.
pub struct PluginModel {
    pub name: Seq<char>,
    pub kind: PluginKind,
    pub plugin_type: Seq<char>,
    pub obj: CallableModel,
    pub call_method: Option<ValueModel>,
    pub config: Option<ValueModel>,
    pub io_type: Option<Seq<char>>,
    pub requires_store: Option<ValueModel>,
    pub version_strategy: Option<ValueModel>,
    pub version_reader: Option<ValueModel>,
    pub upgrade_steps: Option<ValueModel>,
}

impl View for PluginRecord {
    type V = PluginModel;

    open spec fn view(&self) -> PluginModel {
        PluginModel {
            name: self.name@,
            kind: self.kind,
            plugin_type: self.plugin_type@,
            obj: self.obj@,
            call_method: opt_value(self.call_method),
            config: opt_value(self.config),
            io_type: opt_text(self.io_type),
            requires_store: opt_value(self.requires_store),
            version_strategy: opt_value(self.version_strategy),
            version_reader: opt_value(self.version_reader),
            upgrade_steps: opt_value(self.upgrade_steps),
        }
    }
}

/// The views of a vector of plugins, in order.
pub open spec fn plugins_view(v: Seq<PluginRecord>) -> Seq<PluginModel> {
    v.map_values(|p: PluginRecord| p@)
}

/// The plugins of one package.
#[derive(Debug, Clone)]
pub struct PackageRecord {
    pub name: String,
    pub plugins: Vec<PluginRecord>,
}

/// One source file of a package: its file name and its text.
#[derive(Debug, Clone)]
pub struct SourceFile {
    pub name: String,
    pub content: String,
}

/// The names and texts of a vector of source files, in order.
pub open spec fn sources_view(v: Seq<SourceFile>) -> Seq<(Seq<char>, Seq<char>)> {
    v.map_values(|f: SourceFile| (f.name@, f.content@))
}

/// A copy of an optional text.
pub fn copy_text(o: &Option<String>) -> (r: Option<String>)
    ensures
        opt_text(r) == opt_text(*o),
{
    match o {
        Some(s) => Some(s.clone()),
        None => None,
    }
}

/// A copy of a parameter list.
pub fn copy_parameters(ps: &Vec<Parameter>) -> (r: Vec<Parameter>)
    ensures
        parameters_view(r@) == parameters_view(ps@),
{
    let mut r: Vec<Parameter> = Vec::new();
    let mut i: usize = 0;
    while i < ps.len()
        invariant
            i <= ps@.len(),
            r@.len() == i,
            forall|j: int| 0 <= j < i ==> r@[j]@ == ps@[j]@,
        decreases ps@.len() - i,
    {
        let p = &ps[i];
        r.push(
            Parameter {
                name: p.name.clone(),
                meta: ParameterMetadata {
                    annotation: copy_text(&p.meta.annotation),
                    default: copy_text(&p.meta.default),
                    is_required: p.meta.is_required,
                },
            },
        );
        i += 1;
    }
    assert(parameters_view(r@) =~= parameters_view(ps@));
    r
}

/// A copy of a callable descriptor.
pub fn copy_callable(c: &CallableMetadata) -> (r: CallableMetadata)
    ensures
        r@ == c@,
{
    CallableMetadata {
        module: c.module.clone(),
        name: c.name.clone(),
        callable_type: c.callable_type.clone(),
        return_annotation: copy_text(&c.return_annotation),
        parameters: copy_parameters(&c.parameters),
    }
}

/// A copy of an upgrade step.
pub fn copy_step(s: &UpgradeStep) -> (r: UpgradeStep)
    ensures
        r@ == s@,
{
    UpgradeStep {
        name: s.name.clone(),
        func: copy_callable(&s.func),
        target_version: s.target_version.clone(),
        upgrade_type: s.upgrade_type,
        priority: s.priority,
        min_version: copy_text(&s.min_version),
        max_version: copy_text(&s.max_version),
    }
}

/// A copy of a list of upgrade steps.
pub fn copy_steps(v: &Vec<UpgradeStep>) -> (r: Vec<UpgradeStep>)
    ensures
        steps_view(r@) == steps_view(v@),
{
    let mut r: Vec<UpgradeStep> = Vec::new();
    let mut i: usize = 0;
    while i < v.len()
        invariant
            i <= v@.len(),
            r@.len() == i,
            forall|j: int| 0 <= j < i ==> r@[j]@ == v@[j]@,
        decreases v@.len() - i,
    {
        r.push(copy_step(&v[i]));
        i += 1;
    }
    assert(steps_view(r@) =~= steps_view(v@));
    r
}

/// A copy of a classified value.
pub fn copy_value(v: &KwargValue) -> (r: KwargValue)
    ensures
        r@ == v@,
{
    match v {
        KwargValue::Null => KwargValue::Null,
        KwargValue::Bool(b) => KwargValue::Bool(*b),
        KwargValue::Text(s) => KwargValue::Text(s.clone()),
        KwargValue::List => KwargValue::List,
        KwargValue::Callable(c) => KwargValue::Callable(copy_callable(c)),
        KwargValue::Steps(s) => KwargValue::Steps(copy_steps(s)),
    }
}

} // verus!
