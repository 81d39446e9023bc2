//! Error kinds of the extraction.

pub use crate::plugin_manifest::ManifestError;

use vstd::prelude::*;
use vstd::string::*;

verus! {

/// Errors that can occur while plugins are discovered.
#[derive(Debug)]
pub enum BridgeError {
    Python(String),
    Import(String, String),
    VenvNotFound(String),
    R2XCoreNotInstalled,
    Serialization(String),
    Initialization(String),
    /// Something looked for is absent: the entry file, the registration
    /// section, a decorator, a field of a registration.
    PluginNotFound(String),
    InvalidEntryPoint(String),
    Io(String),
    /// A call or an import that cannot be read.
    InvalidSyntax(String),
    /// A construct that only an interpreter could evaluate.
    UnsupportedConstruct(String),
}

/// The kinds of failure that extraction tells apart.
#[derive(Debug, Clone, Copy, PartialEq, Eq, Structural)]
pub enum ErrorKind {
    NotFound,
    InvalidSyntax,
    UnsupportedConstruct,
    Other,
}

impl BridgeError {
    /// The kind of the error.
    pub open spec fn kind_of(&self) -> ErrorKind {
        match self {
            BridgeError::PluginNotFound(_) => ErrorKind::NotFound,
            BridgeError::InvalidSyntax(_) => ErrorKind::InvalidSyntax,
            BridgeError::UnsupportedConstruct(_) => ErrorKind::UnsupportedConstruct,
            _ => ErrorKind::Other,
        }
    }

    /// The kind of the error.
    pub fn kind(&self) -> (r: ErrorKind)
        ensures
            r == self.kind_of(),
    {
        match self {
            BridgeError::PluginNotFound(_) => ErrorKind::NotFound,
            BridgeError::InvalidSyntax(_) => ErrorKind::InvalidSyntax,
            BridgeError::UnsupportedConstruct(_) => ErrorKind::UnsupportedConstruct,
            _ => ErrorKind::Other,
        }
    }

    /// The text of the error, as shown to a user.
    pub open spec fn text(&self) -> Seq<char> {
        match self {
            BridgeError::Python(m) => "Python error: "@ + m@,
            BridgeError::Import(a, b) => "Failed to import module '"@ + a@ + "': "@ + b@,
            BridgeError::VenvNotFound(p) => "Python venv not found or invalid at: "@ + p@,
            BridgeError::R2XCoreNotInstalled => "r2x-core is not installed in the Python environment"@,
            BridgeError::Serialization(m) => "Failed to serialize/deserialize data: "@ + m@,
            BridgeError::Initialization(m) => "Failed to initialize Python interpreter: "@ + m@,
            BridgeError::PluginNotFound(m) => "Plugin '"@ + m@ + "' not found"@,
            BridgeError::InvalidEntryPoint(m) => "Invalid entry point format: "@ + m@,
            BridgeError::Io(m) => "IO error: "@ + m@,
            BridgeError::InvalidSyntax(m) => "Invalid syntax: "@ + m@,
            BridgeError::UnsupportedConstruct(m) => "Unsupported construct: "@ + m@,
        }
    }

    /// Whether the error says that something looked for is absent.
    pub open spec fn is_not_found(&self) -> bool {
        self is PluginNotFound
    }

    /// The text of the error.
    #[allow(clippy::inherent_to_string)]
    pub fn to_string(&self) -> (r: String)
        ensures
            r@ == self.text(),
    {
        match self {
            BridgeError::Python(m) => String::from_str("Python error: ").concat(m.as_str()),
            BridgeError::Import(a, b) => String::from_str("Failed to import module '").concat(
                a.as_str(),
            ).concat("': ").concat(b.as_str()),
            BridgeError::VenvNotFound(p) => String::from_str(
                "Python venv not found or invalid at: ",
            ).concat(p.as_str()),
            BridgeError::R2XCoreNotInstalled => String::from_str(
                "r2x-core is not installed in the Python environment",
            ),
            BridgeError::Serialization(m) => String::from_str(
                "Failed to serialize/deserialize data: ",
            ).concat(m.as_str()),
            BridgeError::Initialization(m) => String::from_str(
                "Failed to initialize Python interpreter: ",
            ).concat(m.as_str()),
            BridgeError::PluginNotFound(m) => String::from_str("Plugin '").concat(
                m.as_str(),
            ).concat("' not found"),
            BridgeError::InvalidEntryPoint(m) => String::from_str(
                "Invalid entry point format: ",
            ).concat(m.as_str()),
            BridgeError::Io(m) => String::from_str("IO error: ").concat(m.as_str()),
            BridgeError::InvalidSyntax(m) => String::from_str("Invalid syntax: ").concat(
                m.as_str(),
            ),
            BridgeError::UnsupportedConstruct(m) => String::from_str(
                "Unsupported construct: ",
            ).concat(m.as_str()),
        }
    }
}

/// Errors that can occur while a pipeline configuration is read.
#[derive(Debug)]
pub enum PipelineError {
    Io(String),
    Parse(String),
    VariableNotFound(String),
    PipelineNotFound(String),
    InvalidConfig(String),
}

impl PipelineError {
    /// The text of the error, as shown to a user.
    pub open spec fn text(&self) -> Seq<char> {
        match self {
            PipelineError::Io(m) => "IO error: "@ + m@,
            PipelineError::Parse(m) => "Failed to parse pipeline YAML: "@ + m@,
            PipelineError::VariableNotFound(m) => "Variable '"@ + m@
                + "' not found in variables section"@,
            PipelineError::PipelineNotFound(m) => "Pipeline '"@ + m@ + "' not found in YAML"@,
            PipelineError::InvalidConfig(m) => "Invalid configuration: "@ + m@,
        }
    }

    /// The text of the error.
    #[allow(clippy::inherent_to_string)]
    pub fn to_string(&self) -> (r: String)
        ensures
            r@ == self.text(),
    {
        match self {
            PipelineError::Io(m) => String::from_str("IO error: ").concat(m.as_str()),
            PipelineError::Parse(m) => String::from_str("Failed to parse pipeline YAML: ").concat(
                m.as_str(),
            ),
            PipelineError::VariableNotFound(m) => String::from_str("Variable '").concat(
                m.as_str(),
            ).concat("' not found in variables section"),
            PipelineError::PipelineNotFound(m) => String::from_str("Pipeline '").concat(
                m.as_str(),
            ).concat("' not found in YAML"),
            PipelineError::InvalidConfig(m) => String::from_str("Invalid configuration: ").concat(
                m.as_str(),
            ),
        }
    }
}

} // verus!
