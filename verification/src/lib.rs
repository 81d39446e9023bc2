//! Static extraction of plugin metadata from the source text of a
//! plugin-registration file, without running that source.
//!
//! The text of a registration file goes through these parts:
//!
//! - [`import_resolver`] builds the table of imported symbols;
//! - [`ast_parser`] and [`extractor`] locate the registration calls, the
//!   first in the text itself, the second by queries on the syntax tree;
//! - [`constructor_parser`] cuts one call into its keyword arguments and
//!   classifies each value; [`kwargs_laws`] states what holds of that cut;
//! - [`decorator_processor`] collects the upgrade steps that decorators
//!   declare ([`decorator_laws`] states what holds of them), and
//!   [`parameter_extractor`] the parameters of a constructor;
//! - [`json_builder`] and [`discovery`] assemble the plugins of a package,
//!   and [`render`] writes them as the JSON document that is handed on.
//!
//! Around them stand the records ([`records`]), the errors ([`errors`]),
//! the text primitives ([`text`], [`utils`]), the manifest of installed
//! plugins ([`plugin_manifest`], [`orphans`], [`help`]), the settings
//! ([`settings`]), the registration index ([`file_finder`]) and the
//! decisions before an invocation ([`invoker`]).
//!
//! Every function is verified against a contract over `Seq<char>` and the
//! models of the records. Files are not read here: a caller hands over
//! texts and gets records back.

pub mod ast_parser;
pub mod config;
pub mod constructor_parser;
pub mod decorator_laws;
pub mod decorator_processor;
pub mod discovery;
pub mod errors;
pub mod extractor;
pub mod file_finder;
pub mod help;
pub mod import_resolver;
pub mod invoker;
pub mod json_builder;
pub mod kwargs_laws;
pub mod orphans;
pub mod parameter_extractor;
pub mod plugin_manifest;
pub mod records;
pub mod render;
pub mod settings;
pub mod text;
pub mod utils;
