//! The manifest that describes a command-based resource.

use vstd::prelude::*;

use crate::json::JsonValue;

verus! {

/// The kind of a resource.
#[derive(Debug, Clone, Copy, PartialEq, Eq, Structural)]
pub enum Kind {
    Adapter,
    Exporter,
    Group,
    Importer,
    Resource,
}

/// How the input is passed to a command.
#[derive(Debug, Clone, Copy, PartialEq, Eq, Structural)]
pub enum InputKind {
    /// As environment variables.
    Env,
    /// On standard input.
    Stdin,
}

/// An argument of a command: a fixed string, or the input JSON after the
/// given argument.
#[derive(Debug)]
pub enum ArgKind {
    String(String),
    Json { json_input_arg: String, mandatory: Option<bool> },
}

/// Where the schema of a resource comes from.
#[derive(Debug)]
pub enum SchemaKind {
    /// A command that prints it.
    Command(SchemaCommand),
    /// The manifest holds it.
    Embedded(JsonValue),
}

/// A command that prints the schema of a resource.
#[derive(Debug)]
pub struct SchemaCommand {
    pub executable: String,
    pub args: Option<Vec<String>>,
}

/// What the set and test commands print.
#[derive(Debug, Clone, Copy, PartialEq, Eq, Structural)]
pub enum ReturnKind {
    /// The state.
    State,
    /// The state, then the differing properties.
    StateAndDiff,
}

/// The get command.
#[derive(Debug)]
pub struct GetMethod {
    pub executable: String,
    pub args: Option<Vec<ArgKind>>,
    pub input: Option<InputKind>,
}

/// The set (or what-if) command.
#[derive(Debug)]
pub struct SetMethod {
    pub executable: String,
    pub args: Option<Vec<ArgKind>>,
    pub input: Option<InputKind>,
    pub pre_test: Option<bool>,
    /// Whether the command handles `_exist` itself.
    pub handles_exist: Option<bool>,
    pub returns: Option<ReturnKind>,
}

/// The test command.
#[derive(Debug)]
pub struct TestMethod {
    pub executable: String,
    pub args: Option<Vec<ArgKind>>,
    pub input: Option<InputKind>,
    pub returns: Option<ReturnKind>,
}

/// The delete command.
#[derive(Debug)]
pub struct DeleteMethod {
    pub executable: String,
    pub args: Option<Vec<ArgKind>>,
    pub input: Option<InputKind>,
}

/// The validate command.
#[derive(Debug)]
pub struct ValidateMethod {
    pub executable: String,
    pub args: Option<Vec<ArgKind>>,
    pub input: Option<InputKind>,
}

/// The export command.
#[derive(Debug)]
pub struct ExportMethod {
    pub executable: String,
    pub args: Option<Vec<ArgKind>>,
    pub input: Option<InputKind>,
}

/// The discover command of an adapter or extension.
#[derive(Debug)]
pub struct DiscoverMethod {
    pub executable: String,
    pub args: Option<Vec<String>>,
}

/// The resolve command.
#[derive(Debug)]
pub struct ResolveMethod {
    pub executable: String,
    pub args: Option<Vec<ArgKind>>,
    pub input: Option<InputKind>,
}

/// How an adapter takes configuration: the whole of it, or one resource at
/// a time.
#[derive(Debug, Clone, Copy, PartialEq, Eq, Structural)]
pub enum ConfigKind {
    Full,
    Sequence,
}

/// The command that lists the resources an adapter adapts.
#[derive(Debug)]
pub struct ListMethod {
    pub executable: String,
    pub args: Option<Vec<String>>,
}

/// What makes a resource an adapter.
#[derive(Debug)]
pub struct Adapter {
    pub list: ListMethod,
    pub config: ConfigKind,
}

/// A manifest path that a discover command reports.
#[derive(Debug)]
pub struct DiscoverResult {
    pub manifest_path: String,
}

/// The manifest of a command-based resource.
#[derive(Debug)]
pub struct ResourceManifest {
    pub schema_version: String,
    pub resource_type: String,
    pub kind: Option<Kind>,
    pub version: String,
    pub description: Option<String>,
    pub get: Option<GetMethod>,
    pub set: Option<SetMethod>,
    pub what_if: Option<SetMethod>,
    pub test: Option<TestMethod>,
    pub delete: Option<DeleteMethod>,
    pub validate: Option<ValidateMethod>,
    pub export: Option<ExportMethod>,
    pub resolve: Option<ResolveMethod>,
    pub adapter: Option<Adapter>,
    /// Descriptions of exit codes, by code.
    pub exit_codes: Option<Vec<(i32, String)>>,
    pub schema: Option<SchemaKind>,
}

} // verus!
