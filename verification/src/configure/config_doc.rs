use vstd::prelude::*;

use crate::json::JsonValue;

verus! {

/// Whether an operation runs for a configuration or for a single resource.
#[derive(Debug, Clone, Copy, PartialEq, Eq, Structural)]
pub enum ContextKind {
    Configuration,
    Resource,
}

/// The security context an operation runs in, or must run in.
#[derive(Debug, Clone, Copy, PartialEq, Eq, Structural)]
pub enum SecurityContextKind {
    Current,
    Elevated,
    Restricted,
}

/// The operations on a configuration.
#[derive(Debug, Clone, Copy, PartialEq, Eq, Structural)]
pub enum Operation {
    Get,
    SetState,
    Test,
    Export,
}

/// Whether changes are made or only described.
#[derive(Debug, Clone, Copy, PartialEq, Eq, Structural)]
pub enum ExecutionKind {
    Actual,
    WhatIf,
}

/// The `Microsoft.DSC` metadata of a configuration or of a result.
#[derive(Debug)]
pub struct MicrosoftDscMetadata {
    /// Version of DSC
    pub version: Option<String>,
    /// The operation being performed
    pub operation: Option<Operation>,
    /// The type of execution
    pub execution_type: Option<ExecutionKind>,
    /// The start time of the configuration operation
    pub start_datetime: Option<String>,
    /// The end time of the configuration operation
    pub end_datetime: Option<String>,
    /// The duration of the configuration operation
    pub duration: Option<String>,
    /// The security context of the configuration operation, can be specified to be required
    pub security_context: Option<SecurityContextKind>,
    /// Identifies if the operation is part of a configuration
    pub context: Option<ContextKind>,
}

impl MicrosoftDscMetadata {
    /// Metadata with every field unset.
    pub fn new() -> (r: Self)
        ensures
            r.version is None,
            r.operation is None,
            r.execution_type is None,
            r.start_datetime is None,
            r.end_datetime is None,
            r.duration is None,
            r.security_context is None,
            r.context is None,
    {
        MicrosoftDscMetadata {
            version: None,
            operation: None,
            execution_type: None,
            start_datetime: None,
            end_datetime: None,
            duration: None,
            security_context: None,
            context: None,
        }
    }
}

/// The metadata of a configuration document.
#[derive(Debug)]
pub struct Metadata {
    pub microsoft: Option<MicrosoftDscMetadata>,
    pub other: Vec<(String, JsonValue)>,
}

/// The type of a configuration parameter.
#[derive(Debug, Clone, Copy, PartialEq, Eq, Structural)]
pub enum DataType {
    String,
    SecureString,
    Int,
    Bool,
    Object,
    SecureObject,
    Array,
}

/// A parameter declared by a configuration document.
#[derive(Debug)]
pub struct Parameter {
    pub parameter_type: DataType,
    pub default_value: Option<JsonValue>,
    pub allowed_values: Option<Vec<JsonValue>>,
    pub min_value: Option<i64>,
    pub max_value: Option<i64>,
    pub min_length: Option<i64>,
    pub max_length: Option<i64>,
    pub description: Option<String>,
    pub metadata: Option<Vec<(String, JsonValue)>>,
}

/// A resource instance of a configuration document.
#[derive(Debug)]
pub struct Resource {
    /// The fully qualified name of the resource type
    pub resource_type: String,
    /// A friendly name for the resource instance
    pub name: String,
    pub depends_on: Option<Vec<String>>,
    /// The kind that an exported instance declared for itself.
    pub kind: Option<String>,
    pub properties: Option<Vec<(String, JsonValue)>>,
    pub metadata: Option<Vec<(String, JsonValue)>>,
}

impl Resource {
    /// A resource with empty type and name and nothing else set.
    pub fn new() -> (r: Self)
        ensures
            r.resource_type@.len() == 0,
            r.name@.len() == 0,
            r.depends_on is None,
            r.kind is None,
            r.properties is None,
            r.metadata is None,
    {
        Resource { resource_type: String::new(), name: String::new(), depends_on: None, kind: None, properties: None, metadata: None }
    }
}

/// A configuration document.
#[derive(Debug)]
pub struct Configuration {
    pub schema: String,
    pub content_version: Option<String>,
    pub parameters: Option<Vec<(String, Parameter)>>,
    pub variables: Option<Vec<(String, JsonValue)>>,
    pub resources: Vec<Resource>,
    pub metadata: Option<Metadata>,
}

} // verus!
