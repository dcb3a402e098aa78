use vstd::prelude::*;
use vstd::string::StringExecFns;

use crate::strings::{decimal, int_to_decimal};

verus! {

/// The errors of the library. Each carries the text that describes it.
#[derive(Debug)]
pub enum DscError {
    AdapterNotFound(String),
    BooleanConversion(String),
    Command(String, i32, String),
    CommandExit(String, i32, String),
    CommandExitFromManifest(String, i32, String),
    CommandOperation(String, String),
    Extension(String),
    Function(String, String),
    FunctionArg(String, String),
    IntegerConversion(String),
    InvalidConfiguration(String),
    InvalidManifestSchemaVersion(String, String),
    InvalidFunctionParameterCount(String, usize, usize),
    Io(String),
    Json(String),
    Manifest(String, String),
    MissingManifest(String),
    MissingRequires(String, String),
    MissingSchema(String),
    NotImplemented(String),
    NotSupported(String),
    NumberConversion(String),
    Operation(String),
    Parser(String),
    ResourceNotFound(String),
    ResourceManifestNotFound(String),
    Schema(String),
    SchemaNotAvailable(String),
    SecurityContext(String),
    Unknown { code: i32, message: String },
    UnsupportedCapability(String, String),
    Validation(String),
    Yaml(String),
    Setting(String),
}

/// `"<label>: <detail>"`.
pub open spec fn labelled(label: Seq<char>, detail: Seq<char>) -> Seq<char> {
    label + ": "@ + detail
}

fn join_label(label: &str, detail: &String) -> (r: String)
    ensures
        r@ == labelled(label@, detail@),
{
    let mut r = String::from_str(label);
    r.append(": ");
    r.append(detail.as_str());
    r
}

fn quoted(before: &str, name: &String) -> (r: String)
    ensures
        r@ == before@ + "'"@ + name@ + "'"@,
{
    let mut r = String::from_str(before);
    r.append("'");
    r.append(name.as_str());
    r.append("'");
    r
}

fn exit_text(label: &str, name: &String, code: i32, detail: &String) -> (r: String)
    ensures
        r@ == label@ + " '"@ + name@ + "' [exit code "@ + decimal(code as int) + "] "@ + detail@,
{
    let mut r = String::from_str(label);
    r.append(" '");
    r.append(name.as_str());
    r.append("' [exit code ");
    let c = int_to_decimal(code as i128);
    r.append(c.as_str());
    r.append("] ");
    r.append(detail.as_str());
    r
}

impl DscError {
    /// The text that describes this error.
    pub open spec fn message_of(self) -> Seq<char> {
        match self {
            DscError::AdapterNotFound(s) => labelled("Adapter not found"@, s@),
            DscError::BooleanConversion(s) => labelled("Boolean conversion"@, s@),
            DscError::Command(n, c, s) => "Command: Resource"@ + " '"@ + n@ + "' [exit code "@ + decimal(c as int) + "] "@ + s@,
            DscError::CommandExit(n, c, s) => "Command: Executable"@ + " '"@ + n@ + "' [exit code "@ + decimal(c as int) + "] "@ + s@,
            DscError::CommandExitFromManifest(n, c, s) => "Command: Resource"@ + " '"@ + n@ + "' [exit code "@ + decimal(c as int) + "] "@ + s@,
            DscError::CommandOperation(o, e) => "Command operation "@ + o@ + " for executable "@ + "'"@ + e@ + "'"@,
            DscError::Extension(s) => labelled("Extension"@, s@),
            DscError::UnsupportedCapability(n, c) => "Extension "@ + "'"@ + n@ + "'"@ + " does not support capability "@ + c@,
            DscError::Function(n, s) => "Function "@ + "'"@ + n@ + "'"@ + " error: "@ + s@,
            DscError::FunctionArg(n, s) => "Function "@ + "'"@ + n@ + "'"@ + " error: "@ + s@,
            DscError::IntegerConversion(s) => labelled("Integer conversion"@, s@),
            DscError::InvalidConfiguration(s) => labelled("Invalid configuration"@, s@),
            DscError::InvalidManifestSchemaVersion(v, m) => labelled("Unsupported manifest version"@, v@) + ".  Must be: "@ + m@,
            DscError::InvalidFunctionParameterCount(n, e, g) => "Invalid function parameter count for "@ + "'"@ + n@ + "'"@ + ", expected "@ + decimal(e as int) + ", got "@ + decimal(g as int),
            DscError::Io(s) => labelled("IO"@, s@),
            DscError::Json(s) => labelled("JSON"@, s@),
            DscError::Manifest(n, s) => labelled("Manifest"@, n@) + "\nJSON: "@ + s@,
            DscError::MissingManifest(s) => labelled("Missing manifest"@, s@),
            DscError::MissingRequires(a, b) => "Adapter-based resource "@ + "'"@ + a@ + "'"@ + " missing 'requires' property for resource "@ + "'"@ + b@ + "'"@,
            DscError::MissingSchema(s) => labelled("Schema missing from manifest"@, s@),
            DscError::NotImplemented(s) => labelled("Not implemented"@, s@),
            DscError::NotSupported(s) => labelled("Not supported"@, s@),
            DscError::NumberConversion(s) => labelled("Number conversion"@, s@),
            DscError::Operation(s) => labelled("Operation"@, s@),
            DscError::Parser(s) => labelled("Parser"@, s@),
            DscError::ResourceNotFound(s) => labelled("Resource not found"@, s@),
            DscError::ResourceManifestNotFound(s) => labelled("Resource manifest not found"@, s@),
            DscError::Schema(s) => labelled("Schema"@, s@),
            DscError::SchemaNotAvailable(s) => labelled("No schema found and manifest does not contain resource"@, s@),
            DscError::SecurityContext(s) => labelled("Security context"@, s@),
            DscError::Unknown { code, message } => "Unknown: "@ + decimal(code as int) + " "@ + message@,
            DscError::Validation(s) => labelled("Validation"@, s@),
            DscError::Yaml(s) => labelled("YAML"@, s@),
            DscError::Setting(s) => labelled("Setting"@, s@),
        }
    }

    /// The text that describes this error.
    #[verifier::rlimit(50)]
    pub fn message(&self) -> (r: String)
        ensures
            r@ == self.message_of(),
    {
        match self {
            DscError::AdapterNotFound(s) => join_label("Adapter not found", s),
            DscError::BooleanConversion(s) => join_label("Boolean conversion", s),
            DscError::Command(n, c, s) => exit_text("Command: Resource", n, *c, s),
            DscError::CommandExit(n, c, s) => exit_text("Command: Executable", n, *c, s),
            DscError::CommandExitFromManifest(n, c, s) => exit_text("Command: Resource", n, *c, s),
            DscError::CommandOperation(o, e) => {
                let mut r = String::from_str("Command operation ");
                r.append(o.as_str());
                r.append(" for executable ");
                r.append("'");
                r.append(e.as_str());
                r.append("'");
                r
            },
            DscError::Extension(s) => join_label("Extension", s),
            DscError::UnsupportedCapability(n, c) => {
                let mut r = quoted("Extension ", n);
                r.append(" does not support capability ");
                r.append(c.as_str());
                r
            },
            DscError::Function(n, s) => {
                let mut r = quoted("Function ", n);
                r.append(" error: ");
                r.append(s.as_str());
                r
            },
            DscError::FunctionArg(n, s) => {
                let mut r = quoted("Function ", n);
                r.append(" error: ");
                r.append(s.as_str());
                r
            },
            DscError::IntegerConversion(s) => join_label("Integer conversion", s),
            DscError::InvalidConfiguration(s) => join_label("Invalid configuration", s),
            DscError::InvalidManifestSchemaVersion(v, m) => {
                let mut r = join_label("Unsupported manifest version", v);
                r.append(".  Must be: ");
                r.append(m.as_str());
                r
            },
            DscError::InvalidFunctionParameterCount(n, e, g) => {
                let mut r = quoted("Invalid function parameter count for ", n);
                r.append(", expected ");
                let es = int_to_decimal(*e as i128);
                r.append(es.as_str());
                r.append(", got ");
                let gs = int_to_decimal(*g as i128);
                r.append(gs.as_str());
                r
            },
            DscError::Io(s) => join_label("IO", s),
            DscError::Json(s) => join_label("JSON", s),
            DscError::Manifest(n, s) => {
                let mut r = join_label("Manifest", n);
                r.append("\nJSON: ");
                r.append(s.as_str());
                r
            },
            DscError::MissingManifest(s) => join_label("Missing manifest", s),
            DscError::MissingRequires(a, b) => {
                let mut r = quoted("Adapter-based resource ", a);
                r.append(" missing 'requires' property for resource ");
                r.append("'");
                r.append(b.as_str());
                r.append("'");
                r
            },
            DscError::MissingSchema(s) => join_label("Schema missing from manifest", s),
            DscError::NotImplemented(s) => join_label("Not implemented", s),
            DscError::NotSupported(s) => join_label("Not supported", s),
            DscError::NumberConversion(s) => join_label("Number conversion", s),
            DscError::Operation(s) => join_label("Operation", s),
            DscError::Parser(s) => join_label("Parser", s),
            DscError::ResourceNotFound(s) => join_label("Resource not found", s),
            DscError::ResourceManifestNotFound(s) => join_label("Resource manifest not found", s),
            DscError::Schema(s) => join_label("Schema", s),
            DscError::SchemaNotAvailable(s) => join_label("No schema found and manifest does not contain resource", s),
            DscError::SecurityContext(s) => join_label("Security context", s),
            DscError::Unknown { code, message } => {
                let mut r = String::from_str("Unknown: ");
                let c = int_to_decimal(*code as i128);
                r.append(c.as_str());
                r.append(" ");
                r.append(message.as_str());
                r
            },
            DscError::Validation(s) => join_label("Validation", s),
            DscError::Yaml(s) => join_label("YAML", s),
            DscError::Setting(s) => join_label("Setting", s),
        }
    }
}

} // verus!
