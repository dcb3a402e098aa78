use vstd::prelude::*;

use crate::configure::config_doc::{DataType, ExecutionKind, SecurityContextKind};
use crate::json::JsonValue;

verus! {

/// How expressions are being processed.
#[derive(Debug, Clone, Copy, PartialEq, Eq, Structural)]
pub enum ProcessMode {
    Copy,
    Normal,
    NoExpressionEvaluation,
    ParametersDefault,
    UserFunction,
}

/// The state that expression functions read while a configuration is
/// processed.
#[derive(Debug)]
pub struct Context {
    /// The current index of each copy loop, by loop name.
    pub copy: Vec<(String, i64)>,
    pub copy_current_loop_name: String,
    pub dsc_version: Option<String>,
    pub execution_type: ExecutionKind,
    /// Parameter values and their declared types, by parameter name.
    pub parameters: Vec<(String, (JsonValue, DataType))>,
    pub process_expressions: bool,
    pub process_mode: ProcessMode,
    pub processing_parameter_defaults: bool,
    pub references: Vec<(String, JsonValue)>,
    pub security_context: SecurityContextKind,
    pub system_root: String,
    pub mounted_path: String,
    pub variables: Vec<(String, JsonValue)>,
    /// The process environment, name and value, as it was read at start.
    pub environment: Vec<(String, String)>,
}

impl Context {
    /// A context in normal mode with nothing defined, the default system
    /// root, and the security context not yet determined (`Current`).
    pub fn new() -> (r: Self)
        ensures
            r.copy@.len() == 0,
            r.copy_current_loop_name@.len() == 0,
            r.dsc_version is None,
            r.execution_type == ExecutionKind::Actual,
            r.parameters@.len() == 0,
            r.process_expressions,
            r.process_mode == ProcessMode::Normal,
            !r.processing_parameter_defaults,
            r.references@.len() == 0,
            r.security_context == SecurityContextKind::Current,
            r.system_root@ == default_os_system_root(),
            r.mounted_path@.len() == 0,
            r.variables@.len() == 0,
            r.environment@.len() == 0,
    {
        Context {
            copy: Vec::new(),
            copy_current_loop_name: String::new(),
            dsc_version: None,
            execution_type: ExecutionKind::Actual,
            parameters: Vec::new(),
            process_expressions: true,
            process_mode: ProcessMode::Normal,
            processing_parameter_defaults: false,
            references: Vec::new(),
            security_context: SecurityContextKind::Current,
            system_root: get_default_os_system_root(),
            mounted_path: String::new(),
            variables: Vec::new(),
            environment: Vec::new(),
        }
    }
}

/// The root of the file system, `/`.
pub open spec fn default_os_system_root() -> Seq<char> {
    seq!['/']
}

/// The default system root: the root of the file system.
pub fn get_default_os_system_root() -> (r: String)
    ensures
        r@ == default_os_system_root(),
{
    let mut r = String::new();
    crate::strings::push_char(&mut r, '/');
    r
}

} // verus!
