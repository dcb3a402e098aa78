//! Resources: their capabilities, results and the comparison of states.

pub mod dscresource;
pub mod invoke_result;
pub mod resource_manifest;
pub mod command_resource;
pub mod powershell_resource;
pub mod native_resource;
pub mod adapted;
pub mod schema_calls;
pub mod set_steps;
pub mod test_steps;
