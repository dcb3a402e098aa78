//! Core logic of the Desired State Configuration engine: the JSON value model,
//! the built-in expression functions, parameter constraints, dependency
//! ordering and state comparison.

pub mod json;
pub mod strings;
pub mod dscerror;
pub mod configure;
pub mod functions;
pub mod dscresources;
pub mod extensions;
pub mod discovery;
