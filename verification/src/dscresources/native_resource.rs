//! A resource run natively, whose operations are not implemented.

use vstd::prelude::*;
use vstd::string::StringExecFns;

use crate::dscerror::DscError;

verus! {

/// A resource run natively.
#[derive(Debug)]
pub struct NativeResource {
    pub resource: String,
}

impl NativeResource {
    /// Get is not implemented.
    pub fn get(&self, _filter: &str) -> (r: Result<String, DscError>)
        ensures
            r matches Err(e) && e is NotImplemented,
    {
        Err(DscError::NotImplemented(String::from_str("get")))
    }

    /// Set is not implemented.
    pub fn set(&self, _desired: &str) -> (r: Result<String, DscError>)
        ensures
            r matches Err(e) && e is NotImplemented,
    {
        Err(DscError::NotImplemented(String::from_str("set")))
    }

    /// Test is not implemented.
    pub fn test(&self, _expected: &str) -> (r: Result<String, DscError>)
        ensures
            r matches Err(e) && e is NotImplemented,
    {
        Err(DscError::NotImplemented(String::from_str("test")))
    }
}

} // verus!
