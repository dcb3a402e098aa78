//! Parameter input and secure values.

use vstd::prelude::*;
use vstd::string::StringExecFns;

use crate::json::{lemma_find_key, find_member, JsonValue};

verus! {

/// The parameter values given for a configuration, by name.
#[derive(Debug)]
pub struct Input {
    pub parameters: Vec<(String, JsonValue)>,
}

/// A string that is not shown.
#[derive(Debug)]
pub struct SecureString {
    pub secure_string: String,
}

impl SecureString {
    /// The text shown in its place: `<secureString>`.
    pub fn display(&self) -> (r: String)
        ensures
            r@ == "<secureString>"@,
    {
        String::from_str("<secureString>")
    }
}

/// An object that is not shown.
#[derive(Debug)]
pub struct SecureObject {
    pub secure_object: JsonValue,
}

impl SecureObject {
    /// The text shown in its place: `<secureObject>`.
    pub fn display(&self) -> (r: String)
        ensures
            r@ == "<secureObject>"@,
    {
        String::from_str("<secureObject>")
    }
}

/// A secure string or a secure object.
#[derive(Debug)]
pub enum SecureKind {
    SecureString(SecureString),
    SecureObject(SecureObject),
}

/// Whether a value is a secure value: an object with exactly one member,
/// named `secureString` or `secureObject`.
pub open spec fn secure_value(v: JsonValue) -> bool {
    match v {
        JsonValue::Object(ms) => ms@.len() == 1 && (ms@[0].0@ == "secureString"@ || ms@[0].0@ == "secureObject"@),
        _ => false,
    }
}

/// Whether a value is a secure value (see `secure_value`).
pub fn is_secure_value(value: &JsonValue) -> (r: bool)
    ensures
        r == secure_value(*value),
{
    match value {
        JsonValue::Object(ms) => {
            if ms.len() != 1 {
                return false;
            }
            let s = String::from_str("secureString");
            let o = String::from_str("secureObject");
            proof {
                lemma_find_key(ms@, s@);
                lemma_find_key(ms@, o@);
            }
            find_member(ms, &s).is_some() || find_member(ms, &o).is_some()
        },
        _ => false,
    }
}

} // verus!
