//! The first form of the parameter constraint checks, kept for callers that
//! use it: a length bound is taken as `bound as usize`, so a negative bound
//! wraps around instead of failing to convert.

use vstd::prelude::*;

use crate::configure::config_doc::Parameter;
use crate::configure::constraints::{allowed_list, measured_length, parameter_bound_message, parameter_message, value_allowed, value_bound_fails};
use crate::dscerror::DscError;
use crate::json::JsonValue;

verus! {

/// Whether one length bound, taken as `bound as usize`, fails.
pub open spec fn cast_length_bound_fails(v: JsonValue, bound: Option<i64>, is_min: bool) -> bool {
    match bound {
        None => false,
        Some(m) => match measured_length(v) {
            None => true,
            Some(len) => (is_min && len < (m as usize)) || (!is_min && len > (m as usize)),
        },
    }
}

/// Checks a string's UTF-8 length or an array's length against the
/// parameter's `minLength` and `maxLength`.
pub fn check_length(name: &str, value: &JsonValue, constraint: &Parameter) -> (r: Result<(), DscError>)
    ensures
        match r {
            Ok(()) => !cast_length_bound_fails(*value, constraint.min_length, true) && !cast_length_bound_fails(*value, constraint.max_length, false),
            Err(e) => e is Validation && (cast_length_bound_fails(*value, constraint.min_length, true) || cast_length_bound_fails(*value, constraint.max_length, false)),
        },
{
    let len: Option<usize> = match value {
        JsonValue::String(s) => Some(s.as_str().as_bytes().len()),
        JsonValue::Array(xs) => Some(xs.len()),
        _ => None,
    };
    if let Some(min_length) = constraint.min_length {
        match len {
            Some(l) => if l < min_length as usize {
                return Err(DscError::Validation(parameter_bound_message(name, "has minimum length constraint of ", min_length, l as i128)));
            },
            None => {
                return Err(DscError::Validation(parameter_message(name, "has minimum length constraint but is not a string or array")));
            },
        }
    }
    if let Some(max_length) = constraint.max_length {
        match len {
            Some(l) => if l > max_length as usize {
                return Err(DscError::Validation(parameter_bound_message(name, "has maximum length constraint of ", max_length, l as i128)));
            },
            None => {
                return Err(DscError::Validation(parameter_message(name, "has maximum length constraint but is not a string or array")));
            },
        }
    }
    Ok(())
}

/// Checks an integer against the parameter's `minValue` and `maxValue`.
pub fn check_number(name: &str, value: &JsonValue, constraint: &Parameter) -> (r: Result<(), DscError>)
    ensures
        match r {
            Ok(()) => !value_bound_fails(*value, constraint.min_value, true) && !value_bound_fails(*value, constraint.max_value, false),
            Err(e) => e is Validation && (value_bound_fails(*value, constraint.min_value, true) || value_bound_fails(*value, constraint.max_value, false)),
        },
{
    crate::configure::constraints::check_number_limits(name, value, constraint)
}

/// Checks a string or integer against the parameter's `allowedValues`.
pub fn check_allowed_values(name: &str, value: &JsonValue, constraint: &Parameter) -> (r: Result<(), DscError>)
    ensures
        match r {
            Ok(()) => value_allowed(*value, allowed_list(*constraint)),
            Err(e) => e is Validation && !value_allowed(*value, allowed_list(*constraint)),
        },
{
    crate::configure::constraints::check_allowed_values(name, value, constraint)
}

} // verus!
