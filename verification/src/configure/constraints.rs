//! Checks of parameter values against the constraints that a configuration
//! declares for them.

use vstd::prelude::*;
use vstd::string::StringExecFns;
use vstd::utf8::encode_utf8;

use crate::configure::config_doc::Parameter;
use crate::dscerror::DscError;
use crate::json::{i64_value, json_eq, json_equals, JsonValue};
use crate::strings::{decimal, int_to_decimal};

verus! {

/// The length that length constraints measure: UTF-8 bytes of a string,
/// items of an array.
pub open spec fn measured_length(v: JsonValue) -> Option<nat> {
    match v {
        JsonValue::String(s) => Some(encode_utf8(s@).len()),
        JsonValue::Array(xs) => Some(xs@.len()),
        _ => None,
    }
}

/// Whether one length bound fails: the value has no length to measure, or
/// its length is below the minimum (above the maximum).
pub open spec fn length_bound_fails(v: JsonValue, bound: Option<i64>, is_min: bool) -> bool {
    match bound {
        None => false,
        Some(m) => match measured_length(v) {
            None => true,
            Some(len) => (is_min && len < m) || (!is_min && len > m),
        },
    }
}

/// The length limits accept a value exactly when no limit is set, or the
/// value is a string (measured in UTF-8 bytes) or an array (measured in
/// items) whose length is at least `minLength` and at most `maxLength`
/// (each where it is set).
pub proof fn lemma_length_limits_accept_exactly_the_range(v: JsonValue, min: Option<i64>, max: Option<i64>)
    ensures
        (!length_bound_fails(v, min, true) && !length_bound_fails(v, max, false)) <==> (
            (min is None && max is None) || ((v is String || v is Array) && {
                let len: int = match v {
                    JsonValue::String(s) => encode_utf8(s@).len() as int,
                    JsonValue::Array(xs) => xs@.len() as int,
                    _ => 0,
                };
                &&& min matches Some(lo) ==> lo <= len
                &&& max matches Some(hi) ==> len <= hi
            })
        ),
{
}

pub(crate) fn parameter_message(name: &str, text: &str) -> (r: String)
    ensures
        r@ == "Parameter '"@ + name@ + "' "@ + text@,
{
    let mut m = String::from_str("Parameter '");
    m.append(name);
    m.append("' ");
    m.append(text);
    m
}

pub(crate) fn parameter_bound_message(name: &str, text: &str, bound: i64, actual: i128) -> (r: String)
    ensures
        r@ == "Parameter '"@ + name@ + "' "@ + text@ + decimal(bound as int) + " but is "@ + decimal(actual as int),
{
    let mut m = parameter_message(name, text);
    let b = int_to_decimal(bound as i128);
    m.append(b.as_str());
    m.append(" but is ");
    let a = int_to_decimal(actual);
    m.append(a.as_str());
    m
}

fn length_of(v: &JsonValue) -> (r: Option<usize>)
    ensures
        match measured_length(*v) {
            Some(len) => r == Some(len as usize) && len <= usize::MAX,
            None => r is None,
        },
{
    match v {
        JsonValue::String(s) => Some(s.as_str().as_bytes().len()),
        JsonValue::Array(xs) => Some(xs.len()),
        _ => None,
    }
}

/// Checks a string's UTF-8 length or an array's length against the
/// parameter's `minLength` and `maxLength`: `Ok` when the value meets them,
/// else a validation error.
pub fn check_length(name: &str, value: &JsonValue, constraint: &Parameter) -> (r: Result<(), DscError>)
    ensures
        r is Ok <==> !length_bound_fails(*value, constraint.min_length, true) && !length_bound_fails(*value, constraint.max_length, false),
        r matches Err(e) ==> e is Validation,
{
    let len = length_of(value);
    if let Some(min_length) = constraint.min_length {
        match len {
            None => {
                return Err(DscError::Validation(parameter_message(name, "has minimum length constraint but is not a string or array")));
            },
            Some(l) => {
                if (l as i128) < (min_length as i128) {
                    return Err(DscError::Validation(parameter_bound_message(name, "has minimum length constraint of ", min_length, l as i128)));
                }
            },
        }
    }
    if let Some(max_length) = constraint.max_length {
        match len {
            None => {
                return Err(DscError::Validation(parameter_message(name, "has maximum length constraint but is not a string or array")));
            },
            Some(l) => {
                if (l as i128) > (max_length as i128) {
                    return Err(DscError::Validation(parameter_bound_message(name, "has maximum length constraint of ", max_length, l as i128)));
                }
            },
        }
    }
    Ok(())
}

/// What checking one value bound gives: whether it fails.
pub open spec fn value_bound_fails(v: JsonValue, bound: Option<i64>, is_min: bool) -> bool {
    match bound {
        None => false,
        Some(m) => match i64_value(v) {
            None => true,
            Some(x) => (is_min && x < m) || (!is_min && x > m),
        },
    }
}

/// The value limits accept a value exactly when no limit is set, or the
/// value is an integer that is at least `minValue` and at most `maxValue`
/// (each where it is set).
pub proof fn lemma_number_limits_accept_exactly_the_range(v: JsonValue, min: Option<i64>, max: Option<i64>)
    ensures
        (!value_bound_fails(v, min, true) && !value_bound_fails(v, max, false)) <==> (
            (min is None && max is None) || (i64_value(v) is Some && match (min, max) {
                (Some(lo), Some(hi)) => lo <= i64_value(v)->Some_0 <= hi,
                (Some(lo), None) => lo <= i64_value(v)->Some_0,
                (None, Some(hi)) => i64_value(v)->Some_0 <= hi,
                (None, None) => true,
            })
        ),
        min matches Some(lo) && (i64_value(v) matches Some(x) && x < lo) ==> value_bound_fails(v, min, true),
        max matches Some(hi) && (i64_value(v) matches Some(x) && x > hi) ==> value_bound_fails(v, max, false),
{
}

/// Checks an integer against the parameter's `minValue` and `maxValue`;
/// a value that is not an integer fails any bound.
pub fn check_number_limits(name: &str, value: &JsonValue, constraint: &Parameter) -> (r: Result<(), DscError>)
    ensures
        match r {
            Ok(()) => !value_bound_fails(*value, constraint.min_value, true) && !value_bound_fails(*value, constraint.max_value, false),
            Err(e) => e is Validation && (value_bound_fails(*value, constraint.min_value, true) || value_bound_fails(*value, constraint.max_value, false)),
        },
{
    if let Some(min_value) = constraint.min_value {
        match value.as_i64() {
            Some(x) => if x < min_value {
                return Err(DscError::Validation(parameter_bound_message(name, "has minimum value constraint of ", min_value, x as i128)));
            },
            None => {
                return Err(DscError::Validation(parameter_message(name, "has minimum value constraint but is not an integer")));
            },
        }
    }
    if let Some(max_value) = constraint.max_value {
        match value.as_i64() {
            Some(x) => if x > max_value {
                return Err(DscError::Validation(parameter_bound_message(name, "has maximum value constraint of ", max_value, x as i128)));
            },
            None => {
                return Err(DscError::Validation(parameter_message(name, "has maximum value constraint but is not an integer")));
            },
        }
    }
    Ok(())
}

/// Whether the value is allowed by the list: a string or an integer equal
/// to one of the listed values.
pub open spec fn value_allowed(v: JsonValue, allowed: Option<Seq<JsonValue>>) -> bool {
    match allowed {
        None => true,
        Some(list) => (v is String || i64_value(v) is Some) && crate::functions::array::array_has(list, v),
    }
}

/// The allowed values of a parameter, when it declares them.
pub open spec fn allowed_list(p: Parameter) -> Option<Seq<JsonValue>> {
    match p.allowed_values {
        Some(v) => Some(v@),
        None => None,
    }
}

/// A value passes a list of allowed values exactly when it is a string or
/// an integer equal to one of them; with no list every value passes.
pub proof fn lemma_allowed_values_accept_exactly_the_listed(v: JsonValue, list: Seq<JsonValue>)
    ensures
        value_allowed(v, Some(list)) <==> ((v is String || i64_value(v) is Some) && exists|k: int| 0 <= k < list.len() && json_eq(#[trigger] list[k], v)),
        value_allowed(v, None),
{
}

/// Checks a string or integer against the parameter's `allowedValues`.
pub fn check_allowed_values(name: &str, value: &JsonValue, constraint: &Parameter) -> (r: Result<(), DscError>)
    ensures
        match r {
            Ok(()) => value_allowed(*value, allowed_list(*constraint)),
            Err(e) => e is Validation && !value_allowed(*value, allowed_list(*constraint)),
        },
{
    if let Some(allowed_values) = &constraint.allowed_values {
        let ok_kind = match value {
            JsonValue::String(_) => true,
            _ => value.as_i64().is_some(),
        };
        if !ok_kind {
            return Err(DscError::Validation(parameter_message(name, "has allowed values constraint but is not a string or integer")));
        }
        let mut k: usize = 0;
        while k < allowed_values.len()
            invariant
                k <= allowed_values@.len(),
                allowed_list(*constraint) == Some(allowed_values@),
                value is String || i64_value(*value) is Some,
                forall|t: int| 0 <= t < k ==> !json_eq(#[trigger] allowed_values@[t], *value),
            decreases allowed_values@.len() - k,
        {
            if json_equals(&allowed_values[k], value) {
                assert(json_eq(allowed_values@[k as int], *value));

                return Ok(());
            }
            k = k + 1;
        }
        return Err(DscError::Validation(parameter_message(name, "has value not in the allowed values list")));
    }
    Ok(())
}

} // verus!
