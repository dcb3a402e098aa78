//! The decisions a configuration run makes around each resource: how
//! property values are escaped, what input a resource gets, whether a set
//! applies or deletes, how a delete is reported as a set, and the checks on
//! parameters, metadata and the security context.

use vstd::prelude::*;
use vstd::string::{StrSliceExecFns, StringExecFns};

use crate::configure::config_doc::{Configuration, DataType, ExecutionKind, Metadata, MicrosoftDscMetadata, Operation, Parameter, Resource, SecurityContextKind};
use crate::configure::context::Context;
use crate::configure::constraints::{
    allowed_list, check_allowed_values, check_length, check_number_limits, length_bound_fails, value_allowed,
    value_bound_fails,
};
use crate::discovery::keys_unique;
use crate::dscerror::DscError;
use crate::dscresources::dscresource::{get_diff, string_views, json_diff, Capability};
use crate::dscresources::invoke_result::{GetResult, ResourceSetResponse, SetResult};
use crate::dscresources::resource_manifest::Kind;
use crate::json::{
    lemma_same_names_find, lemma_put_then_get, lemma_removed_is_gone, json_same, lemma_find_key_push, find_key, find_member, i64_value, lemma_find_key, member_put, member_removed, member_value, put_member, take_member, JsonValue,
};
use crate::strings::{decimal, int_to_decimal, starts_with_text, str_equal, text_starts_with};

verus! {

/// A text that reads as an expression (`[` first, `]` last) gets one more
/// `[` in front, so that it is taken literally when used again.
pub open spec fn escape_text(s: Seq<char>) -> Seq<char> {
    if s.len() >= 1 && s[0] == '[' && s[s.len() - 1] == ']' {
        seq!['['] + s
    } else {
        s
    }
}

/// Whether a value holds, at any depth, an array directly inside an array.
pub open spec fn has_nested_array(v: JsonValue) -> bool
    decreases v,
{
    match v {
        JsonValue::Object(ms) => exists|i: int| 0 <= i < ms@.len() && has_nested_array((#[trigger] ms@[i]).1),
        JsonValue::Array(xs) => exists|i: int| 0 <= i < xs@.len() && ((#[trigger] xs@[i]) is Array || has_nested_array(xs@[i])),
        _ => false,
    }
}

/// Whether `b` is `a` with every string escaped, at any depth, names and
/// member order kept.
#[verifier::opaque]
pub open spec fn escaped(a: JsonValue, b: JsonValue) -> bool
    decreases a,
{
    match a {
        JsonValue::Object(xs) => match b {
            JsonValue::Object(ys) => {
                &&& ys@.len() == xs@.len()
                &&& forall|i: int| 0 <= i < xs@.len() ==> (#[trigger] ys@[i]).0@ == xs@[i].0@ && escaped(xs@[i].1, ys@[i].1)
            },
            _ => false,
        },
        JsonValue::Array(xs) => match b {
            JsonValue::Array(ys) => {
                &&& ys@.len() == xs@.len()
                &&& forall|i: int| 0 <= i < xs@.len() ==> escaped(#[trigger] xs@[i], ys@[i])
            },
            _ => false,
        },
        JsonValue::String(s) => match b {
            JsonValue::String(t) => t@ == escape_text(s@),
            _ => false,
        },
        JsonValue::Null => b == JsonValue::Null,
        JsonValue::Bool(x) => b == JsonValue::Bool(x),
        JsonValue::Number(n) => b == JsonValue::Number(n),
    }
}

fn escape_string(s: &String) -> (r: String)
    ensures
        r@ == escape_text(s@),
{
    let n = s.as_str().unicode_len();
    if n >= 1 && s.as_str().get_char(0) == '[' && s.as_str().get_char(n - 1) == ']' {
        let mut r = String::from_str("[");
        r.append(s.as_str());
        proof {
            reveal_strlit("[");
            assert(r@ =~= seq!['['] + s@);
        }
        r
    } else {
        s.clone()
    }
}

fn parser_error(text: &str) -> (e: DscError)
    ensures
        e is Parser,
{
    DscError::Parser(String::from_str(text))
}

fn escape_members(ms: &Vec<(String, JsonValue)>) -> (r: Result<Vec<(String, JsonValue)>, DscError>)
    ensures
        match r {
            Ok(out) => !has_nested_array(JsonValue::Object(*ms)) && escaped(JsonValue::Object(*ms), JsonValue::Object(out)),
            Err(e) => has_nested_array(JsonValue::Object(*ms)) && e is Parser,
        },
    decreases ms, 0nat,
{
    let mut out: Vec<(String, JsonValue)> = Vec::new();
    let mut i: usize = 0;
    while i < ms.len()
        invariant
            i <= ms@.len(),
            out@.len() == i,
            forall|k: int| 0 <= k < i ==> (#[trigger] out@[k]).0@ == ms@[k].0@ && escaped(ms@[k].1, out@[k].1),
            forall|k: int| 0 <= k < i ==> !has_nested_array((#[trigger] ms@[k]).1),
        decreases ms@.len() - i,
    {
        assert(decreases_to!(ms => ms@));
        assert(decreases_to!(ms@ => ms@[i as int]));
        assert(decreases_to!(ms@[i as int] => ms@[i as int].1));
        match escape_value(&ms[i].1) {
            Ok(v) => {
                out.push((ms[i].0.clone(), v));
            },
            Err(e) => {
                let ghost whole = JsonValue::Object(*ms);
                assert(whole->Object_0@[i as int] == ms@[i as int]);
                assert(has_nested_array(whole));
                return Err(e);
            },
        }
        i = i + 1;
    }
    proof {
        reveal(escaped);
    }
    Ok(out)
}

fn escape_value(v: &JsonValue) -> (r: Result<JsonValue, DscError>)
    ensures
        match r {
            Ok(out) => !has_nested_array(*v) && escaped(*v, out),
            Err(e) => has_nested_array(*v) && e is Parser,
        },
    decreases v, 1nat,
{
    proof {
        reveal(escaped);
    }
    match v {
        JsonValue::Object(ms) => {
            assert(decreases_to!(*v => v->Object_0));
            match escape_members(ms) {
                Ok(out) => Ok(JsonValue::Object(out)),
                Err(e) => Err(e),
            }
        },
        JsonValue::Array(xs) => {
            let mut out: Vec<JsonValue> = Vec::new();
            let mut i: usize = 0;
            while i < xs.len()
                invariant
                    i <= xs@.len(),
                    out@.len() == i,
                    *v == JsonValue::Array(*xs),
                    forall|k: int| 0 <= k < i ==> escaped(#[trigger] xs@[k], out@[k]),
                    forall|k: int| 0 <= k < i ==> !((#[trigger] xs@[k]) is Array) && !has_nested_array(xs@[k]),
                decreases xs@.len() - i,
            {
                assert(decreases_to!(*v => v->Array_0));
                assert(decreases_to!(v->Array_0 => v->Array_0@));
                assert(decreases_to!(v->Array_0@ => v->Array_0@[i as int]));
                if let JsonValue::Array(_) = &xs[i] {
                    assert(xs@[i as int] is Array);
                    return Err(parser_error("Nested arrays not supported"));
                }
                match escape_value(&xs[i]) {
                    Ok(e) => {
                        out.push(e);
                    },
                    Err(e) => {
                        return Err(e);
                    },
                }
                i = i + 1;
            }
            Ok(JsonValue::Array(out))
        },
        JsonValue::String(s) => Ok(JsonValue::String(escape_string(s))),
        JsonValue::Null => Ok(JsonValue::Null),
        JsonValue::Bool(b) => Ok(JsonValue::Bool(*b)),
        JsonValue::Number(n) => Ok(JsonValue::Number(*n)),
    }
}

/// Escapes the property values that a resource returned, so that a text
/// that reads as an expression is taken literally when the properties are
/// used again: each such string gets one more `[` in front, in objects and
/// arrays at any depth. An array inside an array is refused.
pub fn escape_property_values(properties: &Vec<(String, JsonValue)>) -> (r: Result<Option<Vec<(String, JsonValue)>>, DscError>)
    ensures
        match r {
            Ok(Some(out)) => !has_nested_array(JsonValue::Object(*properties))
                && escaped(JsonValue::Object(*properties), JsonValue::Object(out)),
            Ok(None) => false,
            Err(e) => has_nested_array(JsonValue::Object(*properties)) && e is Parser,
        },
{
    match escape_members(properties) {
        Ok(out) => Ok(Some(out)),
        Err(e) => Err(e),
    }
}


/// Whether `v` is the metadata that tells an adapter it is used by a
/// configuration: `{"Microsoft.DSC": {"context": "configuration"}}`.
pub open spec fn is_configuration_context(v: JsonValue) -> bool {
    &&& v matches JsonValue::Object(outer)
    &&& outer@.len() == 1
    &&& outer@[0].0@ == "Microsoft.DSC"@
    &&& outer@[0].1 matches JsonValue::Object(inner)
    &&& inner@.len() == 1
    &&& inner@[0].0@ == "context"@
    &&& inner@[0].1 matches JsonValue::String(c)
    &&& c@ == "configuration"@
}

/// Whether `out` is `props` with a member `metadata` put in whose value is
/// the configuration context metadata.
pub open spec fn with_context_metadata(props: Seq<(String, JsonValue)>, out: Seq<(String, JsonValue)>) -> bool {
    exists|k: String, m: JsonValue| k@ == "metadata"@ && is_configuration_context(m) && out == member_put(props, k, m)
}

/// What `add_metadata` gives for an adapter: the properties with the
/// metadata member put in, or the metadata alone when there are none.
pub open spec fn adapter_input(properties: Option<Vec<(String, JsonValue)>>, r: Option<JsonValue>) -> bool {
    match properties {
        Some(p) => r matches Some(JsonValue::Object(out)) && with_context_metadata(p@, out@),
        None => r matches Some(m) && is_configuration_context(m),
    }
}

fn configuration_context() -> (r: JsonValue)
    ensures
        is_configuration_context(r),
{
    let mut inner: Vec<(String, JsonValue)> = Vec::new();
    inner.push((String::from_str("context"), JsonValue::String(String::from_str("configuration"))));
    let mut outer: Vec<(String, JsonValue)> = Vec::new();
    outer.push((String::from_str("Microsoft.DSC"), JsonValue::Object(inner)));
    JsonValue::Object(outer)
}

/// The input that a resource of kind `kind` gets for the given properties:
/// an adapter also gets the metadata that says a configuration uses it;
/// `None` stands for the empty input.
pub fn add_metadata(kind: Kind, properties: Option<Vec<(String, JsonValue)>>) -> (r: Option<JsonValue>)
    ensures
        kind == Kind::Adapter ==> adapter_input(properties, r),
        kind != Kind::Adapter ==> r == match properties {
            Some(p) => Some(JsonValue::Object(p)),
            None => None,
        },
{
    if kind == Kind::Adapter {
        let metadata = configuration_context();
        match properties {
            Some(p) => {
                let ghost before = p@;
                let mut p = p;
                let k = String::from_str("metadata");
                let ghost gk = k;
                let ghost gm = metadata;
                put_member(&mut p, k, metadata);
                assert(with_context_metadata(before, p@)) by {
                    assert(gk@ == "metadata"@ && is_configuration_context(gm) && p@ == member_put(before, gk, gm));
                }
                return Some(JsonValue::Object(p));
            },
            None => {
                return Some(metadata);
            },
        }
    }
    match properties {
        Some(p) => Some(JsonValue::Object(p)),
        None => None,
    }
}

/// Whether the desired state asks for the instance to exist: not so only
/// when the properties hold `_exist` as `false`.
pub open spec fn wants_existence(properties: Option<Vec<(String, JsonValue)>>) -> bool {
    match properties {
        Some(p) => member_value(p@, "_exist"@) != Some(JsonValue::Bool(false)),
        None => true,
    }
}

/// Whether the desired state asks for the instance to exist.
pub fn desired_exists(properties: &Option<Vec<(String, JsonValue)>>) -> (r: bool)
    ensures
        r == wants_existence(*properties),
{
    match properties {
        Some(p) => {
            let key = String::from_str("_exist");
            proof {
                lemma_find_key(p@, key@);
            }
            match find_member(p, &key) {
                Some(j) => match &p[j].1 {
                    JsonValue::Bool(b) => *b,
                    _ => true,
                },
                None => true,
            }
        },
        None => true,
    }
}

/// How a set is carried out on a resource.
#[derive(Debug, Clone, Copy, PartialEq, Eq, Structural)]
pub enum SetAction {
    /// The resource's set is called.
    Apply,
    /// The instance is deleted: get, delete, get again.
    Delete,
}

/// Whether the capabilities hold `c`.
pub open spec fn has_capability(caps: Seq<Capability>, c: Capability) -> bool {
    exists|i: int| 0 <= i < caps.len() && caps[i] == c
}

fn capabilities_contain(caps: &Vec<Capability>, c: Capability) -> (r: bool)
    ensures
        r == has_capability(caps@, c),
{
    let mut i: usize = 0;
    while i < caps.len()
        invariant
            i <= caps@.len(),
            forall|k: int| 0 <= k < i ==> caps@[k] != c,
        decreases caps@.len() - i,
    {
        if caps[i] == c {
            return true;
        }
        i = i + 1;
    }
    false
}

/// The outcome of `choose_set_action`.
pub open spec fn set_action_post(exist: bool, caps: Seq<Capability>, execution_type: ExecutionKind, r: Result<SetAction, DscError>) -> bool {
    if exist || has_capability(caps, Capability::SetHandlesExist) {
        r == Ok::<SetAction, DscError>(SetAction::Apply)
    } else if has_capability(caps, Capability::Delete) {
        if execution_type == ExecutionKind::WhatIf {
            r matches Err(e) && e is NotSupported
        } else {
            r == Ok::<SetAction, DscError>(SetAction::Delete)
        }
    } else {
        r matches Err(e) && e is NotImplemented
    }
}

/// How to carry out a set: by the resource's set when the instance is to
/// exist or the resource handles `_exist` itself; else by a delete, which
/// has no what-if; a resource that can do neither is refused.
pub fn choose_set_action(exist: bool, capabilities: &Vec<Capability>, execution_type: ExecutionKind, resource_type: &String) -> (r: Result<SetAction, DscError>)
    ensures
        set_action_post(exist, capabilities@, execution_type, r),
{
    if exist || capabilities_contain(capabilities, Capability::SetHandlesExist) {
        Ok(SetAction::Apply)
    } else if capabilities_contain(capabilities, Capability::Delete) {
        if execution_type == ExecutionKind::WhatIf {
            Err(DscError::NotSupported(String::from_str("What-if is not supported for delete")))
        } else {
            Ok(SetAction::Delete)
        }
    } else {
        let mut m = String::from_str("Resource '");
        m.append(resource_type.as_str());
        m.append("' does not support `delete` and does not handle `_exist` as false");
        Err(DscError::NotImplemented(m))
    }
}

/// Whether `out` is `ms` with the member at `j` renamed `resources`.
pub open spec fn renamed_to_resources(ms: Seq<(String, JsonValue)>, j: int, out: Seq<(String, JsonValue)>) -> bool {
    &&& out.len() == ms.len()
    &&& out[j].0@ == "resources"@
    &&& out[j].1 == ms[j].1
    &&& forall|i: int| 0 <= i < ms.len() && i != j ==> out[i] == ms[i]
}

/// The state before a delete as a set reports it: a `result` member is
/// named `resources` there, unless `resources` is present already.
pub open spec fn set_before_state(ms: Seq<(String, JsonValue)>, out: Seq<(String, JsonValue)>) -> bool {
    let j = find_key(ms, "result"@);
    if j >= 0 && find_key(ms, "resources"@) < 0 {
        renamed_to_resources(ms, j, out)
    } else {
        out == ms
    }
}

/// The outcome of `delete_set_result`.
pub open spec fn delete_result_post(before: GetResult, after: GetResult, r: Result<SetResult, DscError>) -> bool {
    match (before, after) {
        (GetResult::Resource(b), GetResult::Resource(a)) => match b.actual_state {
            JsonValue::Object(ms) => r matches Ok(SetResult::Resource(s)) && {
                &&& s.before_state matches JsonValue::Object(out) && set_before_state(ms@, out@)
                &&& s.after_state == a.actual_state
                &&& s.changed_properties matches Some(d) && string_views(d@) == json_diff(b.actual_state, a.actual_state)
            },
            _ => r matches Err(e) && e is Json,
        },
        _ => r matches Err(e) && e is NotSupported,
    }
}

/// Reports a delete as a set: the state before, the state after, and the
/// properties that differ; only a single resource's states can be so
/// reported, and the state before must be an object.
pub fn delete_set_result(before: GetResult, after: GetResult) -> (r: Result<SetResult, DscError>)
    ensures
        delete_result_post(before, after, r),
{
    let b = match before {
        GetResult::Resource(b) => b,
        GetResult::Group(_) => {
            return Err(DscError::NotSupported(String::from_str("Group resources not supported for delete")));
        },
    };
    let a = match after {
        GetResult::Resource(a) => a,
        GetResult::Group(_) => {
            return Err(DscError::NotSupported(String::from_str("Group resources not supported for delete")));
        },
    };
    let diff = get_diff(&b.actual_state, &a.actual_state);
    let ghost b_state = b.actual_state;
    let mut ms = match b.actual_state {
        JsonValue::Object(ms) => ms,
        _ => {
            return Err(DscError::Json(String::from_str("invalid type: expected a map")));
        },
    };
    let ghost original = ms@;
    let result_key = String::from_str("result");
    let resources_key = String::from_str("resources");
    proof {
        lemma_find_key(ms@, result_key@);
        lemma_find_key(ms@, resources_key@);
    }
    match find_member(&ms, &result_key) {
        Some(j) => {
            if find_member(&ms, &resources_key).is_none() {
                let (_, v) = ms.remove(j);
                ms.insert(j, (resources_key, v));
                assert(renamed_to_resources(original, j as int, ms@));
            }
        },
        None => {},
    }
    Ok(SetResult::Resource(ResourceSetResponse {
        before_state: JsonValue::Object(ms),
        after_state: a.actual_state,
        changed_properties: Some(diff),
    }))
}

/// The key under which a resource's result is kept for later reference:
/// `type:name`.
pub fn reference_key(resource_type: &String, name: &String) -> (r: String)
    ensures
        r@ == resource_type@ + seq![':'] + name@,
{
    let mut r = resource_type.clone();
    r.append(":");
    r.append(name.as_str());
    proof {
        reveal_strlit(":");
    }
    r
}

/// The security context that the metadata requires, if any.
pub open spec fn required_context(metadata: Option<Metadata>) -> Option<SecurityContextKind> {
    match metadata {
        Some(m) => match m.microsoft {
            Some(ms) => ms.security_context,
            None => None,
        },
        None => None,
    }
}

/// Whether a process that runs elevated (or not) meets the required
/// security context: `Elevated` needs an elevated process, `Restricted` a
/// process that is not.
pub open spec fn context_met(required: Option<SecurityContextKind>, elevated: bool) -> bool {
    match required {
        Some(SecurityContextKind::Elevated) => elevated,
        Some(SecurityContextKind::Restricted) => !elevated,
        _ => true,
    }
}

/// Checks the security context that a configuration's metadata requires
/// against that of the process, which runs elevated or not.
pub fn check_security_context(metadata: Option<&Metadata>, elevated: bool) -> (r: Result<(), DscError>)
    ensures
        match metadata {
            Some(m) => r is Ok == context_met(required_context(Some(*m)), elevated),
            None => r is Ok,
        },
        r matches Err(e) ==> e is SecurityContext,
{
    if let Some(m) = metadata {
        if let Some(microsoft) = &m.microsoft {
            if let Some(required) = &microsoft.security_context {
                match required {
                    SecurityContextKind::Current => {},
                    SecurityContextKind::Elevated => {
                        if !elevated {
                            return Err(DscError::SecurityContext(String::from_str("Elevated security context required")));
                        }
                    },
                    SecurityContextKind::Restricted => {
                        if elevated {
                            return Err(DscError::SecurityContext(String::from_str("Restricted security context required")));
                        }
                    },
                }
            }
        }
    }
    Ok(())
}

/// Whether a parameter value has the declared type; a secure string is a
/// string and a secure object an object here.
pub open spec fn value_has_type(value: JsonValue, t: DataType) -> bool {
    match t {
        DataType::String | DataType::SecureString => value is String,
        DataType::Int => i64_value(value) is Some,
        DataType::Bool => value is Bool,
        DataType::Array => value is Array,
        DataType::Object | DataType::SecureObject => value is Object,
    }
}

/// Checks that a parameter value has the declared type.
pub fn validate_parameter_type(name: &str, value: &JsonValue, parameter_type: DataType) -> (r: Result<(), DscError>)
    ensures
        r is Ok == value_has_type(*value, parameter_type),
        r matches Err(e) ==> e is Validation,
{
    let ok = match parameter_type {
        DataType::String | DataType::SecureString => matches!(value, JsonValue::String(_)),
        DataType::Int => value.as_i64().is_some(),
        DataType::Bool => matches!(value, JsonValue::Bool(_)),
        DataType::Array => matches!(value, JsonValue::Array(_)),
        DataType::Object | DataType::SecureObject => matches!(value, JsonValue::Object(_)),
    };
    if ok {
        Ok(())
    } else {
        let what = match parameter_type {
            DataType::String | DataType::SecureString => "' is not a string",
            DataType::Int => "' is not an integer",
            DataType::Bool => "' is not a boolean",
            DataType::Array => "' is not an array",
            DataType::Object | DataType::SecureObject => "' is not an object",
        };
        let mut m = String::from_str("Parameter '");
        m.append(name);
        m.append(what);
        Err(DscError::Validation(m))
    }
}


/// The metadata that a result's `_metadata` member adds to `other`: each
/// member put in, in order, but those whose name begins `Microsoft.DSC`,
/// which are ignored.
pub open spec fn metadata_added(other: Seq<(String, JsonValue)>, mm: Seq<(String, JsonValue)>) -> Seq<(String, JsonValue)>
    decreases mm.len(),
{
    if mm.len() == 0 {
        other
    } else {
        let prev = metadata_added(other, mm.drop_last());
        if text_starts_with(mm.last().0@, "Microsoft.DSC"@) {
            prev
        } else {
            member_put(prev, mm.last().0, mm.last().1)
        }
    }
}

/// The members of an object; none for another value.
pub open spec fn object_members(v: JsonValue) -> Seq<(String, JsonValue)> {
    match v {
        JsonValue::Object(ms) => ms@,
        _ => Seq::empty(),
    }
}

/// The `_metadata` member of a result object, if any.
pub open spec fn result_metadata(v: JsonValue) -> Option<JsonValue> {
    match v {
        JsonValue::Object(ms) => member_value(ms@, "_metadata"@),
        _ => None,
    }
}

/// The outcome of `get_metadata_from_result`.
pub open spec fn metadata_post(
    old_result: JsonValue,
    old_metadata: Metadata,
    new_result: JsonValue,
    new_metadata: Metadata,
    r: Result<(), DscError>,
) -> bool {
    match result_metadata(old_result) {
        None => r is Ok && new_result == old_result && new_metadata == old_metadata,
        Some(JsonValue::Object(mm)) => {
            &&& r is Ok
            &&& new_metadata.microsoft == old_metadata.microsoft
            &&& new_metadata.other@ == metadata_added(old_metadata.other@, mm@)
            &&& new_result is Object
            &&& object_members(new_result) == member_removed(object_members(old_result), "_metadata"@)
        },
        Some(_) => r matches Err(e) && e is Parser && new_result == old_result && new_metadata == old_metadata,
    }
}

/// Moves the `_metadata` member of a result into the metadata kept for it:
/// its members go to `other`, but for those whose name begins
/// `Microsoft.DSC`; the member is then removed from the result. A
/// `_metadata` that is not an object is refused.
pub fn get_metadata_from_result(result: &mut JsonValue, metadata: &mut Metadata) -> (r: Result<(), DscError>)
    ensures
        metadata_post(*old(result), *old(metadata), *final(result), *final(metadata), r),
{
    let ghost old_result = *result;
    let mut taken = JsonValue::Null;
    std::mem::swap(&mut taken, result);
    let mut ms = match taken {
        JsonValue::Object(ms) => ms,
        other => {
            *result = other;
            return Ok(());
        },
    };
    let key = String::from_str("_metadata");
    proof {
        lemma_find_key(ms@, key@);
    }
    let j = match find_member(&ms, &key) {
        Some(j) => j,
        None => {
            *result = JsonValue::Object(ms);
            return Ok(());
        },
    };
    if !matches!(&ms[j].1, JsonValue::Object(_)) {
        let m = String::from_str("Metadata in the result is not an object");
        *result = JsonValue::Object(ms);
        return Err(DscError::Parser(m));
    }
    let ghost before = ms@;
    let (_, value) = ms.swap_remove(j);
    *result = JsonValue::Object(ms);
    let mut rest = match value {
        JsonValue::Object(mm) => mm,
        _ => Vec::new(),
    };
    let ghost all = rest@;
    let total = rest.len();
    let ghost other0 = metadata.other@;
    let prefix = String::from_str("Microsoft.DSC");
    let mut i: usize = 0;
    assert(all.take(0) =~= Seq::<(String, JsonValue)>::empty());
    while rest.len() > 0
        invariant
            i + rest@.len() == all.len(),
            all.len() == total,
            rest@ == all.skip(i as int),
            prefix@ == "Microsoft.DSC"@,
            metadata.other@ == metadata_added(other0, all.take(i as int)),
            metadata.microsoft == old(metadata).microsoft,
        decreases rest@.len(),
    {
        let (k, v) = rest.remove(0);
        let ghost e = all[i as int];
        assert(e == (k, v));
        assert(all.take(i + 1).drop_last() =~= all.take(i as int));
        assert(all.take(i + 1).last() == e);
        if !starts_with_text(k.as_str(), prefix.as_str()) {
            put_member(&mut metadata.other, k, v);
        }
        i = i + 1;
        assert(rest@ =~= all.skip(i as int));
    }
    assert(all.take(i as int) =~= all);
    Ok(())
}

/// What a progress report shows of a failed command.
#[derive(Debug)]
pub struct Failure {
    pub message: String,
    pub exit_code: i32,
}

/// The failure that a progress report shows for an error: the exit code
/// and reason of a command that failed, none for any other error.
pub fn get_failure_from_error(err: &DscError) -> (r: Option<Failure>)
    ensures
        match *err {
            DscError::CommandExit(_, code, reason) => r matches Some(f) && f.exit_code == code && f.message@ == reason@,
            DscError::CommandExitFromManifest(_, code, reason) => r matches Some(f) && f.exit_code == code && f.message@ == reason@,
            _ => r is None,
        },
{
    match err {
        DscError::CommandExit(_, code, reason) => Some(Failure { message: reason.clone(), exit_code: *code }),
        DscError::CommandExitFromManifest(_, code, reason) => Some(Failure { message: reason.clone(), exit_code: *code }),
        _ => None,
    }
}


/// Whether a parameter value meets each constraint declared for it and has
/// the declared type.
pub open spec fn parameter_input_ok(value: JsonValue, constraint: Parameter) -> bool {
    &&& !length_bound_fails(value, constraint.min_length, true)
    &&& !length_bound_fails(value, constraint.max_length, false)
    &&& value_allowed(value, allowed_list(constraint))
    &&& !value_bound_fails(value, constraint.min_value, true)
    &&& !value_bound_fails(value, constraint.max_value, false)
    &&& value_has_type(value, constraint.parameter_type)
}

/// Checks a parameter value against the length, allowed-values and number
/// constraints declared for it, in that order, and then its type.
pub fn validate_parameter_input(name: &str, value: &JsonValue, constraint: &Parameter) -> (r: Result<(), DscError>)
    ensures
        r is Ok == parameter_input_ok(*value, *constraint),
        r matches Err(e) ==> e is Validation,
{
    let l = check_length(name, value, constraint);
    if l.is_err() {
        return l;
    }
    let a = check_allowed_values(name, value, constraint);
    if a.is_err() {
        return a;
    }
    let n = check_number_limits(name, value, constraint);
    if n.is_err() {
        return n;
    }
    validate_parameter_type(name, value, constraint.parameter_type)
}

/// Whether each input names a declared parameter and meets its constraints.
pub open spec fn inputs_ok(declared: Seq<(String, Parameter)>, inputs: Seq<(String, JsonValue)>) -> bool {
    forall|i: int| 0 <= i < inputs.len() ==> {
        let j = find_key(declared, (#[trigger] inputs[i]).0@);
        &&& 0 <= j
        &&& parameter_input_ok(inputs[i].1, declared[j].1)
    }
}

/// The context's parameters with each input put in, in order, with the
/// type its declaration gives.
pub open spec fn parameters_put_all(
    params: Seq<(String, (JsonValue, DataType))>,
    declared: Seq<(String, Parameter)>,
    inputs: Seq<(String, JsonValue)>,
) -> Seq<(String, (JsonValue, DataType))>
    decreases inputs.len(),
{
    if inputs.len() == 0 {
        params
    } else {
        let prev = parameters_put_all(params, declared, inputs.drop_last());
        let (n, v) = inputs.last();
        member_put(prev, n, (v, declared[find_key(declared, n@)].1.parameter_type))
    }
}

/// Whether `new` is the declared parameters `old` with the default value of
/// each one that an input names set to (a copy of) the input's value.
pub open spec fn defaults_set(old: Seq<(String, Parameter)>, new: Seq<(String, Parameter)>, inputs: Seq<(String, JsonValue)>) -> bool {
    &&& new.len() == old.len()
    &&& forall|j: int| 0 <= j < old.len() ==> {
        &&& (#[trigger] new[j]).0 == old[j].0
        &&& new[j].1.parameter_type == old[j].1.parameter_type
        &&& new[j].1.allowed_values == old[j].1.allowed_values
        &&& new[j].1.min_value == old[j].1.min_value
        &&& new[j].1.max_value == old[j].1.max_value
        &&& new[j].1.min_length == old[j].1.min_length
        &&& new[j].1.max_length == old[j].1.max_length
        &&& new[j].1.description == old[j].1.description
        &&& new[j].1.metadata == old[j].1.metadata
        &&& match member_value(inputs, old[j].0@) {
            Some(v) => new[j].1.default_value matches Some(d) && json_same(d, v),
            None => new[j].1.default_value == old[j].1.default_value,
        }
    }
}

/// The outcome of `set_parameter_inputs`.
pub open spec fn parameter_inputs_post(
    old_params: Seq<(String, (JsonValue, DataType))>,
    new_params: Seq<(String, (JsonValue, DataType))>,
    constraints: Option<Vec<(String, Parameter)>>,
    old_config: Option<Vec<(String, Parameter)>>,
    new_config: Option<Vec<(String, Parameter)>>,
    inputs: Seq<(String, JsonValue)>,
    r: Result<(), DscError>,
) -> bool {
    match constraints {
        None => r matches Err(e) && e is Validation,
        Some(c) => {
            &&& r is Ok == inputs_ok(c@, inputs)
            &&& (r matches Err(e) ==> e is Validation)
            &&& r is Ok ==> new_params == parameters_put_all(old_params, c@, inputs)
            &&& r is Ok ==> match old_config {
                Some(oc) => new_config matches Some(nc) && defaults_set(oc@, nc@, inputs),
                None => new_config is None,
            }
        },
    }
}

fn set_default(config: &mut Vec<(String, Parameter)>, j: usize, value: JsonValue)
    requires
        j < old(config)@.len(),
    ensures
        final(config)@.len() == old(config)@.len(),
        forall|k: int| 0 <= k < old(config)@.len() && k != j ==> final(config)@[k] == old(config)@[k],
        final(config)@[j as int].0 == old(config)@[j as int].0,
        final(config)@[j as int].1 == (Parameter { default_value: Some(value), ..old(config)@[j as int].1 }),
{
    let (n, p) = config.remove(j);
    let q = Parameter { default_value: Some(value), ..p };
    config.insert(j, (n, q));
}

/// Takes the parameter values given for a configuration: each must name a
/// parameter that `constraints` declares and meet its constraints and
/// type; it then goes into the context's parameters, with its declared
/// type, and becomes the default value of the configuration's parameter of
/// that name. No declared parameters is an error. The input names are
/// unique, as those of a map are.
pub fn set_parameter_inputs(
    parameters: &mut Vec<(String, (JsonValue, DataType))>,
    constraints: &Option<Vec<(String, Parameter)>>,
    config: &mut Option<Vec<(String, Parameter)>>,
    inputs: Vec<(String, JsonValue)>,
) -> (r: Result<(), DscError>)
    requires
        keys_unique(inputs@),
        *old(config) is Some ==> keys_unique(old(config)->Some_0@),
    ensures
        parameter_inputs_post(old(parameters)@, final(parameters)@, *constraints, *old(config), *final(config), inputs@, r),
{
    let c = match constraints {
        Some(c) => c,
        None => {
            return Err(DscError::Validation(String::from_str("No parameters defined in configuration")));
        },
    };
    let ghost all = inputs@;
    let ghost params0 = parameters@;
    let ghost config0 = *config;
    let mut rest = inputs;
    let total = rest.len();
    let mut i: usize = 0;
    while rest.len() > 0
        invariant
            i + rest@.len() == all.len(),
            all.len() == total,
            all == inputs@,
            rest@ == all.skip(i as int),
            keys_unique(all),
            *constraints == Some(*c),
            inputs_ok(c@, all.take(i as int)),
            parameters@ == parameters_put_all(params0, c@, all.take(i as int)),
            config0 is Some ==> (*config matches Some(nc) && config0 matches Some(oc) && keys_unique(oc@) && defaults_set(oc@, nc@, all.take(i as int))),
            config0 is None ==> *config is None,
        decreases rest@.len(),
    {
        let (name, value) = rest.remove(0);
        let ghost e = all[i as int];
        assert(e == (name, value));
        let ghost before_take = all.take(i as int);
        assert(all.take(i + 1) =~= before_take.push(e));
        proof {
            lemma_find_key(c@, name@);
        }
        let j = match find_member(c, &name) {
            Some(j) => j,
            None => {
                assert(!inputs_ok(c@, all)) by {
                    assert(all[i as int] == e);
                    assert(find_key(c@, all[i as int].0@) < 0);
                }

                return Err(DscError::Validation(parameter_text(&name, "' is not defined in configuration")));
            },
        };
        let v = validate_parameter_input(name.as_str(), &value, &c[j].1);
        if v.is_err() {
            assert(!inputs_ok(c@, all)) by {
                assert(all[i as int] == e);
                assert(!parameter_input_ok(all[i as int].1, c@[find_key(c@, all[i as int].0@)].1));
            }
            return v;
        }
        let copy = value.deep_copy();
        let t = c[j].1.parameter_type;
        proof {
            assert(inputs_ok(c@, all.take(i + 1))) by {
                assert forall|k: int| 0 <= k < all.take(i + 1).len() implies {
                    let jj = find_key(c@, (#[trigger] all.take(i + 1)[k]).0@);
                    &&& 0 <= jj
                    &&& parameter_input_ok(all.take(i + 1)[k].1, c@[jj].1)
                } by {
                    if k < i {
                        assert(all.take(i + 1)[k] == before_take[k]);
                    }
                }
            }
        }
        proof {
            lemma_find_key(all.take(i as int), name@);
            assert(find_key(before_take, name@) < 0) by {
                if find_key(before_take, name@) >= 0 {
                    let p = find_key(before_take, name@);
                    assert(all[p].0@ == all[i as int].0@);
                }
            }
        }
        let ghost prev_config = *config;
        match config {
            Some(cfg) => {
                let ghost nc0 = cfg@;
                let ghost oc = config0->Some_0@;
                let key = name.clone();
                proof {
                    lemma_find_key(cfg@, key@);
                    assert forall|q: int| 0 <= q < oc.len() implies #[trigger] member_value(all.take(i + 1), oc[q].0@) == if oc[q].0@ == name@ {
                        Some(value)
                    } else {
                        member_value(before_take, oc[q].0@)
                    } by {
                        lemma_find_key_push(before_take, e, oc[q].0@);
                    }
                }
                match find_member(cfg, &key) {
                    Some(k) => {
                        set_default(cfg, k, copy);
                        proof {
                            assert forall|q: int| 0 <= q < oc.len() && q != k implies oc[q].0@ != name@ by {
                                assert(nc0[q].0 == oc[q].0);
                                assert(nc0[k as int].0 == oc[k as int].0);
                            }
                        }
                    },
                    None => {
                        proof {
                            assert forall|q: int| 0 <= q < oc.len() implies oc[q].0@ != name@ by {
                                assert(nc0[q].0 == oc[q].0);
                            }
                        }
                    },
                }
            },
            None => {},
        }
        put_member(parameters, name, (value, t));
        proof {
            assert(all.take(i + 1).drop_last() =~= before_take);
            assert(all.take(i + 1).last() == e);
        }
        i = i + 1;
        assert(rest@ =~= all.skip(i as int));
    }
    assert(all.take(i as int) =~= all);
    Ok(())
}

fn parameter_text(name: &String, text: &str) -> (r: String)
    ensures
        r@ == "Parameter '"@ + name@ + text@,
{
    let mut m = String::from_str("Parameter '");
    m.append(name.as_str());
    m.append(text);
    m
}

/// Once the metadata of a result was taken, the result holds no
/// `_metadata` member any more (its member names being unique).
pub proof fn lemma_metadata_taken_is_gone(
    old_result: JsonValue,
    old_metadata: Metadata,
    new_result: JsonValue,
    new_metadata: Metadata,
)
    requires
        keys_unique(object_members(old_result)),
        metadata_post(old_result, old_metadata, new_result, new_metadata, Ok(())),
    ensures
        result_metadata(new_result) is None,
{
    if let Some(JsonValue::Object(_)) = result_metadata(old_result) {
        lemma_removed_is_gone(object_members(old_result), "_metadata"@);
    }
}

/// After the parameter inputs were taken, each input's value can be read
/// back from the context, with the type its declaration gives.
pub proof fn lemma_parameter_inputs_readable(
    params: Seq<(String, (JsonValue, DataType))>,
    declared: Seq<(String, Parameter)>,
    inputs: Seq<(String, JsonValue)>,
    i: int,
)
    requires
        keys_unique(inputs),
        0 <= i < inputs.len(),
    ensures
        member_value(parameters_put_all(params, declared, inputs), inputs[i].0@)
            == Some((inputs[i].1, declared[find_key(declared, inputs[i].0@)].1.parameter_type)),
    decreases inputs.len(),
{
    let prev = parameters_put_all(params, declared, inputs.drop_last());
    let (n, v) = inputs.last();
    let t = declared[find_key(declared, n@)].1.parameter_type;
    lemma_put_then_get(prev, n, (v, t), inputs[i].0@);
    if i < inputs.len() - 1 {
        assert(inputs.drop_last()[i] == inputs[i]);
        assert(keys_unique(inputs.drop_last())) by {
            assert forall|a: int, b: int| 0 <= a < b < inputs.drop_last().len() implies (#[trigger] inputs.drop_last()[a]).0@ != (#[trigger] inputs.drop_last()[b]).0@ by {
                assert(inputs.drop_last()[a] == inputs[a]);
                assert(inputs.drop_last()[b] == inputs[b]);
            }
        }
        lemma_parameter_inputs_readable(params, declared, inputs.drop_last(), i);
    }
}

/// Whether `out` is the members `ms` with every string escaped (see
/// `escaped`), names and order kept.
pub open spec fn members_escaped(ms: Seq<(String, JsonValue)>, out: Seq<(String, JsonValue)>) -> bool {
    &&& out.len() == ms.len()
    &&& forall|i: int| 0 <= i < ms.len() ==> (#[trigger] out[i]).0@ == ms[i].0@ && escaped(ms[i].1, out[i].1)
}

/// Whether a member holds, at any depth, an array inside an array.
pub open spec fn members_nested_array(ms: Seq<(String, JsonValue)>) -> bool {
    exists|i: int| 0 <= i < ms.len() && has_nested_array((#[trigger] ms[i]).1)
}

/// The security context that `_securityContext` names: `current`,
/// `elevated` or `restricted`.
pub open spec fn context_named(v: JsonValue) -> Option<SecurityContextKind> {
    match v {
        JsonValue::String(s) => if s@ == "current"@ {
            Some(SecurityContextKind::Current)
        } else if s@ == "elevated"@ {
            Some(SecurityContextKind::Elevated)
        } else if s@ == "restricted"@ {
            Some(SecurityContextKind::Restricted)
        } else {
            None
        },
        _ => None,
    }
}

/// The text of a string value.
pub open spec fn text_value(v: JsonValue) -> Seq<char> {
    match v {
        JsonValue::String(s) => s@,
        _ => Seq::empty(),
    }
}

/// The members of an exported instance once `_kind`, `_name` and
/// `_securityContext` are taken out, in that order.
pub open spec fn export_rest(ms: Seq<(String, JsonValue)>) -> Seq<(String, JsonValue)> {
    member_removed(member_removed(member_removed(ms, "_kind"@), "_name"@), "_securityContext"@)
}

/// The `_name` of an exported instance (looked up once `_kind` is out).
pub open spec fn export_name_value(ms: Seq<(String, JsonValue)>) -> Option<JsonValue> {
    member_value(member_removed(ms, "_kind"@), "_name"@)
}

/// The `_securityContext` of an exported instance.
pub open spec fn export_context_value(ms: Seq<(String, JsonValue)>) -> Option<JsonValue> {
    member_value(member_removed(member_removed(ms, "_kind"@), "_name"@), "_securityContext"@)
}

/// Whether the resource is what an exported instance becomes once its
/// members were found acceptable: the members without `_kind`, `_name` and
/// `_securityContext`, escaped, give the properties, but for `_metadata`,
/// whose members go into the metadata beside the security context.
pub open spec fn exported_resource(rtype: Seq<char>, index: usize, ms: Seq<(String, JsonValue)>, res: Resource) -> bool {
    let name = match export_name_value(ms) {
        Some(v) => text_value(v),
        None => rtype + seq!['-'] + decimal(index as int),
    };
    let sc = match export_context_value(ms) {
        Some(v) => context_named(v),
        None => None,
    };
    &&& res.resource_type@ == rtype
    &&& res.name@ == name
    &&& res.depends_on is None
    &&& match member_value(ms, "_kind"@) {
        Some(v) => res.kind matches Some(k) && k@ == text_value(v),
        None => res.kind is None,
    }
    &&& exists|e: Vec<(String, JsonValue)>, p: Vec<(String, JsonValue)>, md0: Metadata, md: Metadata| {
        &&& #[trigger] members_escaped(export_rest(ms), e@)
        &&& md0.microsoft is None
        &&& md0.other@.len() == 0
        &&& #[trigger] metadata_post(JsonValue::Object(e), md0, JsonValue::Object(p), md, Ok(()))
        &&& res.properties matches Some(q) && q@ == p@
        &&& (sc is None && md.other@.len() == 0) == (res.metadata is None)
        &&& res.metadata matches Some(m) ==> exported_metadata(sc, md.other@, m@)
    }
}

/// Whether `m` is the metadata of an exported instance: the required
/// security context under `Microsoft.DSC` first, when there is one, then
/// the other metadata.
pub open spec fn exported_metadata(sc: Option<SecurityContextKind>, other: Seq<(String, JsonValue)>, m: Seq<(String, JsonValue)>) -> bool {
    match sc {
        None => m == other,
        Some(k) => {
            &&& m.len() == other.len() + 1
            &&& m[0].0@ == "Microsoft.DSC"@
            &&& m[0].1 matches JsonValue::Object(inner) && inner@.len() == 1 && inner@[0].0@ == "securityContext"@
                && context_named(inner@[0].1) == Some(k)
            &&& m.drop_first() == other
        },
    }
}

/// The outcome of `resource_from_export_instance`.
pub open spec fn export_instance_post(rtype: Seq<char>, index: usize, instance: JsonValue, r: Result<Resource, DscError>) -> bool {
    match instance {
        JsonValue::Object(ms) => {
            let kind = member_value(ms@, "_kind"@);
            let name = export_name_value(ms@);
            let sc = export_context_value(ms@);
            let rest = export_rest(ms@);
            if kind matches Some(v) && !(v is String) {
                r matches Err(e) && e is Parser
            } else if name matches Some(v) && !(v is String) {
                r matches Err(e) && e is Parser
            } else if sc matches Some(v) && context_named(v) is None {
                r matches Err(e) && e is Json
            } else if members_nested_array(rest) {
                r matches Err(e) && e is Parser
            } else if member_value(rest, "_metadata"@) matches Some(m) && !(m is Object) {
                r matches Err(e) && e is Parser
            } else {
                r matches Ok(res) && exported_resource(rtype, index, ms@, res)
            }
        },
        _ => r matches Err(e) && e is Json,
    }
}

proof fn lemma_escaped_keeps_kinds(rest: Seq<(String, JsonValue)>, e: Seq<(String, JsonValue)>, k: Seq<char>)
    requires
        members_escaped(rest, e),
    ensures
        member_value(rest, k) is None == member_value(e, k) is None,
        (member_value(rest, k) matches Some(m) && m is Object) == (member_value(e, k) matches Some(m) && m is Object),
{
    reveal(escaped);
    assert forall|j: int| 0 <= j < e.len() implies (#[trigger] e[j]).0@ == rest[j].0@ by {}
    lemma_same_names_find(e, rest, k);
    lemma_find_key(rest, k);
    let j = find_key(rest, k);
    if j >= 0 {
        assert(escaped(rest[j].1, e[j].1));
    }
}

fn context_from_value(v: &JsonValue) -> (r: Option<SecurityContextKind>)
    ensures
        r == context_named(*v),
{
    match v {
        JsonValue::String(s) => {
            if str_equal(s.as_str(), "current") {
                Some(SecurityContextKind::Current)
            } else if str_equal(s.as_str(), "elevated") {
                Some(SecurityContextKind::Elevated)
            } else if str_equal(s.as_str(), "restricted") {
                Some(SecurityContextKind::Restricted)
            } else {
                None
            }
        },
        _ => None,
    }
}

fn context_value(k: SecurityContextKind) -> (r: JsonValue)
    ensures
        context_named(r) == Some(k),
{
    proof {
        reveal_strlit("current");
        reveal_strlit("elevated");
        reveal_strlit("restricted");
        assert("current"@ != "elevated"@ && "current"@ != "restricted"@ && "elevated"@ != "restricted"@) by {
            assert("current"@[0] != "elevated"@[0]);
            assert("current"@[0] != "restricted"@[0]);
            assert("elevated"@[0] != "restricted"@[0]);
        }
    }
    let s = match k {
        SecurityContextKind::Current => String::from_str("current"),
        SecurityContextKind::Elevated => String::from_str("elevated"),
        SecurityContextKind::Restricted => String::from_str("restricted"),
    };
    JsonValue::String(s)
}

/// The resource of a configuration that an exported instance of a resource
/// of type `resource_type`, at position `index`, becomes: `_kind`, `_name`
/// and `_securityContext` give its kind, name (else the type and the
/// position) and required security context; the other members, escaped,
/// its properties, but for `_metadata`, which goes into its metadata.
pub fn resource_from_export_instance(resource_type: &String, index: usize, instance: JsonValue) -> (r: Result<Resource, DscError>)
    ensures
        export_instance_post(resource_type@, index, instance, r),
{
    let mut props = match instance {
        JsonValue::Object(ms) => ms,
        _ => {
            return Err(DscError::Json(String::from_str("invalid type: expected a map")));
        },
    };
    let ghost ms0 = props@;
    let kind_key = String::from_str("_kind");
    let kind_v = take_member(&mut props, &kind_key);
    let kind = match kind_v {
        Some(JsonValue::String(k)) => Some(k),
        Some(_) => {
            return Err(DscError::Parser(String::from_str("Property '_kind' is not a string")));
        },
        None => None,
    };
    let name_key = String::from_str("_name");
    let name_v = take_member(&mut props, &name_key);
    let name = match name_v {
        Some(JsonValue::String(n)) => n,
        Some(_) => {
            return Err(DscError::Parser(String::from_str("Property '_name' is not a string")));
        },
        None => {
            let mut n = resource_type.clone();
            n.append("-");
            let d = int_to_decimal(index as i128);
            n.append(d.as_str());
            proof {
                reveal_strlit("-");
            }
            n
        },
    };
    let sc_key = String::from_str("_securityContext");
    let sc_v = take_member(&mut props, &sc_key);
    let sc = match sc_v {
        Some(v) => match context_from_value(&v) {
            Some(k) => Some(k),
            None => {
                return Err(DscError::Json(String::from_str("unknown security context")));
            },
        },
        None => None,
    };
    assert(props@ == export_rest(ms0));
    let escaped_props = match escape_members(&props) {
        Ok(e) => e,
        Err(e) => {
            proof {
                let whole = JsonValue::Object(props);
                assert(has_nested_array(whole));
                let i = choose|i: int| 0 <= i < props@.len() && has_nested_array((#[trigger] props@[i]).1);
                assert(members_nested_array(props@));
            }
            return Err(e);
        },
    };
    proof {
        reveal(escaped);
        assert(members_escaped(export_rest(ms0), escaped_props@));
        let whole = JsonValue::Object(props);
        assert(!has_nested_array(whole));
        assert(!members_nested_array(props@)) by {
            if members_nested_array(props@) {
                let i = choose|i: int| 0 <= i < props@.len() && has_nested_array((#[trigger] props@[i]).1);
                assert(whole->Object_0@[i] == props@[i]);
            }
        }
    }
    let ghost e0 = escaped_props;
    let mut value = JsonValue::Object(escaped_props);
    let mut metadata = Metadata { microsoft: None, other: Vec::new() };
    let ghost md0 = metadata;
    proof {
        lemma_escaped_keeps_kinds(export_rest(ms0), e0@, "_metadata"@);
    }
    match get_metadata_from_result(&mut value, &mut metadata) {
        Ok(()) => {},
        Err(e) => {
            return Err(e);
        },
    }
    let properties = match value {
        JsonValue::Object(p) => p,
        _ => Vec::new(),
    };
    let ghost p0 = properties;
    let has_other = metadata.other.len() > 0;
    let res_metadata = match sc {
        None => if has_other { Some(metadata.other) } else { None },
        Some(k) => {
            let mut inner: Vec<(String, JsonValue)> = Vec::new();
            inner.push((String::from_str("securityContext"), context_value(k)));
            let mut m: Vec<(String, JsonValue)> = Vec::new();
            m.push((String::from_str("Microsoft.DSC"), JsonValue::Object(inner)));
            let ghost other0 = metadata.other@;
            let mut other = metadata.other;
            m.append(&mut other);
            assert(m@.drop_first() =~= other0);
            assert(exported_metadata(Some(k), other0, m@));
            Some(m)
        },
    };
    let res = Resource { resource_type: resource_type.clone(), name, depends_on: None, kind, properties: Some(properties), metadata: res_metadata };
    proof {
        let nm = match export_name_value(ms0) {
            Some(v) => text_value(v),
            None => resource_type@ + seq!['-'] + decimal(index as int),
        };
        assert(res.name@ == nm);
        assert(res.resource_type@ == resource_type@);
        assert(match member_value(ms0, "_kind"@) {
            Some(v) => res.kind matches Some(k) && k@ == text_value(v),
            None => res.kind is None,
        });
        assert(members_escaped(export_rest(ms0), e0@));
        assert(metadata_post(JsonValue::Object(e0), md0, JsonValue::Object(p0), metadata, Ok(())));
        let scv = match export_context_value(ms0) {
            Some(v) => context_named(v),
            None => None,
        };
        assert(scv == sc);
        assert((scv is None && metadata.other@.len() == 0) == (res.metadata is None));
        assert(res.metadata matches Some(m) ==> exported_metadata(scv, metadata.other@, m@));
        assert(res.properties matches Some(q) && q@ == p0@);
        assert(exported_resource(resource_type@, index, ms0, res));
    }
    Ok(res)
}

/// Whether an exported instance becomes a resource (see
/// `export_instance_post`).
pub open spec fn export_instance_ok(instance: JsonValue) -> bool {
    match instance {
        JsonValue::Object(ms) => {
            let rest = export_rest(ms@);
            &&& !(member_value(ms@, "_kind"@) matches Some(v) && !(v is String))
            &&& !(export_name_value(ms@) matches Some(v) && !(v is String))
            &&& !(export_context_value(ms@) matches Some(v) && context_named(v) is None)
            &&& !members_nested_array(rest)
            &&& !(member_value(rest, "_metadata"@) matches Some(m) && !(m is Object))
        },
        _ => false,
    }
}

/// Adds to the configuration the resources that the instances exported by
/// a resource of type `resource_type` become, in order; the first instance
/// that does not become one is the error.
pub fn add_export_instances(resource_type: &String, conf: &mut Configuration, instances: Vec<JsonValue>) -> (r: Result<(), DscError>)
    ensures
        r is Ok == forall|i: int| 0 <= i < instances@.len() ==> export_instance_ok(#[trigger] instances@[i]),
        r is Ok ==> {
            &&& final(conf).resources@.len() == old(conf).resources@.len() + instances@.len()
            &&& final(conf).resources@.take(old(conf).resources@.len() as int) == old(conf).resources@
            &&& forall|i: int| 0 <= i < instances@.len() ==> exported_resource(
                resource_type@,
                i as usize,
                object_members(#[trigger] instances@[i]),
                final(conf).resources@[old(conf).resources@.len() + i],
            )
        },
{
    let ghost all = instances@;
    let ghost start = conf.resources@;
    let mut rest = instances;
    let total = rest.len();
    let mut i: usize = 0;
    while rest.len() > 0
        invariant
            i + rest@.len() == all.len(),
            all.len() == total,
            all == instances@,
            rest@ == all.skip(i as int),
            conf.resources@.len() == start.len() + i,
            conf.resources@.take(start.len() as int) == start,
            forall|q: int| 0 <= q < i ==> export_instance_ok(#[trigger] all[q]),
            forall|q: int| 0 <= q < i ==> exported_resource(
                resource_type@,
                q as usize,
                object_members(#[trigger] all[q]),
                conf.resources@[start.len() + q],
            ),
        decreases rest@.len(),
    {
        let instance = rest.remove(0);
        assert(instance == all[i as int]);
        let ghost before = conf.resources@;
        match resource_from_export_instance(resource_type, i, instance) {
            Ok(res) => {
                conf.resources.push(res);
                proof {
                    assert(conf.resources@.take(start.len() as int) =~= before.take(start.len() as int));
                    assert forall|q: int| 0 <= q < i + 1 implies exported_resource(
                        resource_type@,
                        q as usize,
                        object_members(#[trigger] all[q]),
                        conf.resources@[start.len() + q],
                    ) by {
                        if q < i {
                            assert(conf.resources@[start.len() + q] == before[start.len() + q]);
                        }
                    }
                }
            },
            Err(e) => {
                assert(!export_instance_ok(all[i as int]));
                return Err(e);
            },
        }
        i = i + 1;
        assert(rest@ =~= all.skip(i as int));
    }
    Ok(())
}

/// The metadata of a configuration's result for `operation`: the version
/// of the library, the operation, how it was executed, when it started and
/// ended and how long it took, and the security context it ran in.
pub fn get_result_metadata(context: &Context, operation: Operation, version: &String, start: &String, end: &String, duration: &String) -> (r: Metadata)
    ensures
        r.other@.len() == 0,
        r.microsoft matches Some(m) && {
            &&& (m.version matches Some(v) && v@ == version@)
            &&& m.operation == Some(operation)
            &&& m.execution_type == Some(context.execution_type)
            &&& (m.start_datetime matches Some(t) && t@ == start@)
            &&& (m.end_datetime matches Some(t) && t@ == end@)
            &&& (m.duration matches Some(t) && t@ == duration@)
            &&& m.security_context == Some(context.security_context)
            &&& m.context is None
        },
{
    let microsoft = MicrosoftDscMetadata {
        version: Some(version.clone()),
        operation: Some(operation),
        execution_type: Some(context.execution_type),
        start_datetime: Some(start.clone()),
        end_datetime: Some(end.clone()),
        duration: Some(duration.clone()),
        security_context: Some(context.security_context),
        context: None,
    };
    Metadata { microsoft: Some(microsoft), other: Vec::new() }
}

} // verus!
