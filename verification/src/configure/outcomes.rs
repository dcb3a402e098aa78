//! What a configuration keeps of each resource it ran: the state that
//! later references to the resource see, and the result with its metadata.

use vstd::prelude::*;

use crate::configure::config_doc::Metadata;
use crate::configure::configurator::{get_metadata_from_result, metadata_post, reference_key};
use crate::dscerror::DscError;
use crate::dscresources::invoke_result::{
    ExportResult, GetResult, ResourceGetResult, ResourceSetResult, ResourceTestResult, SetResult, TestResult,
};
use crate::json::{json_same, lemma_put_then_get, member_value, put_member, JsonValue};

verus! {

/// The name under which a configuration refers to the resource `name` of
/// type `resource_type`.
pub open spec fn reference_name(resource_type: Seq<char>, name: Seq<char>) -> Seq<char> {
    resource_type + seq![':'] + name
}

/// Whether references under names other than `key` are as they were.
pub open spec fn others_kept(old_refs: Seq<(String, JsonValue)>, new_refs: Seq<(String, JsonValue)>, key: Seq<char>) -> bool {
    forall|k: Seq<char>| k != key ==> #[trigger] member_value(new_refs, k) == member_value(old_refs, k)
}

/// Whether the references hold under `key` a copy of `state`.
pub open spec fn holds_copy(refs: Seq<(String, JsonValue)>, key: Seq<char>, state: JsonValue) -> bool {
    member_value(refs, key) matches Some(v) && json_same(v, state)
}

/// What recording `state` did: the references hold a copy of it as it
/// came, and its `_metadata` went into the metadata (see
/// `get_metadata_from_result`).
pub open spec fn state_recorded(
    old_refs: Seq<(String, JsonValue)>,
    new_refs: Seq<(String, JsonValue)>,
    key: Seq<char>,
    old_state: JsonValue,
    old_metadata: Metadata,
    new_state: JsonValue,
    new_metadata: Metadata,
    r: Result<(), DscError>,
) -> bool {
    &&& others_kept(old_refs, new_refs, key)
    &&& holds_copy(new_refs, key, old_state)
    &&& metadata_post(old_state, old_metadata, new_state, new_metadata, r)
}

/// Whether the references hold exactly `value` under `key`, the others as
/// they were.
pub open spec fn value_recorded(old_refs: Seq<(String, JsonValue)>, new_refs: Seq<(String, JsonValue)>, key: Seq<char>, value: JsonValue) -> bool {
    &&& others_kept(old_refs, new_refs, key)
    &&& member_value(new_refs, key) == Some(value)
}

fn put_reference(references: &mut Vec<(String, JsonValue)>, key: String, value: JsonValue)
    ensures
        value_recorded(old(references)@, final(references)@, key@, value),
{
    let ghost before = references@;
    put_member(references, key, value);
    proof {
        lemma_put_then_get(before, key, value, key@);
        assert forall|k: Seq<char>| k != key@ implies #[trigger] member_value(references@, k) == member_value(before, k) by {
            lemma_put_then_get(before, key, value, k);
        }
    }
}

fn record_state(references: &mut Vec<(String, JsonValue)>, key: String, state: &mut JsonValue, metadata: &mut Metadata) -> (r: Result<(), DscError>)
    ensures
        state_recorded(old(references)@, final(references)@, key@, *old(state), *old(metadata), *final(state), *final(metadata), r),
{
    let copy = state.deep_copy();
    put_reference(references, key, copy);
    get_metadata_from_result(state, metadata)
}

/// What `record_get_result` does (see it).
pub open spec fn record_get_post(
    old_refs: Seq<(String, JsonValue)>,
    new_refs: Seq<(String, JsonValue)>,
    resource_type: Seq<char>,
    name: Seq<char>,
    result: GetResult,
    group_results: Vec<JsonValue>,
    metadata: Metadata,
    r: Result<ResourceGetResult, DscError>,
) -> bool {
    &&& match result {
        GetResult::Resource(g) => match r {
            Ok(out) => out.result matches GetResult::Resource(h) && out.metadata matches Some(m) && state_recorded(
                old_refs, new_refs, reference_name(resource_type, name), g.actual_state, metadata, h.actual_state, m, Ok(())),
            Err(e) => state_recorded(old_refs, new_refs, reference_name(resource_type, name), g.actual_state, metadata,
                g.actual_state, metadata, Err(e)),
        },
        GetResult::Group(_) => {
            &&& value_recorded(old_refs, new_refs, reference_name(resource_type, name), JsonValue::Array(group_results))
            &&& r matches Ok(out) && out.result == result && out.metadata == Some(metadata)
        },
    }
    &&& r matches Ok(out) ==> out.name@ == name && out.resource_type@ == resource_type
}

/// Records the get result of the resource `name` of type `resource_type`:
/// the references keep under `type:name` its actual state (for a group,
/// `group_results`, the results of its members as JSON), the `_metadata`
/// of that state moves into `metadata`, and the result comes back with it.
pub fn record_get_result(
    references: &mut Vec<(String, JsonValue)>,
    resource_type: &String,
    name: &String,
    result: GetResult,
    group_results: Vec<JsonValue>,
    metadata: Metadata,
) -> (r: Result<ResourceGetResult, DscError>)
    ensures
        record_get_post(old(references)@, final(references)@, resource_type@, name@, result, group_results, metadata, r),
{
    let key = reference_key(resource_type, name);
    let mut md = metadata;
    let result = match result {
        GetResult::Resource(g) => {
            let mut g = g;
            let ghost md0 = md;
            let ghost s0 = g.actual_state;
            let outcome = record_state(references, key, &mut g.actual_state, &mut md);
            if outcome.is_err() {
                proof {
                    assert(g.actual_state == s0 && md == md0);
                }
                return Err(outcome.unwrap_err());
            }
            GetResult::Resource(g)
        },
        GetResult::Group(gs) => {
            put_reference(references, key, JsonValue::Array(group_results));
            GetResult::Group(gs)
        },
    };
    Ok(ResourceGetResult { metadata: Some(md), name: name.clone(), resource_type: resource_type.clone(), result })
}

/// What `record_set_result` does (see it).
pub open spec fn record_set_post(
    old_refs: Seq<(String, JsonValue)>,
    new_refs: Seq<(String, JsonValue)>,
    resource_type: Seq<char>,
    name: Seq<char>,
    result: SetResult,
    group_results: Vec<JsonValue>,
    metadata: Metadata,
    r: Result<ResourceSetResult, DscError>,
) -> bool {
    &&& (match result {
            SetResult::Resource(s) => match r {
                Ok(out) => out.result matches SetResult::Resource(t) && out.metadata matches Some(m) && t.before_state == s.before_state
                    && t.changed_properties == s.changed_properties && state_recorded(
                    old_refs, new_refs, reference_name(resource_type, name), s.after_state, metadata, t.after_state, m, Ok(())),
                Err(e) => state_recorded(old_refs, new_refs, reference_name(resource_type, name), s.after_state, metadata,
                    s.after_state, metadata, Err(e)),
            },
            SetResult::Group(_) => {
                &&& value_recorded(old_refs, new_refs, reference_name(resource_type, name), JsonValue::Array(group_results))
                &&& r matches Ok(out) && out.result == result && out.metadata == Some(metadata)
            },
        })
    &&& (r matches Ok(out) ==> out.name@ == name && out.resource_type@ == resource_type)
}

/// Records the set result of the resource `name` of type `resource_type`
/// as `record_get_result` does, with its state after the set.
pub fn record_set_result(
    references: &mut Vec<(String, JsonValue)>,
    resource_type: &String,
    name: &String,
    result: SetResult,
    group_results: Vec<JsonValue>,
    metadata: Metadata,
) -> (r: Result<ResourceSetResult, DscError>)
    ensures
        record_set_post(old(references)@, final(references)@, resource_type@, name@, result, group_results, metadata, r),
{
    let key = reference_key(resource_type, name);
    let mut md = metadata;
    let result = match result {
        SetResult::Resource(s) => {
            let mut s = s;
            let ghost md0 = md;
            let ghost s0 = s.after_state;
            let outcome = record_state(references, key, &mut s.after_state, &mut md);
            if outcome.is_err() {
                proof {
                    assert(s.after_state == s0 && md == md0);
                }
                return Err(outcome.unwrap_err());
            }
            SetResult::Resource(s)
        },
        SetResult::Group(gs) => {
            put_reference(references, key, JsonValue::Array(group_results));
            SetResult::Group(gs)
        },
    };
    Ok(ResourceSetResult { metadata: Some(md), name: name.clone(), resource_type: resource_type.clone(), result })
}

/// What `record_test_result` does (see it).
pub open spec fn record_test_post(
    old_refs: Seq<(String, JsonValue)>,
    new_refs: Seq<(String, JsonValue)>,
    resource_type: Seq<char>,
    name: Seq<char>,
    result: TestResult,
    group_results: Vec<JsonValue>,
    metadata: Metadata,
    r: Result<ResourceTestResult, DscError>,
) -> bool {
    &&& match result {
        TestResult::Resource(t) => match r {
            Ok(out) => out.result matches TestResult::Resource(u) && out.metadata matches Some(m) && u.desired_state == t.desired_state
                && u.in_desired_state == t.in_desired_state && u.diff_properties == t.diff_properties && state_recorded(
                old_refs, new_refs, reference_name(resource_type, name), t.actual_state, metadata, u.actual_state, m, Ok(())),
            Err(e) => state_recorded(old_refs, new_refs, reference_name(resource_type, name), t.actual_state, metadata,
                t.actual_state, metadata, Err(e)),
        },
        TestResult::Group(_) => {
            &&& value_recorded(old_refs, new_refs, reference_name(resource_type, name), JsonValue::Array(group_results))
            &&& r matches Ok(out) && out.result == result && out.metadata == Some(metadata)
        },
    }
    &&& r matches Ok(out) ==> out.name@ == name && out.resource_type@ == resource_type
}

/// Records the test result of the resource `name` of type `resource_type`
/// as `record_get_result` does, with its actual state.
pub fn record_test_result(
    references: &mut Vec<(String, JsonValue)>,
    resource_type: &String,
    name: &String,
    result: TestResult,
    group_results: Vec<JsonValue>,
    metadata: Metadata,
) -> (r: Result<ResourceTestResult, DscError>)
    ensures
        record_test_post(old(references)@, final(references)@, resource_type@, name@, result, group_results, metadata, r),
{
    let key = reference_key(resource_type, name);
    let mut md = metadata;
    let result = match result {
        TestResult::Resource(t) => {
            let mut t = t;
            let ghost md0 = md;
            let ghost s0 = t.actual_state;
            let outcome = record_state(references, key, &mut t.actual_state, &mut md);
            if outcome.is_err() {
                proof {
                    assert(t.actual_state == s0 && md == md0);
                }
                return Err(outcome.unwrap_err());
            }
            TestResult::Resource(t)
        },
        TestResult::Group(gs) => {
            put_reference(references, key, JsonValue::Array(group_results));
            TestResult::Group(gs)
        },
    };
    Ok(ResourceTestResult { metadata: Some(md), name: name.clone(), resource_type: resource_type.clone(), result })
}

/// Records the export result of the resource `name` of type
/// `resource_type`: the references keep under `type:name` a copy of the
/// exported instances, as an array; the result comes back as it was.
pub fn record_export_result(
    references: &mut Vec<(String, JsonValue)>,
    resource_type: &String,
    name: &String,
    result: ExportResult,
) -> (r: ExportResult)
    ensures
        r == result,
        others_kept(old(references)@, final(references)@, reference_name(resource_type@, name@)),
        holds_copy(final(references)@, reference_name(resource_type@, name@), JsonValue::Array(result.actual_state)),
{
    let key = reference_key(resource_type, name);
    let states = JsonValue::Array(result.actual_state);
    let copy = states.deep_copy();
    put_reference(references, key, copy);
    match states {
        JsonValue::Array(actual_state) => ExportResult { actual_state },
        _ => ExportResult { actual_state: Vec::new() },
    }
}

/// The metadata of an exported configuration: that of the configuration
/// that was exported, where it had any, with the Microsoft part of
/// `operation_metadata` in place of its own; else `operation_metadata`.
pub fn export_metadata(configuration_metadata: Option<Metadata>, operation_metadata: Metadata) -> (r: Metadata)
    ensures
        match configuration_metadata {
            Some(m) => r == (Metadata { microsoft: operation_metadata.microsoft, ..m }),
            None => r == operation_metadata,
        },
{
    match configuration_metadata {
        Some(m) => Metadata { microsoft: operation_metadata.microsoft, ..m },
        None => operation_metadata,
    }
}

} // verus!
