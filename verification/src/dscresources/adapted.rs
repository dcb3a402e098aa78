//! A resource that runs through the adapter it requires: which way each
//! operation on a resource goes, the resource an adapter is handed, and the
//! states read back from what the adapter returns.

use vstd::prelude::*;
use vstd::string::StringExecFns;

use crate::configure::config_doc::{Configuration, Resource};
use crate::dscerror::DscError;
use crate::dscresources::dscresource::{DscResource, ImplementedAs};
use crate::dscresources::dscresource::{get_diff, json_diff, string_views};
use crate::dscresources::invoke_result::{
    ConfigurationGetResult, ConfigurationSetResult, ConfigurationTestResult, ExportResult, GetResult,
    ResourceGetResponse, ResourceSetResponse, ResourceTestResponse, SetResult, TestResult,
};
use crate::json::{json_same, member_value, take_member, JsonValue};

verus! {

/// An operation that can be invoked on a resource.
#[derive(Debug, Clone, Copy, PartialEq, Eq, Structural)]
pub enum ResourceOperation {
    Get,
    SetState,
    Test,
    Delete,
    Validate,
    Schema,
    Export,
}

/// Where an operation on a resource goes.
#[derive(Debug)]
pub enum OperationRoute {
    /// Through the named adapter, which is handed a configuration that
    /// holds the resource.
    Adapter(String),
    /// To the command that the resource's manifest describes.
    Manifest(JsonValue),
}

/// Whether `op` can go through an adapter: validating and giving the schema
/// cannot.
pub open spec fn adapter_allowed(op: ResourceOperation) -> bool {
    !(op is Validate || op is Schema)
}

/// What `operation_route` gives for `op` on `r`.
pub open spec fn route_post(r: DscResource, op: ResourceOperation, out: Result<OperationRoute, DscError>) -> bool {
    match r.require_adapter {
        Some(a) => if adapter_allowed(op) {
            out matches Ok(OperationRoute::Adapter(b)) && b@ == a@
        } else {
            out matches Err(e) && e is NotSupported
        },
        None => if r.implemented_as is Custom && !(op is Export) {
            out matches Err(e) && e is NotImplemented
        } else {
            match r.manifest {
                Some(m) => out matches Ok(OperationRoute::Manifest(n)) && json_same(n, m),
                None => out matches Err(DscError::MissingManifest(t)) && t@ == r.resource_type@,
            }
        },
    }
}

impl DscResource {
    /// Where `op` on this resource goes: through the adapter it requires,
    /// where there is one and the operation can go that way; else to its
    /// manifest, which a custom resource has none of (export looks for the
    /// manifest alone).
    pub fn operation_route(&self, op: ResourceOperation) -> (r: Result<OperationRoute, DscError>)
        ensures
            route_post(*self, op, r),
    {
        if let Some(adapter) = &self.require_adapter {
            if op == ResourceOperation::Validate || op == ResourceOperation::Schema {
                let mut m = String::from_str("Operation is not supported through an adapter for resource '");
                m.append(self.resource_type.as_str());
                m.append("'");
                return Err(DscError::NotSupported(m));
            }
            return Ok(OperationRoute::Adapter(adapter.clone()));
        }
        if op != ResourceOperation::Export {
            if let ImplementedAs::Custom(_) = &self.implemented_as {
                return Err(DscError::NotImplemented(String::from_str("Custom resources are not supported")));
            }
        }
        match &self.manifest {
            Some(m) => Ok(OperationRoute::Manifest(m.deep_copy())),
            None => Err(DscError::MissingManifest(self.resource_type.clone())),
        }
    }
}

/// Whether `members` are those of the instance an adapter is handed for a
/// resource of type `resource_type`: its name and its type, both that type,
/// then the properties where there are any.
pub open spec fn instance_members(members: Seq<(String, JsonValue)>, resource_type: Seq<char>, properties: Option<JsonValue>) -> bool {
    &&& members.len() == if properties is Some { 3int } else { 2int }
    &&& members[0].0@ == "name"@
    &&& (members[0].1 matches JsonValue::String(s) && s@ == resource_type)
    &&& members[1].0@ == "type"@
    &&& (members[1].1 matches JsonValue::String(s) && s@ == resource_type)
    &&& (properties matches Some(p) ==> members[2].0@ == "properties"@ && members[2].1 == p)
}

/// Whether `out` is the resource that the adapter `adapter` is handed to
/// run `r` with `properties`: named as `r`'s type, of the adapter's type,
/// with one property `resources` that lists the one instance.
pub open spec fn adapter_resource_post(r: DscResource, adapter: Seq<char>, properties: Option<JsonValue>, out: Resource) -> bool {
    &&& out.name@ == r.resource_type@
    &&& out.resource_type@ == adapter
    &&& out.depends_on is None
    &&& out.kind is None
    &&& out.metadata is None
    &&& (out.properties matches Some(ps) && {
        &&& ps@.len() == 1
        &&& ps@[0].0@ == "resources"@
        &&& (ps@[0].1 matches JsonValue::Array(items) && {
            &&& items@.len() == 1
            &&& (items@[0] matches JsonValue::Object(ms) && instance_members(ms@, r.resource_type@, properties))
        })
    })
}

impl DscResource {
    /// The resource of a configuration that runs this resource through
    /// `adapter` with `properties` (none where the operation had no input).
    pub fn adapter_resource(&self, adapter: &String, properties: Option<JsonValue>) -> (out: Resource)
        ensures
            adapter_resource_post(*self, adapter@, properties, out),
    {
        let mut members: Vec<(String, JsonValue)> = Vec::new();
        members.push((String::from_str("name"), JsonValue::String(self.resource_type.clone())));
        members.push((String::from_str("type"), JsonValue::String(self.resource_type.clone())));
        if let Some(p) = properties {
            members.push((String::from_str("properties"), p));
        }
        let mut items: Vec<JsonValue> = Vec::new();
        items.push(JsonValue::Object(members));
        let mut resources: Vec<(String, JsonValue)> = Vec::new();
        resources.push((String::from_str("resources"), JsonValue::Array(items)));
        let out = Resource {
            resource_type: adapter.clone(),
            name: self.resource_type.clone(),
            depends_on: None,
            kind: None,
            properties: Some(resources),
            metadata: None,
        };
        out
    }
}

/// The properties of the first instance that an adapter's state lists
/// under `list_key`: `None` where the state is no object, has no such
/// array, or its first item is no object with `properties`.
pub open spec fn adapted_properties(state: JsonValue, list_key: Seq<char>) -> Option<JsonValue> {
    match state {
        JsonValue::Object(ms) => match member_value(ms@, list_key) {
            Some(JsonValue::Array(items)) => if items@.len() > 0 {
                match items@[0] {
                    JsonValue::Object(fs) => member_value(fs@, "properties"@),
                    _ => None,
                }
            } else {
                None
            },
            _ => None,
        },
        _ => None,
    }
}

/// Whether `state` lists nothing under `list_key`, which an adapter never
/// gives back for the one instance it was handed.
pub open spec fn lists_nothing(state: JsonValue, list_key: Seq<char>) -> bool {
    match state {
        JsonValue::Object(ms) => match member_value(ms@, list_key) {
            Some(JsonValue::Array(items)) => items@.len() == 0,
            _ => false,
        },
        _ => false,
    }
}

fn not_found(property: &str) -> (e: DscError)
    ensures
        e is Operation,
{
    let mut m = String::from_str("Property '");
    m.append(property);
    m.append("' was not found");
    DscError::Operation(m)
}

fn wrong_type(property: &str, expected: &str) -> (e: DscError)
    ensures
        e is Operation,
{
    let mut m = String::from_str("Property '");
    m.append(property);
    m.append("' is not of type '");
    m.append(expected);
    m.append("'");
    DscError::Operation(m)
}

/// The properties of the first instance that `state` lists under
/// `list_key` (see `adapted_properties`); an operation error where they
/// are not there.
pub fn adapted_state_properties(state: JsonValue, list_key: &str) -> (r: Result<JsonValue, DscError>)
    requires
        !lists_nothing(state, list_key@),
    ensures
        match adapted_properties(state, list_key@) {
            Some(p) => r == Ok::<JsonValue, DscError>(p),
            None => (r matches Err(e) && e is Operation),
        },
{
    let mut ms = match state {
        JsonValue::Object(ms) => ms,
        _ => {
            return Err(wrong_type("state", "object"));
        },
    };
    let key = String::from_str(list_key);
    let listed = take_member(&mut ms, &key);
    let mut items = match listed {
        Some(JsonValue::Array(items)) => items,
        Some(_) => {
            return Err(wrong_type(list_key, "array"));
        },
        None => {
            return Err(not_found(list_key));
        },
    };
    let first = items.swap_remove(0);
    let mut fs = match first {
        JsonValue::Object(fs) => fs,
        _ => {
            return Err(wrong_type(list_key, "object"));
        },
    };
    let pkey = String::from_str("properties");
    match take_member(&mut fs, &pkey) {
        Some(p) => Ok(p),
        None => Err(not_found("properties")),
    }
}

/// Whether `changed` is what a set reports of the difference `diff`:
/// nothing where there is none, else the names of the properties.
pub open spec fn changed_post(changed: Option<Vec<String>>, diff: Seq<Seq<char>>) -> bool {
    if diff.len() == 0 {
        changed is None
    } else {
        changed matches Some(d) && string_views(d@) == diff
    }
}

fn wrong_result(operation: &str) -> (e: DscError)
    ensures
        e is Operation,
{
    let mut m = String::from_str("The adapter returned the wrong kind of result for ");
    m.append(operation);
    DscError::Operation(m)
}

/// The get result of a resource run through its adapter, read from the
/// first result of the configuration the adapter ran: the properties its
/// actual state lists under `result`.
pub fn adapted_get_result(result: ConfigurationGetResult) -> (r: Result<GetResult, DscError>)
    requires
        result.results@.len() > 0,
        result.results@[0].result matches GetResult::Resource(g) ==> !lists_nothing(g.actual_state, "result"@),
    ensures
        match result.results@[0].result {
            GetResult::Resource(g) => match adapted_properties(g.actual_state, "result"@) {
                Some(p) => r == Ok::<GetResult, DscError>(GetResult::Resource(ResourceGetResponse { actual_state: p })),
                None => (r matches Err(e) && e is Operation),
            },
            GetResult::Group(_) => (r matches Err(e) && e is Operation),
        },
{
    let mut results = result.results;
    let first = results.swap_remove(0);
    match first.result {
        GetResult::Resource(g) => {
            let p = adapted_state_properties(g.actual_state, "result")?;
            Ok(GetResult::Resource(ResourceGetResponse { actual_state: p }))
        },
        GetResult::Group(_) => Err(wrong_result("get")),
    }
}

/// The set result of a resource run through its adapter, read from the
/// first result of the configuration the adapter ran: the state before is
/// what the before state lists under `resources`, the state after what the
/// after state lists under `result`, and the changed properties their
/// difference.
pub fn adapted_set_result(result: ConfigurationSetResult) -> (r: Result<SetResult, DscError>)
    requires
        result.results@.len() > 0,
        result.results@[0].result matches SetResult::Resource(s) ==> {
            &&& !lists_nothing(s.before_state, "resources"@)
            &&& adapted_properties(s.before_state, "resources"@) is Some ==> !lists_nothing(s.after_state, "result"@)
        },
    ensures
        match result.results@[0].result {
            SetResult::Resource(s) => match (adapted_properties(s.before_state, "resources"@), adapted_properties(s.after_state, "result"@)) {
                (Some(b), Some(a)) => r matches Ok(SetResult::Resource(out)) && {
                    &&& out.before_state == b
                    &&& out.after_state == a
                    &&& changed_post(out.changed_properties, json_diff(b, a))
                },
                _ => (r matches Err(e) && e is Operation),
            },
            SetResult::Group(_) => (r matches Err(e) && e is Operation),
        },
{
    let mut results = result.results;
    let first = results.swap_remove(0);
    match first.result {
        SetResult::Resource(s) => {
            let before = adapted_state_properties(s.before_state, "resources")?;
            let after = adapted_state_properties(s.after_state, "result")?;
            let diff = get_diff(&before, &after);
            let changed = if diff.len() == 0 { None } else { Some(diff) };
            Ok(SetResult::Resource(ResourceSetResponse { before_state: before, after_state: after, changed_properties: changed }))
        },
        SetResult::Group(_) => Err(wrong_result("set")),
    }
}

/// The test result of a resource run through its adapter, read from the
/// first result of the configuration the adapter ran: the desired state is
/// what its desired state lists under `resources`, the actual state what
/// its actual state lists under `result`; whether they agree is the
/// adapter's word, and the differing properties are computed here.
pub fn adapted_test_result(result: ConfigurationTestResult) -> (r: Result<TestResult, DscError>)
    requires
        result.results@.len() > 0,
        result.results@[0].result matches TestResult::Resource(t) ==> {
            &&& !lists_nothing(t.desired_state, "resources"@)
            &&& adapted_properties(t.desired_state, "resources"@) is Some ==> !lists_nothing(t.actual_state, "result"@)
        },
    ensures
        match result.results@[0].result {
            TestResult::Resource(t) => match (adapted_properties(t.desired_state, "resources"@), adapted_properties(t.actual_state, "result"@)) {
                (Some(d), Some(a)) => r matches Ok(TestResult::Resource(out)) && {
                    &&& out.desired_state == d
                    &&& out.actual_state == a
                    &&& out.in_desired_state == t.in_desired_state
                    &&& string_views(out.diff_properties@) == json_diff(d, a)
                },
                _ => (r matches Err(e) && e is Operation),
            },
            TestResult::Group(_) => (r matches Err(e) && e is Operation),
        },
{
    let mut results = result.results;
    let first = results.swap_remove(0);
    match first.result {
        TestResult::Resource(t) => {
            let in_desired_state = t.in_desired_state;
            let desired = adapted_state_properties(t.desired_state, "resources")?;
            let actual = adapted_state_properties(t.actual_state, "result")?;
            let diff = get_diff(&desired, &actual);
            Ok(TestResult::Resource(ResourceTestResponse {
                desired_state: desired,
                actual_state: actual,
                in_desired_state,
                diff_properties: diff,
            }))
        },
        TestResult::Group(_) => Err(wrong_result("test")),
    }
}

/// What the adapter exported for one resource of the configuration it
/// returned: the items of the array under its property `result`.
pub open spec fn exported_items(r: Resource) -> Option<Seq<JsonValue>> {
    match r.properties {
        Some(ps) => match member_value(ps@, "result"@) {
            Some(JsonValue::Array(items)) => Some(items@),
            _ => None,
        },
        None => None,
    }
}

/// The instances exported for `resources`, in order; `None` where one of
/// them does not list what it exported.
pub open spec fn exported_states(resources: Seq<Resource>) -> Option<Seq<JsonValue>>
    decreases resources.len(),
{
    if resources.len() == 0 {
        Some(Seq::empty())
    } else {
        match (exported_states(resources.drop_last()), exported_items(resources.last())) {
            (Some(xs), Some(ys)) => Some(xs + ys),
            _ => None,
        }
    }
}

/// The export result of a resource run through its adapter, read from the
/// configuration that the adapter's export returned: the instances that
/// each of its resources lists under `result`, in order.
pub fn adapted_export_result(configuration: Option<Configuration>) -> (r: Result<ExportResult, DscError>)
    ensures
        match configuration {
            Some(c) => match exported_states(c.resources@) {
                Some(xs) => r matches Ok(out) && out.actual_state@ == xs,
                None => (r matches Err(e) && e is Operation),
            },
            None => (r matches Err(e) && e is Operation),
        },
{
    let c = match configuration {
        Some(c) => c,
        None => {
            return Err(DscError::Operation(String::from_str("The adapter's export returned no configuration")));
        },
    };
    let ghost all = c.resources@;
    let mut rest = c.resources;
    let mut states: Vec<JsonValue> = Vec::new();
    let n = rest.len();
    let mut i: usize = 0;
    while i < n
        invariant
            n == all.len(),
            i <= n,
            configuration matches Some(cc) && cc.resources@ == all,
            rest@ == all.subrange(i as int, n as int),
            exported_states(all.subrange(0, i as int)) == Some(states@),
        decreases n - i,
    {
        assert(all.subrange(0, i + 1).drop_last() =~= all.subrange(0, i as int));
        let resource = rest.remove(0);
        assert(resource == all[i as int]);
        assert(rest@ =~= all.subrange(i + 1, n as int));
        let mut ps = match resource.properties {
            Some(ps) => ps,
            None => {
                proof {
                    assert(all.subrange(0, i + 1).last() == all[i as int]);
                    assert(exported_items(all[i as int]) is None);
                    lemma_exported_none(all, (i + 1) as int);
                }
                return Err(DscError::Operation(String::from_str("The adapter's export returned a resource without properties")));
            },
        };
        let key = String::from_str("result");
        let mut items = match take_member(&mut ps, &key) {
            Some(JsonValue::Array(items)) => items,
            Some(_) => {
                proof {
                    assert(all.subrange(0, i + 1).last() == all[i as int]);
                    assert(exported_items(all[i as int]) is None);
                    lemma_exported_none(all, (i + 1) as int);
                }
                return Err(wrong_type("result", "array"));
            },
            None => {
                proof {
                    assert(all.subrange(0, i + 1).last() == all[i as int]);
                    assert(exported_items(all[i as int]) is None);
                    lemma_exported_none(all, (i + 1) as int);
                }
                return Err(not_found("result"));
            },
        };
        states.append(&mut items);
        i = i + 1;
    }
    assert(all.subrange(0, n as int) =~= all);
    Ok(ExportResult { actual_state: states })
}

/// A prefix of `resources` whose exports are missing leaves those of every
/// longer prefix missing too.
proof fn lemma_exported_none(resources: Seq<Resource>, k: int)
    requires
        0 <= k <= resources.len(),
        exported_states(resources.subrange(0, k)) is None,
    ensures
        exported_states(resources) is None,
    decreases resources.len() - k,
{
    if k < resources.len() {
        assert(resources.subrange(0, k + 1).drop_last() =~= resources.subrange(0, k));
        lemma_exported_none(resources, k + 1);
    } else {
        assert(resources.subrange(0, k) =~= resources);
    }
}

} // verus!
