//! Setting one resource of a configuration as a sequence of steps: each
//! step takes what the last action gave and says what to do next, until
//! the resource's set result is recorded. Evaluating expressions and
//! invoking the resource are left to the caller.

use vstd::prelude::*;
use vstd::string::StringExecFns;

use crate::configure::config_doc::{ExecutionKind, Metadata, Resource};
use crate::configure::configurator::{
    adapter_input, add_metadata, choose_set_action, delete_result_post, delete_set_result, desired_exists, set_action_post,
    wants_existence, SetAction,
};
use crate::configure::outcomes::{record_set_post, record_set_result};
use crate::discovery::{finds_resource, Discovery};
use crate::dscerror::DscError;
use crate::dscresources::dscresource::{copy_capabilities, Capability, DscResource};
use crate::dscresources::invoke_result::{GetResult, ResourceSetResult, SetResult};
use crate::dscresources::resource_manifest::Kind;
use crate::json::JsonValue;

verus! {

/// Where the set of one resource stands.
#[derive(Debug)]
pub enum ResourceSetState {
    /// Nothing has been done.
    Start,
    /// The resource was found; its properties are being evaluated.
    Evaluating { kind: Kind, capabilities: Vec<Capability> },
    /// The resource's set runs.
    Setting,
    /// The state before a delete is being read.
    GettingBefore,
    /// The instance is being deleted.
    Deleting { before: GetResult },
    /// The state after the delete is being read.
    GettingAfter { before: GetResult },
    /// The result is recorded.
    Done,
}

/// What the caller reports of the action it performed.
#[derive(Debug)]
pub enum ResourceSetEvent {
    /// The resource's properties, evaluated as the action asked.
    Properties(Option<Vec<(String, JsonValue)>>),
    /// The set gave this result; `group_results` is the results of a group
    /// as JSON, and `metadata` says when the set ran.
    SetDone { result: SetResult, group_results: Vec<JsonValue>, metadata: Metadata },
    /// The get gave this result.
    Got(GetResult),
    /// The delete succeeded.
    Deleted,
    /// The get after the delete gave this result; `metadata` says when the
    /// delete ran.
    GotAfter { after: GetResult, metadata: Metadata },
}

/// What to do next.
#[derive(Debug)]
pub enum ResourceSetAction {
    /// Evaluate the expressions in the resource's properties (or, for a
    /// group, which evaluates them itself, take them as they are).
    Evaluate { expressions: bool },
    /// Run the resource's set with this desired state.
    ApplySet { desired: Option<JsonValue> },
    /// Run the resource's get with this desired state.
    Get { desired: Option<JsonValue> },
    /// Run the resource's delete with the same desired state.
    Delete,
    /// Run the resource's get with the same desired state again.
    GetAgain,
    /// The resource's set is over, with this result.
    Finish(ResourceSetResult),
}

/// The desired state that `add_metadata` makes of the properties.
pub open spec fn desired_post(kind: Kind, properties: Option<Vec<(String, JsonValue)>>, d: Option<JsonValue>) -> bool {
    &&& kind == Kind::Adapter ==> adapter_input(properties, d)
    &&& kind != Kind::Adapter ==> d == match properties {
        Some(p) => Some(JsonValue::Object(p)),
        None => None,
    }
}

/// What the recording step gives: the step's outcome for the record's
/// outcome.
pub open spec fn finished(rec: Result<ResourceSetResult, DscError>, r: Result<(ResourceSetState, ResourceSetAction), DscError>) -> bool {
    match rec {
        Ok(out) => r matches Ok((s, ResourceSetAction::Finish(o))) && s is Done && o == out,
        Err(e) => r == Err::<(ResourceSetState, ResourceSetAction), DscError>(e),
    }
}

/// What a step of setting `resource` does (see `resource_set_step`).
pub open spec fn resource_set_step_post(
    discovery: Discovery,
    resource: Resource,
    execution: ExecutionKind,
    old_refs: Seq<(String, JsonValue)>,
    new_refs: Seq<(String, JsonValue)>,
    state: ResourceSetState,
    event: Option<ResourceSetEvent>,
    r: Result<(ResourceSetState, ResourceSetAction), DscError>,
) -> bool {
    match (state, event) {
        (ResourceSetState::Start, None) => {
            &&& new_refs == old_refs
            &&& if finds_resource(discovery.resources@, resource.resource_type@, None, None) {
                r matches Err(DscError::ResourceNotFound(t)) && t@ == resource.resource_type@
            } else {
                exists|d: &DscResource| #[trigger] finds_resource(discovery.resources@, resource.resource_type@, None, Some(d))
                    && (r matches Ok((ResourceSetState::Evaluating { kind, capabilities }, ResourceSetAction::Evaluate { expressions }))
                    && kind == d.kind && capabilities@ == d.capabilities@ && expressions == (d.kind != Kind::Group))
            }
        },
        (ResourceSetState::Evaluating { kind, capabilities }, Some(ResourceSetEvent::Properties(props))) => {
            &&& new_refs == old_refs
            &&& exists|act: Result<SetAction, DscError>, d: Option<JsonValue>|
                set_action_post(wants_existence(props), capabilities@, execution, act) && desired_post(kind, props, d)
                && match act {
                    Ok(SetAction::Apply) => r == Ok::<(ResourceSetState, ResourceSetAction), DscError>((ResourceSetState::Setting, ResourceSetAction::ApplySet { desired: d })),
                    Ok(SetAction::Delete) => r == Ok::<(ResourceSetState, ResourceSetAction), DscError>((ResourceSetState::GettingBefore, ResourceSetAction::Get { desired: d })),
                    Err(e) => r == Err::<(ResourceSetState, ResourceSetAction), DscError>(e),
                }
        },
        (ResourceSetState::Setting, Some(ResourceSetEvent::SetDone { result, group_results, metadata })) =>
            exists|rec: Result<ResourceSetResult, DscError>| #[trigger] record_set_post(old_refs, new_refs, resource.resource_type@, resource.name@, result, group_results, metadata, rec)
                && finished(rec, r),
        (ResourceSetState::GettingBefore, Some(ResourceSetEvent::Got(before))) => {
            &&& new_refs == old_refs
            &&& r == Ok::<(ResourceSetState, ResourceSetAction), DscError>((ResourceSetState::Deleting { before }, ResourceSetAction::Delete))
        },
        (ResourceSetState::Deleting { before }, Some(ResourceSetEvent::Deleted)) => {
            &&& new_refs == old_refs
            &&& r == Ok::<(ResourceSetState, ResourceSetAction), DscError>((ResourceSetState::GettingAfter { before }, ResourceSetAction::GetAgain))
        },
        (ResourceSetState::GettingAfter { before }, Some(ResourceSetEvent::GotAfter { after, metadata })) =>
            exists|dr: Result<SetResult, DscError>| #[trigger] delete_result_post(before, after, dr) && match dr {
                Err(e) => new_refs == old_refs && r == Err::<(ResourceSetState, ResourceSetAction), DscError>(e),
                Ok(sr) => exists|g: Vec<JsonValue>, rec: Result<ResourceSetResult, DscError>|
                    #[trigger] record_set_post(old_refs, new_refs, resource.resource_type@, resource.name@, sr, g, metadata, rec) && finished(rec, r),
            },
        _ => new_refs == old_refs && (r matches Err(e) && e is Operation),
    }
}

/// One step of setting `resource`, a resource of a configuration: find the
/// resource among those discovered (an error when it is not there); have
/// its properties evaluated; then, when the desired state keeps the
/// instance or the resource handles `_exist`, run its set; else, when it
/// can delete, read the state, delete, read the state again and report the
/// delete as a set; record the result (see `record_set_result`).
pub fn resource_set_step(
    discovery: &Discovery,
    resource: &Resource,
    execution: ExecutionKind,
    references: &mut Vec<(String, JsonValue)>,
    state: ResourceSetState,
    event: Option<ResourceSetEvent>,
) -> (r: Result<(ResourceSetState, ResourceSetAction), DscError>)
    ensures
        resource_set_step_post(*discovery, *resource, execution, old(references)@, final(references)@, state, event, r),
{
    match (state, event) {
        (ResourceSetState::Start, None) => {
            match discovery.find_resource(resource.resource_type.as_str(), None) {
                None => Err(DscError::ResourceNotFound(resource.resource_type.clone())),
                Some(d) => {
                    let kind = d.kind;
                    let caps = copy_capabilities(&d.capabilities);
                    Ok((ResourceSetState::Evaluating { kind, capabilities: caps }, ResourceSetAction::Evaluate { expressions: kind != Kind::Group }))
                },
            }
        },
        (ResourceSetState::Evaluating { kind, capabilities }, Some(ResourceSetEvent::Properties(props))) => {
            let exist = desired_exists(&props);
            let ghost p = props;
            let desired = add_metadata(kind, props);
            let act = choose_set_action(exist, &capabilities, execution, &resource.resource_type);
            proof {
                assert(desired_post(kind, p, desired));
            }
            match act {
                Ok(SetAction::Apply) => Ok((ResourceSetState::Setting, ResourceSetAction::ApplySet { desired })),
                Ok(SetAction::Delete) => Ok((ResourceSetState::GettingBefore, ResourceSetAction::Get { desired })),
                Err(e) => Err(e),
            }
        },
        (ResourceSetState::Setting, Some(ResourceSetEvent::SetDone { result, group_results, metadata })) => {
            let rec = record_set_result(references, &resource.resource_type, &resource.name, result, group_results, metadata);
            match rec {
                Ok(out) => Ok((ResourceSetState::Done, ResourceSetAction::Finish(out))),
                Err(e) => Err(e),
            }
        },
        (ResourceSetState::GettingBefore, Some(ResourceSetEvent::Got(before))) => {
            Ok((ResourceSetState::Deleting { before }, ResourceSetAction::Delete))
        },
        (ResourceSetState::Deleting { before }, Some(ResourceSetEvent::Deleted)) => {
            Ok((ResourceSetState::GettingAfter { before }, ResourceSetAction::GetAgain))
        },
        (ResourceSetState::GettingAfter { before }, Some(ResourceSetEvent::GotAfter { after, metadata })) => {
            let ghost b = before;
            let ghost a = after;
            let dr = delete_set_result(before, after);
            match dr {
                Err(e) => {
                    assert(delete_result_post(b, a, Err::<SetResult, DscError>(e)));
                    Err(e)
                },
                Ok(sr) => {
                    let g: Vec<JsonValue> = Vec::new();
                    let ghost gv = g;
                    let ghost srv = sr;
                    let rec = record_set_result(references, &resource.resource_type, &resource.name, sr, g, metadata);
                    proof {
                        assert(delete_result_post(b, a, Ok::<SetResult, DscError>(srv)));
                    }
                    match rec {
                        Ok(out) => Ok((ResourceSetState::Done, ResourceSetAction::Finish(out))),
                        Err(e) => Err(e),
                    }
                },
            }
        },
        _ => Err(DscError::Operation(String::from_str("The set did not expect this outcome at this step"))),
    }
}

} // verus!
