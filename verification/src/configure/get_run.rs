//! Getting one resource of a configuration as a sequence of steps: find
//! the resource, have its properties evaluated, run its get, record the
//! result. Evaluating expressions and invoking the resource are left to
//! the caller.

use vstd::prelude::*;
use vstd::string::StringExecFns;

use crate::configure::config_doc::{Metadata, Resource};
use crate::configure::configurator::add_metadata;
use crate::configure::outcomes::{record_get_post, record_get_result};
use crate::configure::set_run::desired_post;
use crate::discovery::{finds_resource, Discovery};
use crate::dscerror::DscError;
use crate::dscresources::dscresource::DscResource;
use crate::dscresources::invoke_result::{GetResult, ResourceGetResult};
use crate::dscresources::resource_manifest::Kind;
use crate::json::JsonValue;

verus! {

/// Where the get of one resource stands.
#[derive(Debug)]
pub enum ResourceGetState {
    /// Nothing has been done.
    Start,
    /// The resource was found; its properties are being evaluated.
    Evaluating { kind: Kind },
    /// The resource's get runs.
    Getting,
    /// The result is recorded.
    Done,
}

/// What the caller reports of the action it performed.
#[derive(Debug)]
pub enum ResourceGetEvent {
    /// The resource's properties, evaluated as the action asked.
    Properties(Option<Vec<(String, JsonValue)>>),
    /// The get gave this result; `group_results` is the results of a group
    /// as JSON, and `metadata` says when the get ran.
    GetDone { result: GetResult, group_results: Vec<JsonValue>, metadata: Metadata },
}

/// What to do next.
#[derive(Debug)]
pub enum ResourceGetAction {
    /// Evaluate the expressions in the resource's properties (or, for a
    /// group, which evaluates them itself, take them as they are).
    Evaluate { expressions: bool },
    /// Run the resource's get with this desired state.
    Get { desired: Option<JsonValue> },
    /// The resource's get is over, with this result.
    Finish(ResourceGetResult),
}

/// What a step of getting `resource` does (see `resource_get_step`).
pub open spec fn resource_get_step_post(
    discovery: Discovery,
    resource: Resource,
    old_refs: Seq<(String, JsonValue)>,
    new_refs: Seq<(String, JsonValue)>,
    state: ResourceGetState,
    event: Option<ResourceGetEvent>,
    r: Result<(ResourceGetState, ResourceGetAction), DscError>,
) -> bool {
    match (state, event) {
        (ResourceGetState::Start, None) => {
            &&& new_refs == old_refs
            &&& if finds_resource(discovery.resources@, resource.resource_type@, None, None) {
                r matches Err(DscError::ResourceNotFound(t)) && t@ == resource.resource_type@
            } else {
                exists|d: &DscResource| #[trigger] finds_resource(discovery.resources@, resource.resource_type@, None, Some(d))
                    && (r matches Ok((ResourceGetState::Evaluating { kind }, ResourceGetAction::Evaluate { expressions }))
                    && kind == d.kind && expressions == (d.kind != Kind::Group))
            }
        },
        (ResourceGetState::Evaluating { kind }, Some(ResourceGetEvent::Properties(props))) => {
            &&& new_refs == old_refs
            &&& r matches Ok((s, ResourceGetAction::Get { desired })) && s is Getting && desired_post(kind, props, desired)
        },
        (ResourceGetState::Getting, Some(ResourceGetEvent::GetDone { result, group_results, metadata })) =>
            exists|rec: Result<ResourceGetResult, DscError>|
                #[trigger] record_get_post(old_refs, new_refs, resource.resource_type@, resource.name@, result, group_results, metadata, rec)
                && match rec {
                    Ok(out) => r matches Ok((s, ResourceGetAction::Finish(o))) && s is Done && o == out,
                    Err(e) => r == Err::<(ResourceGetState, ResourceGetAction), DscError>(e),
                },
        _ => new_refs == old_refs && (r matches Err(e) && e is Operation),
    }
}

/// One step of getting `resource`, a resource of a configuration: find the
/// resource among those discovered (an error when it is not there); have
/// its properties evaluated; run its get with the desired state they make;
/// record the result (see `record_get_result`).
pub fn resource_get_step(
    discovery: &Discovery,
    resource: &Resource,
    references: &mut Vec<(String, JsonValue)>,
    state: ResourceGetState,
    event: Option<ResourceGetEvent>,
) -> (r: Result<(ResourceGetState, ResourceGetAction), DscError>)
    ensures
        resource_get_step_post(*discovery, *resource, old(references)@, final(references)@, state, event, r),
{
    match (state, event) {
        (ResourceGetState::Start, None) => {
            match discovery.find_resource(resource.resource_type.as_str(), None) {
                None => Err(DscError::ResourceNotFound(resource.resource_type.clone())),
                Some(d) => {
                    let kind = d.kind;
                    Ok((ResourceGetState::Evaluating { kind }, ResourceGetAction::Evaluate { expressions: kind != Kind::Group }))
                },
            }
        },
        (ResourceGetState::Evaluating { kind }, Some(ResourceGetEvent::Properties(props))) => {
            let desired = add_metadata(kind, props);
            Ok((ResourceGetState::Getting, ResourceGetAction::Get { desired }))
        },
        (ResourceGetState::Getting, Some(ResourceGetEvent::GetDone { result, group_results, metadata })) => {
            let rec = record_get_result(references, &resource.resource_type, &resource.name, result, group_results, metadata);
            match rec {
                Ok(out) => Ok((ResourceGetState::Done, ResourceGetAction::Finish(out))),
                Err(e) => Err(e),
            }
        },
        _ => Err(DscError::Operation(String::from_str("The get did not expect this outcome at this step"))),
    }
}

} // verus!
