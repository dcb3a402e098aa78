//! Testing one resource of a configuration as a sequence of steps: find
//! the resource, have its properties evaluated, run its test, record the
//! result. Evaluating expressions and invoking the resource are left to
//! the caller.

use vstd::prelude::*;
use vstd::string::StringExecFns;

use crate::configure::config_doc::{Metadata, Resource};
use crate::configure::configurator::add_metadata;
use crate::configure::outcomes::{record_test_post, record_test_result};
use crate::configure::set_run::desired_post;
use crate::discovery::{finds_resource, Discovery};
use crate::dscerror::DscError;
use crate::dscresources::dscresource::DscResource;
use crate::dscresources::invoke_result::{TestResult, ResourceTestResult};
use crate::dscresources::resource_manifest::Kind;
use crate::json::JsonValue;

verus! {

/// Where the test of one resource stands.
#[derive(Debug)]
pub enum ResourceTestState {
    /// Nothing has been done.
    Start,
    /// The resource was found; its properties are being evaluated.
    Evaluating { kind: Kind },
    /// The resource's test runs.
    Testing,
    /// The result is recorded.
    Done,
}

/// What the caller reports of the action it performed.
#[derive(Debug)]
pub enum ResourceTestEvent {
    /// The resource's properties, evaluated as the action asked.
    Properties(Option<Vec<(String, JsonValue)>>),
    /// The test gave this result; `group_results` is the results of a group
    /// as JSON, and `metadata` says when the test ran.
    TestDone { result: TestResult, group_results: Vec<JsonValue>, metadata: Metadata },
}

/// What to do next.
#[derive(Debug)]
pub enum ResourceTestAction {
    /// Evaluate the expressions in the resource's properties (or, for a
    /// group, which evaluates them itself, take them as they are).
    Evaluate { expressions: bool },
    /// Run the resource's test with this desired state.
    Test { desired: Option<JsonValue> },
    /// The resource's test is over, with this result.
    Finish(ResourceTestResult),
}

/// What a step of testing `resource` does (see `resource_test_step`).
pub open spec fn resource_test_step_post(
    discovery: Discovery,
    resource: Resource,
    old_refs: Seq<(String, JsonValue)>,
    new_refs: Seq<(String, JsonValue)>,
    state: ResourceTestState,
    event: Option<ResourceTestEvent>,
    r: Result<(ResourceTestState, ResourceTestAction), DscError>,
) -> bool {
    match (state, event) {
        (ResourceTestState::Start, None) => {
            &&& new_refs == old_refs
            &&& if finds_resource(discovery.resources@, resource.resource_type@, None, None) {
                r matches Err(DscError::ResourceNotFound(t)) && t@ == resource.resource_type@
            } else {
                exists|d: &DscResource| #[trigger] finds_resource(discovery.resources@, resource.resource_type@, None, Some(d))
                    && (r matches Ok((ResourceTestState::Evaluating { kind }, ResourceTestAction::Evaluate { expressions }))
                    && kind == d.kind && expressions == (d.kind != Kind::Group))
            }
        },
        (ResourceTestState::Evaluating { kind }, Some(ResourceTestEvent::Properties(props))) => {
            &&& new_refs == old_refs
            &&& r matches Ok((s, ResourceTestAction::Test { desired })) && s is Testing && desired_post(kind, props, desired)
        },
        (ResourceTestState::Testing, Some(ResourceTestEvent::TestDone { result, group_results, metadata })) =>
            exists|rec: Result<ResourceTestResult, DscError>|
                #[trigger] record_test_post(old_refs, new_refs, resource.resource_type@, resource.name@, result, group_results, metadata, rec)
                && match rec {
                    Ok(out) => r matches Ok((s, ResourceTestAction::Finish(o))) && s is Done && o == out,
                    Err(e) => r == Err::<(ResourceTestState, ResourceTestAction), DscError>(e),
                },
        _ => new_refs == old_refs && (r matches Err(e) && e is Operation),
    }
}

/// One step of testing `resource`, a resource of a configuration: find the
/// resource among those discovered (an error when it is not there); have
/// its properties evaluated; run its test with the desired state they make;
/// record the result (see `record_test_result`).
pub fn resource_test_step(
    discovery: &Discovery,
    resource: &Resource,
    references: &mut Vec<(String, JsonValue)>,
    state: ResourceTestState,
    event: Option<ResourceTestEvent>,
) -> (r: Result<(ResourceTestState, ResourceTestAction), DscError>)
    ensures
        resource_test_step_post(*discovery, *resource, old(references)@, final(references)@, state, event, r),
{
    match (state, event) {
        (ResourceTestState::Start, None) => {
            match discovery.find_resource(resource.resource_type.as_str(), None) {
                None => Err(DscError::ResourceNotFound(resource.resource_type.clone())),
                Some(d) => {
                    let kind = d.kind;
                    Ok((ResourceTestState::Evaluating { kind }, ResourceTestAction::Evaluate { expressions: kind != Kind::Group }))
                },
            }
        },
        (ResourceTestState::Evaluating { kind }, Some(ResourceTestEvent::Properties(props))) => {
            let desired = add_metadata(kind, props);
            Ok((ResourceTestState::Testing, ResourceTestAction::Test { desired }))
        },
        (ResourceTestState::Testing, Some(ResourceTestEvent::TestDone { result, group_results, metadata })) => {
            let rec = record_test_result(references, &resource.resource_type, &resource.name, result, group_results, metadata);
            match rec {
                Ok(out) => Ok((ResourceTestState::Done, ResourceTestAction::Finish(out))),
                Err(e) => Err(e),
            }
        },
        _ => Err(DscError::Operation(String::from_str("The test did not expect this outcome at this step"))),
    }
}

} // verus!
