use dsc_lib::configure::config_doc::{ExecutionKind, Metadata, Resource};
use dsc_lib::configure::set_run::{resource_set_step, ResourceSetAction, ResourceSetEvent, ResourceSetState};
use dsc_lib::discovery::Discovery;
use dsc_lib::dscerror::DscError;
use dsc_lib::dscresources::dscresource::{Capability, DscResource};
use dsc_lib::dscresources::invoke_result::{GetResult, ResourceGetResponse, ResourceSetResponse, SetResult};
use dsc_lib::json::{json_equals, JsonValue};

fn s(x: &str) -> JsonValue {
    JsonValue::String(x.to_string())
}

fn discovery(caps: Vec<Capability>) -> Discovery {
    let mut r = DscResource::new();
    r.resource_type = "Test/Echo".to_string();
    r.version = "1.0.0".to_string();
    r.capabilities = caps;
    let mut d = Discovery::new();
    d.add_found_resources(vec![("test/echo".to_string(), vec![r])]);
    d
}

fn resource() -> Resource {
    let mut r = Resource::new();
    r.resource_type = "Test/Echo".to_string();
    r.name = "r1".to_string();
    r
}

fn md() -> Metadata {
    Metadata { microsoft: None, other: vec![] }
}

#[test]
fn a_resource_is_set_and_recorded() {
    let d = discovery(vec![Capability::SetState]);
    let res = resource();
    let mut refs: Vec<(String, JsonValue)> = vec![];
    let (st, act) = resource_set_step(&d, &res, ExecutionKind::Actual, &mut refs, ResourceSetState::Start, None).unwrap();
    assert!(matches!(act, ResourceSetAction::Evaluate { expressions: true }));
    let props = Some(vec![("a".to_string(), s("1"))]);
    let (st, act) = resource_set_step(&d, &res, ExecutionKind::Actual, &mut refs, st, Some(ResourceSetEvent::Properties(props))).unwrap();
    match &act {
        ResourceSetAction::ApplySet { desired: Some(v) } => assert!(json_equals(v, &JsonValue::Object(vec![("a".to_string(), s("1"))]))),
        other => panic!("unexpected {other:?}"),
    }
    let result = SetResult::Resource(ResourceSetResponse { before_state: s("0"), after_state: s("1"), changed_properties: None });
    let (_, act) = resource_set_step(&d, &res, ExecutionKind::Actual, &mut refs, st, Some(ResourceSetEvent::SetDone { result, group_results: vec![], metadata: md() })).unwrap();
    assert!(matches!(act, ResourceSetAction::Finish(ref out) if out.name == "r1"));
    assert_eq!(refs[0].0, "Test/Echo:r1");
}

#[test]
fn a_missing_resource_is_not_found() {
    let d = Discovery::new();
    let mut refs: Vec<(String, JsonValue)> = vec![];
    let r = resource_set_step(&d, &resource(), ExecutionKind::Actual, &mut refs, ResourceSetState::Start, None);
    assert!(matches!(r, Err(DscError::ResourceNotFound(t)) if t == "Test/Echo"));
}

#[test]
fn an_instance_that_should_not_exist_is_deleted() {
    let d = discovery(vec![Capability::Delete]);
    let res = resource();
    let mut refs: Vec<(String, JsonValue)> = vec![];
    let (st, _) = resource_set_step(&d, &res, ExecutionKind::Actual, &mut refs, ResourceSetState::Start, None).unwrap();
    let props = Some(vec![("_exist".to_string(), JsonValue::Bool(false))]);
    let (st, act) = resource_set_step(&d, &res, ExecutionKind::Actual, &mut refs, st, Some(ResourceSetEvent::Properties(props))).unwrap();
    assert!(matches!(act, ResourceSetAction::Get { .. }));
    let got = |v: JsonValue| GetResult::Resource(ResourceGetResponse { actual_state: v });
    let before = JsonValue::Object(vec![("_exist".to_string(), JsonValue::Bool(true))]);
    let after = JsonValue::Object(vec![("_exist".to_string(), JsonValue::Bool(false))]);
    let (st, act) = resource_set_step(&d, &res, ExecutionKind::Actual, &mut refs, st, Some(ResourceSetEvent::Got(got(before)))).unwrap();
    assert!(matches!(act, ResourceSetAction::Delete));
    let (st, act) = resource_set_step(&d, &res, ExecutionKind::Actual, &mut refs, st, Some(ResourceSetEvent::Deleted)).unwrap();
    assert!(matches!(act, ResourceSetAction::GetAgain));
    let (_, act) = resource_set_step(&d, &res, ExecutionKind::Actual, &mut refs, st, Some(ResourceSetEvent::GotAfter { after: got(after), metadata: md() })).unwrap();
    assert!(matches!(act, ResourceSetAction::Finish(_)));
    let what_if = resource_set_step(&d, &res, ExecutionKind::WhatIf, &mut refs, ResourceSetState::Evaluating { kind: dsc_lib::dscresources::resource_manifest::Kind::Resource, capabilities: vec![Capability::Delete] }, Some(ResourceSetEvent::Properties(Some(vec![("_exist".to_string(), JsonValue::Bool(false))]))));
    assert!(matches!(what_if, Err(DscError::NotSupported(_))));
}
