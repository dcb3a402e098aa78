use dsc_lib::configure::config_doc::{Metadata, Resource};
use dsc_lib::configure::get_run::{resource_get_step, ResourceGetAction, ResourceGetEvent, ResourceGetState};
use dsc_lib::discovery::Discovery;
use dsc_lib::dscerror::DscError;
use dsc_lib::dscresources::dscresource::DscResource;
use dsc_lib::dscresources::invoke_result::{GetResult, ResourceGetResponse};
use dsc_lib::json::{json_equals, JsonValue};

fn s(x: &str) -> JsonValue {
    JsonValue::String(x.to_string())
}

fn discovery() -> Discovery {
    let mut r = DscResource::new();
    r.resource_type = "Test/Echo".to_string();
    r.version = "1.0.0".to_string();
    let mut d = Discovery::new();
    d.add_found_resources(vec![("test/echo".to_string(), vec![r])]);
    d
}

fn resource() -> Resource {
    let mut r = Resource::new();
    r.resource_type = "Test/Echo".to_string();
    r.name = "r1".to_string();
    r
}

#[test]
fn a_resource_is_got_and_recorded() {
    let d = discovery();
    let res = resource();
    let mut refs: Vec<(String, JsonValue)> = vec![];
    let (st, act) = resource_get_step(&d, &res, &mut refs, ResourceGetState::Start, None).unwrap();
    assert!(matches!(act, ResourceGetAction::Evaluate { expressions: true }));
    let props = Some(vec![("a".to_string(), s("1"))]);
    let (st, act) = resource_get_step(&d, &res, &mut refs, st, Some(ResourceGetEvent::Properties(props))).unwrap();
    match &act {
        ResourceGetAction::Get { desired: Some(v) } => assert!(json_equals(v, &JsonValue::Object(vec![("a".to_string(), s("1"))]))),
        other => panic!("unexpected {other:?}"),
    }
    let result = GetResult::Resource(ResourceGetResponse { actual_state: s("2") });
    let metadata = Metadata { microsoft: None, other: vec![] };
    let (st, act) = resource_get_step(&d, &res, &mut refs, st, Some(ResourceGetEvent::GetDone { result, group_results: vec![], metadata })).unwrap();
    assert!(matches!(st, ResourceGetState::Done));
    assert!(matches!(act, ResourceGetAction::Finish(ref out) if out.name == "r1" && out.resource_type == "Test/Echo"));
    assert_eq!(refs.len(), 1);
    assert_eq!(refs[0].0, "Test/Echo:r1");
    assert!(json_equals(&refs[0].1, &s("2")));
}

#[test]
fn a_missing_resource_is_not_found_for_get() {
    let d = Discovery::new();
    let mut refs: Vec<(String, JsonValue)> = vec![];
    let r = resource_get_step(&d, &resource(), &mut refs, ResourceGetState::Start, None);
    assert!(matches!(r, Err(DscError::ResourceNotFound(t)) if t == "Test/Echo"));
}

#[test]
fn a_get_step_out_of_order_is_an_operation_error() {
    let d = discovery();
    let mut refs: Vec<(String, JsonValue)> = vec![];
    let r = resource_get_step(&d, &resource(), &mut refs, ResourceGetState::Getting, None);
    assert!(matches!(r, Err(DscError::Operation(_))));
    assert!(refs.is_empty());
}
