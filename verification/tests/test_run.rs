use dsc_lib::configure::config_doc::{Metadata, Resource};
use dsc_lib::configure::test_run::{resource_test_step, ResourceTestAction, ResourceTestEvent, ResourceTestState};
use dsc_lib::discovery::Discovery;
use dsc_lib::dscerror::DscError;
use dsc_lib::dscresources::dscresource::DscResource;
use dsc_lib::dscresources::invoke_result::{ResourceTestResponse, TestResult};
use dsc_lib::json::{json_equals, JsonValue};

fn s(x: &str) -> JsonValue {
    JsonValue::String(x.to_string())
}

fn discovery() -> Discovery {
    let mut r = DscResource::new();
    r.resource_type = "Test/Echo".to_string();
    r.version = "1.0.0".to_string();
    let mut d = Discovery::new();
    d.add_found_resources(vec![("test/echo".to_string(), vec![r])]);
    d
}

fn resource() -> Resource {
    let mut r = Resource::new();
    r.resource_type = "Test/Echo".to_string();
    r.name = "r1".to_string();
    r
}

#[test]
fn a_resource_is_tested_and_recorded() {
    let d = discovery();
    let res = resource();
    let mut refs: Vec<(String, JsonValue)> = vec![];
    let (st, _) = resource_test_step(&d, &res, &mut refs, ResourceTestState::Start, None).unwrap();
    let props = Some(vec![("a".to_string(), s("1"))]);
    let (st, act) = resource_test_step(&d, &res, &mut refs, st, Some(ResourceTestEvent::Properties(props))).unwrap();
    assert!(matches!(act, ResourceTestAction::Test { desired: Some(_) }));
    let result = TestResult::Resource(ResourceTestResponse {
        desired_state: JsonValue::Object(vec![("a".to_string(), s("1"))]),
        actual_state: s("2"),
        in_desired_state: false,
        diff_properties: vec!["a".to_string()],
    });
    let metadata = Metadata { microsoft: None, other: vec![] };
    let (st, act) = resource_test_step(&d, &res, &mut refs, st, Some(ResourceTestEvent::TestDone { result, group_results: vec![], metadata })).unwrap();
    assert!(matches!(st, ResourceTestState::Done));
    match act {
        ResourceTestAction::Finish(out) => {
            assert_eq!(out.name, "r1");
            assert!(matches!(out.result, TestResult::Resource(ref t) if !t.in_desired_state && t.diff_properties == vec!["a".to_string()]));
        },
        other => panic!("unexpected {other:?}"),
    }
    assert_eq!(refs[0].0, "Test/Echo:r1");
    assert!(json_equals(&refs[0].1, &s("2")));
}

#[test]
fn a_missing_resource_is_not_found_for_test() {
    let d = Discovery::new();
    let mut refs: Vec<(String, JsonValue)> = vec![];
    let r = resource_test_step(&d, &resource(), &mut refs, ResourceTestState::Start, None);
    assert!(matches!(r, Err(DscError::ResourceNotFound(t)) if t == "Test/Echo"));
}
