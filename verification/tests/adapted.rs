use dsc_lib::configure::config_doc::{Configuration, Resource};
use dsc_lib::dscerror::DscError;
use dsc_lib::dscresources::adapted::{
    adapted_export_result, adapted_get_result, adapted_set_result, adapted_state_properties, adapted_test_result,
    OperationRoute, ResourceOperation,
};
use dsc_lib::dscresources::dscresource::{DscResource, ImplementedAs};
use dsc_lib::dscresources::invoke_result::{
    ConfigurationGetResult, ConfigurationSetResult, ConfigurationTestResult, GetResult, ResourceGetResponse,
    ResourceGetResult, ResourceSetResponse, ResourceSetResult, ResourceTestResponse, ResourceTestResult, SetResult,
    TestResult,
};
use dsc_lib::json::{json_equals, JsonValue};

fn s(x: &str) -> JsonValue {
    JsonValue::String(x.to_string())
}

fn obj(ms: Vec<(&str, JsonValue)>) -> JsonValue {
    JsonValue::Object(ms.into_iter().map(|(k, v)| (k.to_string(), v)).collect())
}

fn listed(key: &str, properties: JsonValue) -> JsonValue {
    obj(vec![(key, JsonValue::Array(vec![obj(vec![("name", s("n")), ("properties", properties)])]))])
}

fn adapted_resource() -> DscResource {
    let mut r = DscResource::new();
    r.resource_type = "Test/Adapted".to_string();
    r.require_adapter = Some("Test/Adapter".to_string());
    r
}

#[test]
fn operations_on_an_adapted_resource_go_through_the_adapter() {
    let r = adapted_resource();
    for op in [ResourceOperation::Get, ResourceOperation::SetState, ResourceOperation::Test, ResourceOperation::Delete, ResourceOperation::Export] {
        match r.operation_route(op) {
            Ok(OperationRoute::Adapter(a)) => assert_eq!(a, "Test/Adapter"),
            other => panic!("unexpected route {other:?}"),
        }
    }
    assert!(matches!(r.operation_route(ResourceOperation::Validate), Err(DscError::NotSupported(_))));
    assert!(matches!(r.operation_route(ResourceOperation::Schema), Err(DscError::NotSupported(_))));
}

#[test]
fn operations_on_a_command_resource_go_to_its_manifest() {
    let mut r = DscResource::new();
    r.resource_type = "Test/Echo".to_string();
    assert!(matches!(r.operation_route(ResourceOperation::Get), Err(DscError::MissingManifest(t)) if t == "Test/Echo"));
    r.manifest = Some(obj(vec![("type", s("Test/Echo"))]));
    match r.operation_route(ResourceOperation::Get) {
        Ok(OperationRoute::Manifest(m)) => assert!(json_equals(&m, &obj(vec![("type", s("Test/Echo"))]))),
        other => panic!("unexpected route {other:?}"),
    }
    r.implemented_as = ImplementedAs::Custom("x".to_string());
    assert!(matches!(r.operation_route(ResourceOperation::Test), Err(DscError::NotImplemented(_))));
    assert!(matches!(r.operation_route(ResourceOperation::Export), Ok(OperationRoute::Manifest(_))));
}

#[test]
fn the_adapter_is_handed_one_instance() {
    let r = adapted_resource();
    let res: Resource = r.adapter_resource(&"Test/Adapter".to_string(), Some(obj(vec![("a", s("1"))])));
    assert_eq!(res.name, "Test/Adapted");
    assert_eq!(res.resource_type, "Test/Adapter");
    let expected = vec![(
        "resources".to_string(),
        JsonValue::Array(vec![obj(vec![("name", s("Test/Adapted")), ("type", s("Test/Adapted")), ("properties", obj(vec![("a", s("1"))]))])]),
    )];
    assert!(json_equals(&JsonValue::Object(res.properties.unwrap()), &JsonValue::Object(expected)));
    let bare = r.adapter_resource(&"Test/Adapter".to_string(), None);
    let expected = vec![("resources".to_string(), JsonValue::Array(vec![obj(vec![("name", s("Test/Adapted")), ("type", s("Test/Adapted"))])]))];
    assert!(json_equals(&JsonValue::Object(bare.properties.unwrap()), &JsonValue::Object(expected)));
}

#[test]
fn properties_of_the_first_listed_instance() {
    let p = adapted_state_properties(listed("result", obj(vec![("a", s("1"))])), "result").unwrap();
    assert!(json_equals(&p, &obj(vec![("a", s("1"))])));
    assert!(matches!(adapted_state_properties(s("x"), "result"), Err(DscError::Operation(_))));
    assert!(matches!(adapted_state_properties(obj(vec![]), "result"), Err(DscError::Operation(_))));
    assert!(matches!(adapted_state_properties(obj(vec![("result", s("x"))]), "result"), Err(DscError::Operation(_))));
    assert!(matches!(adapted_state_properties(listed("resources", s("x")), "result"), Err(DscError::Operation(_))));
    let no_properties = obj(vec![("result", JsonValue::Array(vec![obj(vec![("name", s("n"))])]))]);
    assert!(matches!(adapted_state_properties(no_properties, "result"), Err(DscError::Operation(_))));
}

#[test]
fn adapted_get_reads_the_result() {
    let result = ConfigurationGetResult {
        metadata: None,
        results: vec![ResourceGetResult {
            metadata: None,
            name: "n".to_string(),
            resource_type: "Test/Adapter".to_string(),
            result: GetResult::Resource(ResourceGetResponse { actual_state: listed("result", obj(vec![("a", s("1"))])) }),
        }],
        messages: vec![],
        had_errors: false,
    };
    match adapted_get_result(result) {
        Ok(GetResult::Resource(g)) => assert!(json_equals(&g.actual_state, &obj(vec![("a", s("1"))]))),
        other => panic!("unexpected result {other:?}"),
    }
}

#[test]
fn adapted_set_reports_the_changed_properties() {
    let set = |before: JsonValue, after: JsonValue| ConfigurationSetResult {
        metadata: None,
        results: vec![ResourceSetResult {
            metadata: None,
            name: "n".to_string(),
            resource_type: "Test/Adapter".to_string(),
            result: SetResult::Resource(ResourceSetResponse {
                before_state: listed("resources", before),
                after_state: listed("result", after),
                changed_properties: None,
            }),
        }],
        messages: vec![],
        had_errors: false,
    };
    match adapted_set_result(set(obj(vec![("a", s("1"))]), obj(vec![("a", s("2"))]))) {
        Ok(SetResult::Resource(r)) => {
            assert!(json_equals(&r.before_state, &obj(vec![("a", s("1"))])));
            assert!(json_equals(&r.after_state, &obj(vec![("a", s("2"))])));
            assert_eq!(r.changed_properties, Some(vec!["a".to_string()]));
        },
        other => panic!("unexpected result {other:?}"),
    }
    match adapted_set_result(set(obj(vec![("a", s("1"))]), obj(vec![("a", s("1"))]))) {
        Ok(SetResult::Resource(r)) => assert_eq!(r.changed_properties, None),
        other => panic!("unexpected result {other:?}"),
    }
}

#[test]
fn adapted_test_keeps_the_adapters_verdict() {
    let result = ConfigurationTestResult {
        metadata: None,
        results: vec![ResourceTestResult {
            metadata: None,
            name: "n".to_string(),
            resource_type: "Test/Adapter".to_string(),
            result: TestResult::Resource(ResourceTestResponse {
                desired_state: listed("resources", obj(vec![("a", s("1"))])),
                actual_state: listed("result", obj(vec![("a", s("2"))])),
                in_desired_state: true,
                diff_properties: vec![],
            }),
        }],
        messages: vec![],
        had_errors: false,
    };
    match adapted_test_result(result) {
        Ok(TestResult::Resource(t)) => {
            assert!(t.in_desired_state);
            assert_eq!(t.diff_properties, vec!["a".to_string()]);
            assert!(json_equals(&t.desired_state, &obj(vec![("a", s("1"))])));
            assert!(json_equals(&t.actual_state, &obj(vec![("a", s("2"))])));
        },
        other => panic!("unexpected result {other:?}"),
    }
}

#[test]
fn adapted_export_gathers_every_result() {
    let exported = |items: Vec<JsonValue>| {
        let mut r = Resource::new();
        r.properties = Some(vec![("result".to_string(), JsonValue::Array(items))]);
        r
    };
    let configuration = Configuration {
        schema: String::new(),
        content_version: None,
        parameters: None,
        variables: None,
        resources: vec![exported(vec![s("a"), s("b")]), exported(vec![s("c")])],
        metadata: None,
    };
    let result = adapted_export_result(Some(configuration)).unwrap();
    assert!(json_equals(&JsonValue::Array(result.actual_state), &JsonValue::Array(vec![s("a"), s("b"), s("c")])));
    assert!(matches!(adapted_export_result(None), Err(DscError::Operation(_))));
    let bad = Configuration {
        schema: String::new(),
        content_version: None,
        parameters: None,
        variables: None,
        resources: vec![exported(vec![s("a")]), Resource::new()],
        metadata: None,
    };
    assert!(matches!(adapted_export_result(Some(bad)), Err(DscError::Operation(_))));
}
