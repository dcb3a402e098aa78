use dsc_lib::configure::config_doc::{DataType, ExecutionKind, Metadata, MicrosoftDscMetadata, Parameter, SecurityContextKind};
use dsc_lib::configure::configurator::{
    add_metadata, check_security_context, choose_set_action, delete_set_result, desired_exists, escape_property_values,
    get_failure_from_error, get_metadata_from_result, reference_key, set_parameter_inputs, validate_parameter_input,
    validate_parameter_type, SetAction,
};
use dsc_lib::configure::constraints::{check_allowed_values, check_length, check_number_limits};
use dsc_lib::configure::context::Context;
use dsc_lib::configure::parameters::{is_secure_value, SecureObject, SecureString};
use dsc_lib::dscerror::DscError;
use dsc_lib::dscresources::dscresource::Capability;
use dsc_lib::dscresources::invoke_result::{GetResult, ResourceGetResponse, SetResult};
use dsc_lib::dscresources::resource_manifest::Kind;
use dsc_lib::json::JsonValue;

fn s(x: &str) -> JsonValue {
    JsonValue::String(x.to_string())
}

fn n(x: i128) -> JsonValue {
    JsonValue::Number(x)
}

fn members(ms: Vec<(&str, JsonValue)>) -> Vec<(String, JsonValue)> {
    ms.into_iter().map(|(k, v)| (k.to_string(), v)).collect()
}

fn obj(ms: Vec<(&str, JsonValue)>) -> JsonValue {
    JsonValue::Object(members(ms))
}

fn text_of(v: &JsonValue) -> String {
    match v {
        JsonValue::String(s) => s.clone(),
        other => panic!("not a string: {other:?}"),
    }
}

fn parameter(t: DataType) -> Parameter {
    Parameter {
        parameter_type: t,
        default_value: None,
        allowed_values: None,
        min_value: None,
        max_value: None,
        min_length: None,
        max_length: None,
        description: None,
        metadata: None,
    }
}

#[test]
fn escapes_expression_like_strings_at_any_depth() {
    let props = members(vec![
        ("a", s("[concat('a')]")),
        ("b", s("plain")),
        ("c", obj(vec![("d", s("[x]"))])),
        ("e", JsonValue::Array(vec![s("[y]"), n(1), obj(vec![("f", s("[z]"))])])),
    ]);
    let out = escape_property_values(&props).unwrap().unwrap();
    assert_eq!(out[0].0, "a");
    assert_eq!(text_of(&out[0].1), "[[concat('a')]");
    assert_eq!(text_of(&out[1].1), "plain");
    match &out[2].1 {
        JsonValue::Object(ms) => assert_eq!(text_of(&ms[0].1), "[[x]"),
        _ => panic!(),
    }
    match &out[3].1 {
        JsonValue::Array(xs) => {
            assert_eq!(text_of(&xs[0]), "[[y]");
            match &xs[2] {
                JsonValue::Object(ms) => assert_eq!(text_of(&ms[0].1), "[[z]"),
                _ => panic!(),
            }
        },
        _ => panic!(),
    }
}

#[test]
fn escaping_refuses_nested_arrays() {
    let props = members(vec![("a", JsonValue::Array(vec![JsonValue::Array(vec![])]))]);
    assert!(matches!(escape_property_values(&props), Err(DscError::Parser(_))));
}

#[test]
fn adapter_input_gets_configuration_metadata() {
    let r = add_metadata(Kind::Adapter, Some(members(vec![("x", n(1))]))).unwrap();
    match r {
        JsonValue::Object(ms) => {
            assert_eq!(ms.len(), 2);
            assert_eq!(ms[1].0, "metadata");
            match &ms[1].1 {
                JsonValue::Object(outer) => {
                    assert_eq!(outer[0].0, "Microsoft.DSC");
                    match &outer[0].1 {
                        JsonValue::Object(inner) => {
                            assert_eq!(inner[0].0, "context");
                            assert_eq!(text_of(&inner[0].1), "configuration");
                        },
                        _ => panic!(),
                    }
                },
                _ => panic!(),
            }
        },
        _ => panic!(),
    }
    assert!(matches!(add_metadata(Kind::Adapter, None), Some(JsonValue::Object(_))));
}

#[test]
fn plain_resource_input_is_its_properties() {
    assert!(add_metadata(Kind::Resource, None).is_none());
    match add_metadata(Kind::Resource, Some(members(vec![("x", n(1))]))).unwrap() {
        JsonValue::Object(ms) => assert_eq!(ms.len(), 1),
        _ => panic!(),
    }
}

#[test]
fn exist_false_asks_for_absence() {
    assert!(!desired_exists(&Some(members(vec![("_exist", JsonValue::Bool(false))]))));
    assert!(desired_exists(&Some(members(vec![("_exist", JsonValue::Bool(true))]))));
    assert!(desired_exists(&Some(members(vec![("_exist", s("false"))]))));
    assert!(desired_exists(&None));
}

#[test]
fn set_action_choice() {
    let t = "Test/Resource".to_string();
    assert_eq!(choose_set_action(true, &vec![], ExecutionKind::Actual, &t).unwrap(), SetAction::Apply);
    assert_eq!(choose_set_action(false, &vec![Capability::SetHandlesExist], ExecutionKind::Actual, &t).unwrap(), SetAction::Apply);
    assert_eq!(choose_set_action(false, &vec![Capability::Delete], ExecutionKind::Actual, &t).unwrap(), SetAction::Delete);
    assert!(matches!(choose_set_action(false, &vec![Capability::Delete], ExecutionKind::WhatIf, &t), Err(DscError::NotSupported(_))));
    assert!(matches!(choose_set_action(false, &vec![Capability::Get], ExecutionKind::Actual, &t), Err(DscError::NotImplemented(_))));
}

#[test]
fn delete_is_reported_as_a_set() {
    let before = GetResult::Resource(ResourceGetResponse { actual_state: obj(vec![("result", n(1)), ("_exist", JsonValue::Bool(true))]) });
    let after = GetResult::Resource(ResourceGetResponse { actual_state: obj(vec![("_exist", JsonValue::Bool(false))]) });
    match delete_set_result(before, after).unwrap() {
        SetResult::Resource(r) => {
            match &r.before_state {
                JsonValue::Object(ms) => assert_eq!(ms[0].0, "resources"),
                _ => panic!(),
            }
            assert_eq!(r.changed_properties.unwrap(), vec!["result".to_string(), "_exist".to_string()]);
        },
        _ => panic!(),
    }
}

#[test]
fn delete_of_a_non_object_state_is_refused() {
    let before = GetResult::Resource(ResourceGetResponse { actual_state: n(1) });
    let after = GetResult::Resource(ResourceGetResponse { actual_state: n(2) });
    assert!(matches!(delete_set_result(before, after), Err(DscError::Json(_))));
    let before = GetResult::Group(vec![]);
    let after = GetResult::Resource(ResourceGetResponse { actual_state: n(2) });
    assert!(matches!(delete_set_result(before, after), Err(DscError::NotSupported(_))));
}

#[test]
fn reference_key_joins_type_and_name() {
    assert_eq!(reference_key(&"Test/Echo".to_string(), &"one".to_string()), "Test/Echo:one");
}

#[test]
fn security_context_checks() {
    let mut md = MicrosoftDscMetadata::new();
    md.security_context = Some(SecurityContextKind::Elevated);
    let metadata = Metadata { microsoft: Some(md), other: vec![] };
    assert!(matches!(check_security_context(Some(&metadata), false), Err(DscError::SecurityContext(_))));
    assert!(check_security_context(Some(&metadata), true).is_ok());
    let mut md = MicrosoftDscMetadata::new();
    md.security_context = Some(SecurityContextKind::Restricted);
    let metadata = Metadata { microsoft: Some(md), other: vec![] };
    assert!(check_security_context(Some(&metadata), true).is_err());
    assert!(check_security_context(Some(&metadata), false).is_ok());
    assert!(check_security_context(None, false).is_ok());
}

#[test]
fn parameter_types() {
    assert!(validate_parameter_type("p", &s("x"), DataType::SecureString).is_ok());
    assert!(validate_parameter_type("p", &n(1), DataType::Int).is_ok());
    assert!(matches!(validate_parameter_type("p", &n(i128::from(u64::MAX)), DataType::Int), Err(DscError::Validation(_))));
    assert!(validate_parameter_type("p", &JsonValue::Bool(true), DataType::Bool).is_ok());
    assert!(validate_parameter_type("p", &JsonValue::Array(vec![]), DataType::Array).is_ok());
    assert!(validate_parameter_type("p", &obj(vec![]), DataType::SecureObject).is_ok());
    assert!(validate_parameter_type("p", &s("x"), DataType::Object).is_err());
}

#[test]
fn metadata_is_moved_out_of_a_result() {
    let mut result = obj(vec![
        ("a", n(1)),
        ("_metadata", obj(vec![("Microsoft.DSC.x", n(1)), ("mine", n(2))])),
        ("b", n(3)),
    ]);
    let mut metadata = Metadata { microsoft: None, other: vec![] };
    get_metadata_from_result(&mut result, &mut metadata).unwrap();
    assert_eq!(metadata.other.len(), 1);
    assert_eq!(metadata.other[0].0, "mine");
    match &result {
        JsonValue::Object(ms) => {
            assert_eq!(ms.len(), 2);
            assert!(ms.iter().all(|(k, _)| k != "_metadata"));
        },
        _ => panic!(),
    }
}

#[test]
fn metadata_that_is_not_an_object_is_refused() {
    let mut result = obj(vec![("_metadata", n(1))]);
    let mut metadata = Metadata { microsoft: None, other: vec![] };
    assert!(matches!(get_metadata_from_result(&mut result, &mut metadata), Err(DscError::Parser(_))));
}

#[test]
fn failure_of_a_command_exit() {
    let f = get_failure_from_error(&DscError::CommandExit("e".to_string(), 3, "boom".to_string())).unwrap();
    assert_eq!(f.exit_code, 3);
    assert_eq!(f.message, "boom");
    assert!(get_failure_from_error(&DscError::Operation("x".to_string())).is_none());
}

#[test]
fn parameter_input_checks() {
    let mut p = parameter(DataType::String);
    p.min_length = Some(2);
    p.max_length = Some(4);
    assert!(validate_parameter_input("p", &s("abc"), &p).is_ok());
    assert!(validate_parameter_input("p", &s("a"), &p).is_err());
    assert!(validate_parameter_input("p", &s("abcde"), &p).is_err());
    assert!(check_length("p", &s("abc"), &p).is_ok());
    let mut q = parameter(DataType::Int);
    q.min_value = Some(1);
    q.max_value = Some(5);
    assert!(check_number_limits("p", &n(3), &q).is_ok());
    assert!(check_number_limits("p", &n(6), &q).is_err());
    let mut r = parameter(DataType::String);
    r.allowed_values = Some(vec![s("a"), s("b")]);
    assert!(check_allowed_values("p", &s("a"), &r).is_ok());
    assert!(check_allowed_values("p", &s("c"), &r).is_err());
}

#[test]
fn parameter_inputs_are_taken() {
    let mut context = Context::new();
    let constraints = Some(vec![("name".to_string(), parameter(DataType::String)), ("count".to_string(), parameter(DataType::Int))]);
    let mut config = Some(vec![("name".to_string(), parameter(DataType::String)), ("count".to_string(), parameter(DataType::Int))]);
    let inputs = members(vec![("count", n(3))]);
    set_parameter_inputs(&mut context.parameters, &constraints, &mut config, inputs).unwrap();
    assert_eq!(context.parameters.len(), 1);
    assert_eq!(context.parameters[0].0, "count");
    assert!(matches!(context.parameters[0].1, (JsonValue::Number(3), DataType::Int)));
    let config = config.unwrap();
    assert!(matches!(config[1].1.default_value, Some(JsonValue::Number(3))));
    assert!(config[0].1.default_value.is_none());
}

#[test]
fn undeclared_parameter_input_is_refused() {
    let mut context = Context::new();
    let constraints = Some(vec![("name".to_string(), parameter(DataType::String))]);
    let mut config = None;
    let inputs = members(vec![("other", n(3))]);
    assert!(matches!(set_parameter_inputs(&mut context.parameters, &constraints, &mut config, inputs), Err(DscError::Validation(_))));
    let inputs = members(vec![("name", n(3))]);
    assert!(matches!(set_parameter_inputs(&mut context.parameters, &constraints, &mut config, inputs), Err(DscError::Validation(_))));
    let inputs = members(vec![("name", s("x"))]);
    assert!(matches!(set_parameter_inputs(&mut context.parameters, &None, &mut config, inputs), Err(DscError::Validation(_))));
}

#[test]
fn secure_values() {
    assert!(is_secure_value(&obj(vec![("secureString", s("x"))])));
    assert!(is_secure_value(&obj(vec![("secureObject", obj(vec![]))])));
    assert!(!is_secure_value(&obj(vec![("secureString", s("x")), ("other", n(1))])));
    assert!(!is_secure_value(&s("secureString")));
    assert_eq!(SecureString { secure_string: "hidden".to_string() }.display(), "<secureString>");
    assert_eq!(SecureObject { secure_object: obj(vec![]) }.display(), "<secureObject>");
}

#[test]
fn negative_length_bounds() {
    let mut p = parameter(DataType::String);
    p.min_length = Some(-1);
    assert!(check_length("p", &s("abc"), &p).is_ok());
    let mut q = parameter(DataType::String);
    q.max_length = Some(-1);
    assert!(matches!(check_length("p", &s(""), &q), Err(DscError::Validation(_))));
}
