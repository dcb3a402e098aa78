use dsc_lib::configure::config_doc::{ExecutionKind, Metadata, MicrosoftDscMetadata, Operation, SecurityContextKind};
use dsc_lib::configure::configurator::get_result_metadata;
use dsc_lib::configure::context::Context;
use dsc_lib::configure::outcomes::{
    export_metadata, record_export_result, record_get_result, record_set_result, record_test_result,
};
use dsc_lib::dscerror::DscError;
use dsc_lib::dscresources::invoke_result::{
    ExportResult, GetResult, ResourceGetResponse, ResourceSetResponse, ResourceTestResponse, SetResult, TestResult,
};
use dsc_lib::json::{json_equals, JsonValue};

fn s(x: &str) -> JsonValue {
    JsonValue::String(x.to_string())
}

fn obj(ms: Vec<(&str, JsonValue)>) -> JsonValue {
    JsonValue::Object(ms.into_iter().map(|(k, v)| (k.to_string(), v)).collect())
}

fn empty_metadata() -> Metadata {
    Metadata { microsoft: None, other: vec![] }
}

#[test]
fn a_get_result_is_kept_for_references() {
    let mut refs: Vec<(String, JsonValue)> = vec![("Other:x".to_string(), s("kept"))];
    let state = obj(vec![("a", s("1")), ("_metadata", obj(vec![("note", s("n"))]))]);
    let out = record_get_result(
        &mut refs,
        &"Test/Echo".to_string(),
        &"echo".to_string(),
        GetResult::Resource(ResourceGetResponse { actual_state: state }),
        vec![],
        empty_metadata(),
    )
    .unwrap();
    assert_eq!(out.name, "echo");
    assert_eq!(out.resource_type, "Test/Echo");
    assert_eq!(refs.len(), 2);
    assert_eq!(refs[1].0, "Test/Echo:echo");
    assert!(json_equals(&refs[1].1, &obj(vec![("a", s("1")), ("_metadata", obj(vec![("note", s("n"))]))])));
    match out.result {
        GetResult::Resource(g) => assert!(json_equals(&g.actual_state, &obj(vec![("a", s("1"))]))),
        other => panic!("unexpected {other:?}"),
    }
    let md = out.metadata.unwrap();
    assert_eq!(md.other.len(), 1);
    assert_eq!(md.other[0].0, "note");
}

#[test]
fn metadata_that_is_no_object_is_refused_after_the_reference_is_kept() {
    let mut refs: Vec<(String, JsonValue)> = vec![];
    let state = obj(vec![("_metadata", s("bad"))]);
    let r = record_test_result(
        &mut refs,
        &"Test/Echo".to_string(),
        &"echo".to_string(),
        TestResult::Resource(ResourceTestResponse {
            desired_state: obj(vec![]),
            actual_state: state,
            in_desired_state: true,
            diff_properties: vec![],
        }),
        vec![],
        empty_metadata(),
    );
    assert!(matches!(r, Err(DscError::Parser(_))));
    assert_eq!(refs.len(), 1);
}

#[test]
fn a_set_result_keeps_the_state_after() {
    let mut refs: Vec<(String, JsonValue)> = vec![("Test/Echo:echo".to_string(), s("old"))];
    let out = record_set_result(
        &mut refs,
        &"Test/Echo".to_string(),
        &"echo".to_string(),
        SetResult::Resource(ResourceSetResponse { before_state: s("before"), after_state: s("after"), changed_properties: None }),
        vec![],
        empty_metadata(),
    )
    .unwrap();
    assert_eq!(refs.len(), 1);
    assert!(json_equals(&refs[0].1, &s("after")));
    assert!(matches!(out.result, SetResult::Resource(_)));
}

#[test]
fn an_export_result_is_kept_as_an_array() {
    let mut refs: Vec<(String, JsonValue)> = vec![];
    let out = record_export_result(&mut refs, &"Test/Echo".to_string(), &"echo".to_string(), ExportResult { actual_state: vec![s("a"), s("b")] });
    assert_eq!(out.actual_state.len(), 2);
    assert!(json_equals(&refs[0].1, &JsonValue::Array(vec![s("a"), s("b")])));
}

#[test]
fn exported_configuration_metadata() {
    let mut ms = MicrosoftDscMetadata::new();
    ms.operation = Some(Operation::Export);
    let merged = export_metadata(
        Some(Metadata { microsoft: None, other: vec![("keep".to_string(), s("me"))] }),
        Metadata { microsoft: Some(ms), other: vec![] },
    );
    assert_eq!(merged.other.len(), 1);
    assert_eq!(merged.microsoft.unwrap().operation, Some(Operation::Export));
    let fresh = export_metadata(None, Metadata { microsoft: None, other: vec![("x".to_string(), s("y"))] });
    assert_eq!(fresh.other[0].0, "x");
}

#[test]
fn result_metadata_describes_the_operation() {
    let mut context = Context::new();
    context.execution_type = ExecutionKind::WhatIf;
    context.security_context = SecurityContextKind::Elevated;
    let md = get_result_metadata(
        &context,
        Operation::Test,
        &"3.1.0".to_string(),
        &"2024-01-01T00:00:00+00:00".to_string(),
        &"2024-01-01T00:00:01+00:00".to_string(),
        &"PT1S".to_string(),
    );
    let m = md.microsoft.unwrap();
    assert_eq!(m.version.as_deref(), Some("3.1.0"));
    assert_eq!(m.operation, Some(Operation::Test));
    assert_eq!(m.execution_type, Some(ExecutionKind::WhatIf));
    assert_eq!(m.security_context, Some(SecurityContextKind::Elevated));
    assert_eq!(m.duration.as_deref(), Some("PT1S"));
    assert!(md.other.is_empty());
}
