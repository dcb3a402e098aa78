use dsc_lib::configure::config_doc::ExecutionKind;
use dsc_lib::dscerror::DscError;
use dsc_lib::dscresources::command_resource::{
    check_get_exit, check_validate_result, get_command_input, json_to_hashmap, process_args, process_exit_outcome,
    output_lines, select_set_method, set_after_test, set_result_from_states, should_pretest, split_lines, stderr_line_passes,
    test_result_from_states, trace_message, TraceLevel,
};
use dsc_lib::dscresources::invoke_result::{get_in_desired_state, GetResult, SetResult, TestResult, ValidateResult};
use dsc_lib::dscresources::native_resource::NativeResource;
use dsc_lib::dscresources::powershell_resource::json_to_pshashtable;
use dsc_lib::dscresources::resource_manifest::{ArgKind, InputKind, ResourceManifest, SetMethod};
use dsc_lib::dscresources::schema_calls::{check_schema, schema_result};
use dsc_lib::json::JsonValue;

fn s(x: &str) -> JsonValue {
    JsonValue::String(x.to_string())
}

fn n(x: i128) -> JsonValue {
    JsonValue::Number(x)
}

fn obj(ms: Vec<(&str, JsonValue)>) -> JsonValue {
    JsonValue::Object(ms.into_iter().map(|(k, v)| (k.to_string(), v)).collect())
}

fn set_method(pre_test: Option<bool>) -> SetMethod {
    SetMethod { executable: "set".to_string(), args: None, input: None, pre_test, handles_exist: None, returns: None }
}

fn manifest(set: Option<SetMethod>, what_if: Option<SetMethod>) -> ResourceManifest {
    ResourceManifest {
        schema_version: "1".to_string(),
        resource_type: "Test/Echo".to_string(),
        kind: None,
        version: "1.0.0".to_string(),
        description: None,
        get: None,
        set,
        what_if,
        test: None,
        delete: None,
        validate: None,
        export: None,
        resolve: None,
        adapter: None,
        exit_codes: None,
        schema: None,
    }
}

#[test]
fn args_put_the_input_after_its_argument() {
    let args = Some(vec![
        ArgKind::String("get".to_string()),
        ArgKind::Json { json_input_arg: "--input".to_string(), mandatory: None },
    ]);
    assert_eq!(process_args(&args, "{}").unwrap(), vec!["get", "--input", "{}"]);
    assert_eq!(process_args(&args, "").unwrap(), vec!["get"]);
    let mandatory = Some(vec![ArgKind::Json { json_input_arg: "--input".to_string(), mandatory: Some(true) }]);
    assert_eq!(process_args(&mandatory, "").unwrap(), vec!["--input", ""]);
    assert!(process_args(&None, "{}").is_none());
}

#[test]
fn env_variables_from_an_object() {
    let input = obj(vec![("a", s("x")), ("b", n(2)), ("c", JsonValue::Null), ("d", JsonValue::Array(vec![s("p"), n(1)])), ("e", JsonValue::Bool(true))]);
    let env = json_to_hashmap(&input).unwrap();
    assert_eq!(
        env,
        vec![
            ("a".to_string(), "x".to_string()),
            ("b".to_string(), "2".to_string()),
            ("d".to_string(), "p,1".to_string()),
            ("e".to_string(), "true".to_string())
        ]
    );
    assert!(matches!(json_to_hashmap(&obj(vec![("o", obj(vec![]))])), Err(DscError::Operation(_))));
    assert!(json_to_hashmap(&n(1)).unwrap().is_empty());
}

#[test]
fn command_input_by_kind() {
    let text = "{\"a\":1}".to_string();
    let parsed = obj(vec![("a", n(1))]);
    let ci = get_command_input(&Some(InputKind::Stdin), &text, &parsed).unwrap();
    assert_eq!(ci.stdin.unwrap(), text);
    let ci = get_command_input(&Some(InputKind::Env), &text, &parsed).unwrap();
    assert_eq!(ci.env.unwrap(), vec![("a".to_string(), "1".to_string())]);
    let ci = get_command_input(&None, &text, &parsed).unwrap();
    assert!(ci.env.is_none() && ci.stdin.is_none());
}

#[test]
fn set_method_choice() {
    let m = manifest(Some(set_method(None)), None);
    let (_, synthetic) = select_set_method(&m, ExecutionKind::WhatIf).unwrap();
    assert!(synthetic);
    let (_, synthetic) = select_set_method(&m, ExecutionKind::Actual).unwrap();
    assert!(!synthetic);
    let m = manifest(Some(set_method(None)), Some(set_method(Some(true))));
    let (chosen, synthetic) = select_set_method(&m, ExecutionKind::WhatIf).unwrap();
    assert!(!synthetic);
    assert_eq!(chosen.pre_test, Some(true));
    let m = manifest(None, None);
    assert!(matches!(select_set_method(&m, ExecutionKind::Actual), Err(DscError::NotImplemented(_))));
}

#[test]
fn pretest_unless_skipped_or_done_by_set() {
    assert!(should_pretest(false, &set_method(None)));
    assert!(!should_pretest(true, &set_method(None)));
    assert!(!should_pretest(false, &set_method(Some(true))));
}

#[test]
fn set_after_a_test_in_desired_state_changes_nothing() {
    let test = test_result_from_states(obj(vec![("a", n(1))]), obj(vec![("a", n(1))]));
    match set_after_test(test, false, ExecutionKind::Actual, obj(vec![("a", n(1))]), JsonValue::Null) {
        Some(SetResult::Resource(r)) => assert!(r.changed_properties.is_none()),
        _ => panic!(),
    }
    let test = test_result_from_states(obj(vec![("a", n(1))]), obj(vec![("a", n(2))]));
    assert!(set_after_test(test, false, ExecutionKind::Actual, obj(vec![("a", n(1))]), JsonValue::Null).is_none());
}

#[test]
fn test_results_from_states() {
    let t = test_result_from_states(obj(vec![("a", n(1))]), obj(vec![("a", n(2))]));
    assert!(!get_in_desired_state(&t));
    match &t {
        TestResult::Resource(r) => assert_eq!(r.diff_properties, vec!["a".to_string()]),
        _ => panic!(),
    }
    let set = SetResult::from_test_result(t);
    assert!(matches!(set, SetResult::Resource(_)));
    let t = test_result_from_states(obj(vec![("a", n(1))]), obj(vec![("a", n(1))]));
    assert!(get_in_desired_state(&t));
    assert!(matches!(GetResult::from_test_result(t), GetResult::Resource(_)));
}

#[test]
fn set_results_from_states() {
    match set_result_from_states(obj(vec![("a", n(1))]), obj(vec![("a", n(2))])) {
        SetResult::Resource(r) => assert_eq!(r.changed_properties.unwrap(), vec!["a".to_string()]),
        _ => panic!(),
    }
}

#[test]
fn get_exit_codes() {
    assert!(check_get_exit(&"Test/Echo".to_string(), 0, String::new()).is_ok());
    match check_get_exit(&"Test/Echo".to_string(), 2, "bad".to_string()) {
        Err(DscError::Command(t, c, e)) => {
            assert_eq!(t, "Test/Echo");
            assert_eq!(c, 2);
            assert_eq!(e, "bad");
        },
        _ => panic!(),
    }
}

#[test]
fn validate_results() {
    assert!(check_validate_result(&ValidateResult { valid: true, reason: None }).is_ok());
    assert!(matches!(check_validate_result(&ValidateResult { valid: false, reason: Some("no".to_string()) }), Err(DscError::Validation(_))));
}

#[test]
fn exit_outcomes() {
    let exe = "echo".to_string();
    let codes = Some(vec![(3, "three".to_string())]);
    let (c, out, err) = process_exit_outcome(&exe, Some(0), &codes, "o".to_string(), "e".to_string()).unwrap();
    assert_eq!((c, out.as_str(), err.as_str()), (0, "o", "e"));
    match process_exit_outcome(&exe, Some(3), &codes, "o".to_string(), "e".to_string()) {
        Err(DscError::CommandExitFromManifest(_, c, d)) => {
            assert_eq!(c, 3);
            assert_eq!(d, "three");
        },
        other => panic!("{other:?}"),
    }
    assert!(matches!(process_exit_outcome(&exe, Some(4), &codes, "o".to_string(), "e".to_string()), Err(DscError::Command(_, 4, _))));
    assert!(matches!(process_exit_outcome(&exe, None, &codes, "o".to_string(), "e".to_string()), Err(DscError::CommandOperation(_, _))));
}

#[test]
fn trace_messages() {
    let m = "hello".to_string();
    assert_eq!(trace_message(7, TraceLevel::Info, &Some("t".to_string()), Some(3), &m), "PID 7: hello");
    assert_eq!(trace_message(7, TraceLevel::Debug, &Some("t".to_string()), Some(3), &m), "PID 7: t: 3: hello");
    assert_eq!(trace_message(7, TraceLevel::Trace, &None, Some(3), &m), "PID 7: hello");
}

#[test]
fn stderr_lines() {
    assert!(stderr_line_passes("oops", false, &None));
    assert!(!stderr_line_passes("", false, &None));
    assert!(!stderr_line_passes("x", true, &None));
    assert!(!stderr_line_passes("{}", false, &Some(obj(vec![("Error", s("x"))]))));
    assert!(stderr_line_passes("{}", false, &Some(obj(vec![("Other", s("x"))]))));
}

#[test]
fn lines_of_a_text() {
    assert_eq!(split_lines("a\r\nb\nc\n"), vec!["a", "b", "c"]);
    assert_eq!(split_lines("a\n\nb"), vec!["a", "", "b"]);
    assert!(split_lines("").is_empty());
}

#[test]
fn powershell_hashtable() {
    let props = vec![("Name".to_string(), s("x\"y")), ("Count".to_string(), n(3))];
    assert_eq!(json_to_pshashtable(&props).unwrap(), "@{Name=\"x\\\"y\",Count=3}");
    assert_eq!(json_to_pshashtable(&vec![]).unwrap(), "@}");
    let escapes = vec![("E".to_string(), s("a\\b\n\u{1}\t"))];
    assert_eq!(json_to_pshashtable(&escapes).unwrap(), "@{E=\"a\\\\b\\n\\u0001\\t\"}");
    assert!(matches!(json_to_pshashtable(&vec![("b".to_string(), JsonValue::Bool(true))]), Err(DscError::NotImplemented(_))));
}

#[test]
fn native_resource_is_not_implemented() {
    let r = NativeResource { resource: "x".to_string() };
    assert!(matches!(r.get("{}"), Err(DscError::NotImplemented(_))));
    assert!(matches!(r.set("{}"), Err(DscError::NotImplemented(_))));
    assert!(matches!(r.test("{}"), Err(DscError::NotImplemented(_))));
}

#[test]
fn input_checked_against_the_schema() {
    let schema = r#"{"type":"object","properties":{"a":{"type":"string"}},"required":["a"]}"#;
    assert!(check_schema(schema, r#"{"a":"x"}"#).is_ok());
    match check_schema(schema, r#"{"a":1}"#) {
        Err(DscError::Schema(m)) => assert!(m.ends_with(' ')),
        other => panic!("unexpected {other:?}"),
    }
    assert!(matches!(check_schema(schema, "not json"), Err(DscError::Json(_))));
    assert!(matches!(check_schema("{", r#"{"a":"x"}"#), Err(DscError::Json(_))));
    assert!(matches!(check_schema(r#"{"type":"no such type"}"#, "{}"), Err(DscError::Schema(_))));
    assert!(schema_result(&vec![]).is_ok());
    match schema_result(&vec!["one".to_string(), "two".to_string()]) {
        Err(DscError::Schema(m)) => assert_eq!(m, "one two "),
        other => panic!("unexpected {other:?}"),
    }
}

#[test]
fn command_output_is_handed_back_line_by_line() {
    assert_eq!(output_lines("a\r\nb\nc"), "a\nb\nc\n");
    assert_eq!(output_lines("{\"a\":1}\n"), "{\"a\":1}\n");
    assert_eq!(output_lines(""), "");
    assert_eq!(output_lines("a\n\nb"), "a\n\nb\n");
}
