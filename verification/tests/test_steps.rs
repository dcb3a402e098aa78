use dsc_lib::dscerror::DscError;
use dsc_lib::dscresources::invoke_result::TestResult;
use dsc_lib::dscresources::resource_manifest::{GetMethod, InputKind, Kind, ResourceManifest, ReturnKind, TestMethod};
use dsc_lib::dscresources::set_steps::CommandOutcome;
use dsc_lib::dscresources::test_steps::{test_step, TestAction, TestState};
use dsc_lib::json::JsonValue;

fn s(x: &str) -> JsonValue {
    JsonValue::String(x.to_string())
}

fn obj(ms: Vec<(&str, JsonValue)>) -> JsonValue {
    JsonValue::Object(ms.into_iter().map(|(k, v)| (k.to_string(), v)).collect())
}

fn manifest(test: Option<ReturnKind>, has_test: bool, kind: Option<Kind>) -> ResourceManifest {
    ResourceManifest {
        schema_version: "1".to_string(),
        resource_type: "Test/Echo".to_string(),
        kind,
        version: "1.0.0".to_string(),
        description: None,
        get: Some(GetMethod { executable: "get".to_string(), args: None, input: Some(InputKind::Stdin) }),
        set: None,
        what_if: None,
        test: if has_test { Some(TestMethod { executable: "test".to_string(), args: None, input: Some(InputKind::Stdin), returns: test }) } else { None },
        delete: None,
        validate: None,
        export: None,
        resolve: None,
        adapter: None,
        exit_codes: None,
        schema: None,
    }
}

fn ran(stdout: &str, json: Option<JsonValue>, lines: Vec<Option<JsonValue>>) -> CommandOutcome {
    CommandOutcome::Ran { exit_code: 0, stdout: stdout.to_string(), stderr: String::new(), json, lines }
}

fn desired() -> (String, Option<JsonValue>) {
    (r#"{"a":"1"}"#.to_string(), Some(obj(vec![("a", s("1"))])))
}

#[test]
fn a_test_that_returns_its_state() {
    let m = manifest(Some(ReturnKind::State), true, Some(Kind::Resource));
    let (d, dj) = desired();
    let (st, act) = test_step(&m, &d, desired().1, TestState::Start, None).unwrap();
    assert!(matches!(act, TestAction::Verify(ref t) if *t == d));
    let (st, act) = test_step(&m, &d, desired().1, st, Some(CommandOutcome::Verified)).unwrap();
    match act {
        TestAction::Run { executable, input, .. } => {
            assert_eq!(executable, "test");
            assert_eq!(input.stdin.as_deref(), Some(d.as_str()));
        },
        other => panic!("unexpected {other:?}"),
    }
    let (st, act) = test_step(&m, &d, desired().1, st, Some(ran(r#"{"a":"2"}"#, Some(obj(vec![("a", s("2"))])), vec![]))).unwrap();
    assert!(matches!(act, TestAction::Verify(ref t) if t == r#"{"a":"2"}"#));
    let (st, act) = test_step(&m, &d, desired().1, st, Some(CommandOutcome::Verified)).unwrap();
    assert!(matches!(st, TestState::Done));
    match act {
        TestAction::Finish(TestResult::Resource(t)) => {
            assert!(!t.in_desired_state);
            assert_eq!(t.diff_properties, vec!["a".to_string()]);
        },
        other => panic!("unexpected {other:?}"),
    }
}

#[test]
fn a_test_that_returns_state_and_diff() {
    let m = manifest(Some(ReturnKind::StateAndDiff), true, None);
    let (d, dj) = desired();
    let lines = vec![Some(obj(vec![("a", s("1"))])), Some(JsonValue::Array(vec![]))];
    let (st, act) = test_step(&m, &d, desired().1, TestState::Testing, Some(ran("x", None, lines))).unwrap();
    assert!(matches!(st, TestState::Done));
    assert!(matches!(act, TestAction::Finish(TestResult::Resource(ref t)) if t.in_desired_state && t.diff_properties.is_empty()));
    let missing = test_step(&m, &d, desired().1, TestState::Testing, Some(ran("x", None, vec![Some(obj(vec![]))])));
    assert!(matches!(missing, Err(DscError::Command(ref n, 0, _)) if n == "Test/Echo"));
    let none = test_step(&m, &d, desired().1, TestState::Testing, Some(ran("", None, vec![])));
    assert!(matches!(none, Err(DscError::Command(_, _, _))));
    let bad = test_step(&m, &d, dj, TestState::Testing, Some(ran("x", None, vec![Some(obj(vec![])), Some(s("a"))])));
    assert!(matches!(bad, Err(DscError::Json(_))));
}

#[test]
fn a_resource_without_a_test_is_tested_by_a_get() {
    let m = manifest(None, false, None);
    let (d, dj) = desired();
    let (st, act) = test_step(&m, &d, desired().1, TestState::Start, None).unwrap();
    assert!(matches!(act, TestAction::Get));
    let (st, act) = test_step(&m, &d, dj, st, Some(CommandOutcome::Got { actual: obj(vec![("a", s("1"))]) })).unwrap();
    assert!(matches!(st, TestState::Done));
    assert!(matches!(act, TestAction::Finish(TestResult::Resource(ref t)) if t.in_desired_state));
}

#[test]
fn a_test_returning_nothing_declared_reads_the_state_by_a_get() {
    let m = manifest(None, true, None);
    let (d, dj) = desired();
    let (st, act) = test_step(&m, &d, desired().1, TestState::Testing, Some(ran("", None, vec![]))).unwrap();
    assert!(matches!(act, TestAction::Get));
    assert!(matches!(st, TestState::Getting));
    let not_json = test_step(&m, &d, None, TestState::Testing, Some(ran("", None, vec![])));
    assert!(matches!(not_json, Err(DscError::Json(_))));
}

#[test]
fn an_importer_reads_group_results() {
    let m = manifest(Some(ReturnKind::State), true, Some(Kind::Importer));
    let (d, dj) = desired();
    let (st, act) = test_step(&m, &d, dj, TestState::Testing, Some(ran("[]", None, vec![]))).unwrap();
    assert!(matches!(st, TestState::ReadingGroup));
    assert!(matches!(act, TestAction::ReadGroup(ref t) if t == "[]"));
}

#[test]
fn an_unexpected_event_is_an_operation_error() {
    let m = manifest(None, true, None);
    let (d, dj) = desired();
    assert!(matches!(test_step(&m, &d, dj, TestState::Done, None), Err(DscError::Operation(_))));
}
