use dsc_lib::configure::config_doc::ExecutionKind;
use dsc_lib::dscerror::DscError;
use dsc_lib::dscresources::invoke_result::{ResourceTestResponse, SetResult, TestResult};
use dsc_lib::dscresources::resource_manifest::{GetMethod, InputKind, Kind, ResourceManifest, ReturnKind, SetMethod};
use dsc_lib::dscresources::set_steps::{set_step, CommandOutcome, SetAction, SetState};
use dsc_lib::json::{json_equals, JsonValue};

fn s(x: &str) -> JsonValue {
    JsonValue::String(x.to_string())
}

fn obj(ms: Vec<(&str, JsonValue)>) -> JsonValue {
    JsonValue::Object(ms.into_iter().map(|(k, v)| (k.to_string(), v)).collect())
}

fn manifest(pre_test: Option<bool>, returns: Option<ReturnKind>, kind: Option<Kind>) -> ResourceManifest {
    ResourceManifest {
        schema_version: "1".to_string(),
        resource_type: "Test/Echo".to_string(),
        kind,
        version: "1.0.0".to_string(),
        description: None,
        get: Some(GetMethod { executable: "get".to_string(), args: None, input: Some(InputKind::Stdin) }),
        set: Some(SetMethod { executable: "set".to_string(), args: None, input: Some(InputKind::Stdin), pre_test, handles_exist: None, returns }),
        what_if: None,
        test: None,
        delete: None,
        validate: None,
        export: None,
        resolve: None,
        adapter: None,
        exit_codes: None,
        schema: None,
    }
}

fn ran(exit_code: i32, json: Option<JsonValue>, lines: Vec<Option<JsonValue>>) -> CommandOutcome {
    CommandOutcome::Ran { exit_code, stdout: "out".to_string(), stderr: "err".to_string(), json, lines }
}

#[test]
fn a_set_that_returns_its_state() {
    let m = manifest(Some(true), Some(ReturnKind::State), Some(Kind::Resource));
    let desired = r#"{"a":"2"}"#.to_string();
    let dj = Some(obj(vec![("a", s("2"))]));
    let step = |state, event| set_step(&m, &desired, &dj, false, ExecutionKind::Actual, state, event);
    let (st, act) = step(SetState::Start, None).unwrap();
    assert!(matches!(act, SetAction::Verify(ref t) if *t == desired));
    let (st, act) = step(st, Some(CommandOutcome::Verified)).unwrap();
    match act {
        SetAction::Run { executable, args, input } => {
            assert_eq!(executable, "get");
            assert!(args.is_none());
            assert_eq!(input.stdin.as_deref(), Some(desired.as_str()));
        },
        other => panic!("unexpected {other:?}"),
    }
    let (st, act) = step(st, Some(ran(0, Some(obj(vec![("a", s("1"))])), vec![]))).unwrap();
    assert!(matches!(act, SetAction::Verify(_)));
    let (st, act) = step(st, Some(CommandOutcome::Verified)).unwrap();
    assert!(matches!(act, SetAction::Run { ref executable, .. } if executable == "set"));
    let (st, act) = step(st, Some(ran(0, Some(obj(vec![("a", s("2"))])), vec![]))).unwrap();
    assert!(matches!(act, SetAction::Verify(_)));
    let (st, act) = step(st, Some(CommandOutcome::Verified)).unwrap();
    assert!(matches!(st, SetState::Done));
    match act {
        SetAction::Finish(SetResult::Resource(r)) => {
            assert!(json_equals(&r.before_state, &obj(vec![("a", s("1"))])));
            assert_eq!(r.changed_properties, Some(vec!["a".to_string()]));
        },
        other => panic!("unexpected {other:?}"),
    }
}

#[test]
fn a_set_already_in_the_desired_state_ends_after_the_test() {
    let m = manifest(None, None, None);
    let desired = r#"{"a":"1"}"#.to_string();
    let dj = Some(obj(vec![("a", s("1"))]));
    let (st, act) = set_step(&m, &desired, &dj, false, ExecutionKind::Actual, SetState::VerifyingDesired, Some(CommandOutcome::Verified)).unwrap();
    assert!(matches!(act, SetAction::Test));
    let tested = TestResult::Resource(ResourceTestResponse {
        desired_state: obj(vec![("a", s("1"))]),
        actual_state: obj(vec![("a", s("1"))]),
        in_desired_state: true,
        diff_properties: vec![],
    });
    let (_, act) = set_step(&m, &desired, &dj, false, ExecutionKind::Actual, st, Some(CommandOutcome::Tested { result: tested, group_state: JsonValue::Null })).unwrap();
    match act {
        SetAction::Finish(SetResult::Resource(r)) => assert_eq!(r.changed_properties, None),
        other => panic!("unexpected {other:?}"),
    }
}

#[test]
fn state_and_diff_lines() {
    let m = manifest(Some(true), Some(ReturnKind::StateAndDiff), None);
    let desired = "{}".to_string();
    let dj = Some(obj(vec![]));
    let setting = || SetState::Setting { before: obj(vec![]) };
    let lines = vec![Some(obj(vec![("a", s("1"))])), Some(JsonValue::Array(vec![s("a")]))];
    let (_, act) = set_step(&m, &desired, &dj, true, ExecutionKind::Actual, setting(), Some(ran(0, None, lines))).unwrap();
    match act {
        SetAction::Finish(SetResult::Resource(r)) => assert_eq!(r.changed_properties, Some(vec!["a".to_string()])),
        other => panic!("unexpected {other:?}"),
    }
    let r = set_step(&m, &desired, &dj, true, ExecutionKind::Actual, setting(), Some(ran(0, None, vec![Some(obj(vec![]))])));
    assert!(matches!(r, Err(DscError::Command(_, 0, _))));
    let r = set_step(&m, &desired, &dj, true, ExecutionKind::Actual, setting(), Some(ran(0, None, vec![Some(obj(vec![])), Some(s("x"))])));
    assert!(matches!(r, Err(DscError::Json(_))));
}

#[test]
fn a_failed_get_before_the_set_is_a_command_error() {
    let m = manifest(Some(true), None, None);
    let r = set_step(&m, &"{}".to_string(), &None, false, ExecutionKind::Actual, SetState::GettingBefore, Some(ran(3, None, vec![])));
    assert!(matches!(r, Err(DscError::Command(t, 3, e)) if t == "Test/Echo" && e == "err"));
    let r = set_step(&m, &"{}".to_string(), &None, false, ExecutionKind::Actual, SetState::Start, Some(CommandOutcome::Verified));
    assert!(matches!(r, Err(DscError::Operation(_))));
}
