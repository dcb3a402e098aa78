//! The set operation of a command resource as a sequence of steps: each
//! step takes what the last command gave and says what to do next, until
//! the set result is known. Running the commands is left to the caller.

use vstd::prelude::*;
use vstd::string::StringExecFns;

use crate::configure::config_doc::ExecutionKind;
use crate::dscerror::DscError;
use crate::dscresources::command_resource::{
    args_post, changed_is, chosen_set, command_input_post, get_command_input, process_args, select_set_method,
    set_result_from_states, set_result_with_diff, should_pretest, CommandInput,
};
use crate::dscresources::dscresource::{json_diff, string_views};
use crate::dscresources::invoke_result::{
    get_in_desired_state, in_desired_state, set_of_test, ResourceSetResponse, SetResult, TestResult,
};
use crate::dscresources::resource_manifest::{ArgKind, InputKind, Kind, ResourceManifest, ReturnKind};
use crate::json::{json_same, JsonValue};

verus! {

/// Where a set stands.
#[derive(Debug)]
pub enum SetState {
    /// Nothing has been done.
    Start,
    /// The desired state is being checked against the resource's schema.
    VerifyingDesired,
    /// The resource's test runs with the desired state.
    Testing,
    /// The get command runs to read the state before the set.
    GettingBefore,
    /// The output of that get is being checked.
    VerifyingBefore { exit_code: i32, stderr: String, before: Option<JsonValue> },
    /// The set command runs.
    Setting { before: JsonValue },
    /// The state that the set command gave is being checked.
    VerifyingAfter { before: JsonValue, after: Option<JsonValue> },
    /// The resource's get runs to read the state after the set.
    GettingAfter { before: JsonValue },
    /// The result is known.
    Done,
}

/// What the caller reports of the action it performed.
#[derive(Debug)]
pub enum CommandOutcome {
    /// The JSON text passed the check.
    Verified,
    /// The test gave this result; `group_state` is the results of a group
    /// as JSON.
    Tested { result: TestResult, group_state: JsonValue },
    /// The command ran: its exit code and output, the output read as JSON
    /// (`None` when it is not JSON), and each line of the output read as
    /// JSON.
    Ran { exit_code: i32, stdout: String, stderr: String, json: Option<JsonValue>, lines: Vec<Option<JsonValue>> },
    /// The get gave this actual state (for a group, its results as JSON).
    Got { actual: JsonValue },
}

/// What to do next.
#[derive(Debug)]
pub enum SetAction {
    /// Check this JSON text against the resource (its validate command or
    /// its schema).
    Verify(String),
    /// Run the resource's test with the desired state.
    Test,
    /// Run a command.
    Run { executable: String, args: Option<Vec<String>>, input: CommandInput },
    /// Run the resource's get with the desired state.
    Get,
    /// The set is over, with this result.
    Finish(SetResult),
}

/// The input of a command for the desired state `desired`, read as JSON
/// into `desired_json` (`None` when it is not JSON).
pub open spec fn input_post(kind: Option<InputKind>, desired: Seq<char>, desired_json: Option<JsonValue>, r: Result<CommandInput, DscError>) -> bool {
    match (kind, desired_json) {
        (Some(InputKind::Env), None) => r matches Err(e) && e is Json,
        (_, Some(j)) => command_input_post(kind, desired, j, r),
        (_, None) => command_input_post(kind, desired, JsonValue::Null, r),
    }
}

pub(crate) fn input_for(kind: &Option<InputKind>, desired: &String, desired_json: &Option<JsonValue>) -> (r: Result<CommandInput, DscError>)
    ensures
        input_post(*kind, desired@, *desired_json, r),
{
    match desired_json {
        Some(j) => get_command_input(kind, desired, j),
        None => {
            if let Some(InputKind::Env) = kind {
                return Err(DscError::Json(String::from_str("The desired state is not JSON")));
            }
            get_command_input(kind, desired, &JsonValue::Null)
        },
    }
}

/// Whether `a` runs `executable` with the arguments and input that the
/// declared ones give for the desired state.
pub open spec fn runs(a: SetAction, executable: String, args: Option<Vec<ArgKind>>, kind: Option<InputKind>, desired: Seq<char>, desired_json: Option<JsonValue>) -> bool {
    a matches SetAction::Run { executable: x, args: v, input } && x@ == executable@ && args_post(args, desired, v)
        && input_post(kind, desired, desired_json, Ok(input))
}

/// The step that reads the state before the set with the get command: an
/// error for a what-if the library works out (it needs the test) or a
/// resource without a get command.
pub open spec fn get_before_post(m: ResourceManifest, desired: Seq<char>, desired_json: Option<JsonValue>, synthetic: bool, r: Result<(SetState, SetAction), DscError>) -> bool {
    if synthetic {
        r matches Err(e) && e is NotImplemented
    } else {
        match m.get {
            None => r matches Err(e) && e is NotImplemented,
            Some(g) => match r {
                Ok((s, a)) => s is GettingBefore && runs(a, g.executable, g.args, g.input, desired, desired_json),
                Err(e) => input_post(g.input, desired, desired_json, Err(e)),
            },
        }
    }
}

fn get_before(m: &ResourceManifest, desired: &String, desired_json: &Option<JsonValue>, synthetic: bool) -> (r: Result<(SetState, SetAction), DscError>)
    ensures
        get_before_post(*m, desired@, *desired_json, synthetic, r),
{
    if synthetic {
        return Err(DscError::NotImplemented(String::from_str(
            "cannot process what-if execution type, as resource implements pre-test and does not support what-if",
        )));
    }
    let g = match &m.get {
        Some(g) => g,
        None => {
            return Err(DscError::NotImplemented(String::from_str("get")));
        },
    };
    let args = process_args(&g.args, desired.as_str());
    let input = input_for(&g.input, desired, desired_json)?;
    Ok((SetState::GettingBefore, SetAction::Run { executable: g.executable.clone(), args, input }))
}

/// The step after the state before the set was read: an error carrying the
/// error output when the get failed, a JSON error when its output is not
/// JSON; else the set command runs.
pub open spec fn set_command_post(
    m: ResourceManifest,
    desired: Seq<char>,
    desired_json: Option<JsonValue>,
    execution: ExecutionKind,
    exit_code: i32,
    stderr: String,
    before: Option<JsonValue>,
    r: Result<(SetState, SetAction), DscError>,
) -> bool {
    if exit_code != 0 {
        r matches Err(DscError::Command(t, c, s)) && t@ == m.resource_type@ && c == exit_code && s@ == stderr@
    } else {
        match (before, chosen_set(m, execution).0) {
            (None, _) => r matches Err(e) && e is Json,
            (Some(_), None) => r matches Err(e) && e is NotImplemented,
            (Some(b), Some(set)) => match r {
                Ok((s, a)) => s == (SetState::Setting { before: b }) && runs(a, set.executable, set.args, set.input, desired, desired_json),
                Err(e) => input_post(set.input, desired, desired_json, Err(e)),
            },
        }
    }
}

fn set_command(
    m: &ResourceManifest,
    desired: &String,
    desired_json: &Option<JsonValue>,
    execution: ExecutionKind,
    exit_code: i32,
    stderr: String,
    before: Option<JsonValue>,
) -> (r: Result<(SetState, SetAction), DscError>)
    ensures
        set_command_post(*m, desired@, *desired_json, execution, exit_code, stderr, before, r),
{
    if exit_code != 0 {
        return Err(DscError::Command(m.resource_type.clone(), exit_code, stderr));
    }
    let b = match before {
        Some(b) => b,
        None => {
            return Err(DscError::Json(String::from_str("The state before the set is not JSON")));
        },
    };
    let (set, _) = select_set_method(m, execution)?;
    let args = process_args(&set.args, desired.as_str());
    let input = input_for(&set.input, desired, desired_json)?;
    Ok((SetState::Setting { before: b }, SetAction::Run { executable: set.executable.clone(), args, input }))
}

/// The set result from the state before and the state after: an operation
/// error when the state after is not JSON.
pub open spec fn finish_state_post(before: JsonValue, after: Option<JsonValue>, r: Result<(SetState, SetAction), DscError>) -> bool {
    match after {
        None => r matches Err(e) && e is Operation,
        Some(a) => r matches Ok((s, SetAction::Finish(SetResult::Resource(sr)))) && s is Done && sr.before_state == before
            && sr.after_state == a && changed_is(sr.changed_properties, json_diff(a, before)),
    }
}

fn finish_state(before: JsonValue, after: Option<JsonValue>) -> (r: Result<(SetState, SetAction), DscError>)
    ensures
        finish_state_post(before, after, r),
{
    match after {
        None => Err(DscError::Operation(String::from_str("Failed to parse JSON from the set command"))),
        Some(a) => Ok((SetState::Done, SetAction::Finish(set_result_from_states(before, a)))),
    }
}

/// The texts of a JSON array of strings.
pub open spec fn string_list(v: Option<JsonValue>) -> Option<Seq<Seq<char>>> {
    match v {
        Some(JsonValue::Array(xs)) => if forall|i: int| 0 <= i < xs@.len() ==> (#[trigger] xs@[i]) is String {
            Some(xs@.map_values(|x: JsonValue| match x { JsonValue::String(s) => s@, _ => Seq::empty() }))
        } else {
            None
        },
        _ => None,
    }
}

pub(crate) fn strings_of(v: &Option<JsonValue>) -> (r: Option<Vec<String>>)
    ensures
        match (r, string_list(*v)) {
            (Some(out), Some(l)) => string_views(out@) == l,
            (None, None) => true,
            _ => false,
        },
{
    let xs = match v {
        Some(JsonValue::Array(xs)) => xs,
        _ => {
            return None;
        },
    };
    let mut out: Vec<String> = Vec::new();
    let mut i: usize = 0;
    while i < xs.len()
        invariant
            *v == Some(JsonValue::Array(*xs)),
            i <= xs@.len(),
            out@.len() == i,
            forall|j: int| 0 <= j < i ==> (#[trigger] xs@[j]) is String,
            forall|j: int| 0 <= j < i ==> (xs@[j] matches JsonValue::String(s) && (#[trigger] out@[j])@ == s@),
        decreases xs@.len() - i,
    {
        match &xs[i] {
            JsonValue::String(s) => {
                out.push(s.clone());
            },
            _ => {
                proof {
                    assert(!(xs@[i as int] is String));
                    assert(!(forall|j: int| 0 <= j < xs@.len() ==> (#[trigger] xs@[j]) is String));
                }
                return None;
            },
        }
        i = i + 1;
    }
    proof {
        let l = string_list(*v)->Some_0;
        assert(string_views(out@) =~= l) by {
            assert forall|j: int| 0 <= j < out@.len() implies string_views(out@)[j] == l[j] by {
                assert(xs@[j] matches JsonValue::String(s) && out@[j]@ == s@);
            }
        }
    }
    Some(out)
}

/// The set result from the lines of a set command that gives the state
/// and then the differing properties: a command error when a line is
/// missing, a JSON error when a line does not read as expected.
pub open spec fn state_and_diff_post(m: ResourceManifest, before: JsonValue, exit_code: i32, lines: Seq<Option<JsonValue>>, r: Result<(SetState, SetAction), DscError>) -> bool {
    if lines.len() == 0 {
        r matches Err(DscError::Command(t, c, _)) && t@ == m.resource_type@ && c == exit_code
    } else if lines[0] is None {
        r matches Err(e) && e is Json
    } else if lines.len() < 2 {
        r matches Err(DscError::Command(t, c, _)) && t@ == m.resource_type@ && c == exit_code
    } else {
        match string_list(lines[1]) {
            None => r matches Err(e) && e is Json,
            Some(diff) => r matches Ok((s, SetAction::Finish(SetResult::Resource(sr)))) && s is Done && sr.before_state == before
                && Some(sr.after_state) == lines[0] && changed_is(sr.changed_properties, diff),
        }
    }
}

fn state_and_diff(m: &ResourceManifest, before: JsonValue, exit_code: i32, lines: Vec<Option<JsonValue>>) -> (r: Result<(SetState, SetAction), DscError>)
    ensures
        state_and_diff_post(*m, before, exit_code, lines@, r),
{
    if lines.len() == 0 {
        return Err(DscError::Command(m.resource_type.clone(), exit_code, String::from_str("Command did not return expected actual output")));
    }
    let ghost all = lines@;
    let mut lines = lines;
    if lines[0].is_none() {
        return Err(DscError::Json(String::from_str("The state that the set command gave is not JSON")));
    }
    if lines.len() < 2 {
        return Err(DscError::Command(m.resource_type.clone(), exit_code, String::from_str("Command did not return expected diff output")));
    }
    let diff = match strings_of(&lines[1]) {
        Some(d) => d,
        None => {
            return Err(DscError::Json(String::from_str("The differing properties are not a JSON array of strings")));
        },
    };
    let actual = match lines.swap_remove(0) {
        Some(a) => a,
        None => {
            return Err(DscError::Json(String::from_str("The state that the set command gave is not JSON")));
        },
    };
    assert(Some(actual) == all[0]);
    Ok((SetState::Done, SetAction::Finish(set_result_with_diff(before, actual, diff))))
}

/// What the set command's output leads to, by what the manifest says it
/// returns: the state (checked first for a plain resource), the state and
/// the differing properties, or nothing, in which case the resource's get
/// reads the state after.
pub open spec fn after_set_post(
    m: ResourceManifest,
    returns: Option<ReturnKind>,
    before: JsonValue,
    exit_code: i32,
    stdout: String,
    json: Option<JsonValue>,
    lines: Seq<Option<JsonValue>>,
    r: Result<(SetState, SetAction), DscError>,
) -> bool {
    match returns {
        Some(ReturnKind::State) => if m.kind == Some(Kind::Resource) {
            r matches Ok((SetState::VerifyingAfter { before: b, after: a }, SetAction::Verify(t))) && b == before && a == json && t@ == stdout@
        } else {
            finish_state_post(before, json, r)
        },
        Some(ReturnKind::StateAndDiff) => state_and_diff_post(m, before, exit_code, lines, r),
        None => r matches Ok((SetState::GettingAfter { before: b }, SetAction::Get)) && b == before,
    }
}

/// What a step of a set does (see `set_step`).
pub open spec fn set_step_post(
    m: ResourceManifest,
    desired: Seq<char>,
    desired_json: Option<JsonValue>,
    skip_test: bool,
    execution: ExecutionKind,
    state: SetState,
    event: Option<CommandOutcome>,
    r: Result<(SetState, SetAction), DscError>,
) -> bool {
    let (set, synthetic) = chosen_set(m, execution);
    match (state, event) {
        (SetState::Start, None) => match set {
            None => r matches Err(e) && e is NotImplemented,
            Some(_) => r matches Ok((SetState::VerifyingDesired, SetAction::Verify(t))) && t@ == desired,
        },
        (SetState::VerifyingDesired, Some(CommandOutcome::Verified)) => match set {
            None => r matches Err(e) && e is NotImplemented,
            Some(sm) => if !skip_test && sm.pre_test != Some(true) {
                r matches Ok((SetState::Testing, SetAction::Test))
            } else {
                get_before_post(m, desired, desired_json, synthetic, r)
            },
        },
        (SetState::Testing, Some(CommandOutcome::Tested { result, group_state })) => if set is None {
            r matches Err(e) && e is NotImplemented
        } else if synthetic {
            r matches Ok((s, SetAction::Finish(sr))) && s is Done && set_of_test(sr, result)
        } else if in_desired_state(result) && execution == ExecutionKind::Actual {
            match desired_json {
                None => r matches Err(e) && e is Json,
                Some(d) => r matches Ok((s, SetAction::Finish(SetResult::Resource(sr)))) && s is Done && json_same(sr.before_state, d)
                    && sr.changed_properties is None
                    && sr.after_state == match result { TestResult::Resource(t) => t.actual_state, TestResult::Group(_) => group_state },
            }
        } else {
            get_before_post(m, desired, desired_json, synthetic, r)
        },
        (SetState::GettingBefore, Some(CommandOutcome::Ran { exit_code, stdout, stderr, json, lines })) => if m.kind == Some(Kind::Resource) {
            r matches Ok((SetState::VerifyingBefore { exit_code: c, stderr: e, before: b }, SetAction::Verify(t)))
                && c == exit_code && e == stderr && b == json && t@ == stdout@
        } else {
            set_command_post(m, desired, desired_json, execution, exit_code, stderr, json, r)
        },
        (SetState::VerifyingBefore { exit_code, stderr, before }, Some(CommandOutcome::Verified)) =>
            set_command_post(m, desired, desired_json, execution, exit_code, stderr, before, r),
        (SetState::Setting { before }, Some(CommandOutcome::Ran { exit_code, stdout, stderr, json, lines })) => match set {
            None => r matches Err(e) && e is NotImplemented,
            Some(sm) => after_set_post(m, sm.returns, before, exit_code, stdout, json, lines@, r),
        },
        (SetState::VerifyingAfter { before, after }, Some(CommandOutcome::Verified)) => finish_state_post(before, after, r),
        (SetState::GettingAfter { before }, Some(CommandOutcome::Got { actual })) => finish_state_post(before, Some(actual), r),
        _ => r matches Err(e) && e is Operation,
    }
}

/// One step of the set operation of a command resource with the manifest
/// `m`, for the desired state `desired` (read as JSON into
/// `desired_json`): from where the set stands and what the last action
/// gave, to where it stands next and what to do. The steps are: check the
/// desired state; unless told to skip it or the set command tests by
/// itself, run the test (a what-if the library works out ends with the
/// test's result; a resource already in the desired state ends unchanged);
/// read the state before with the get command (its output checked for a
/// plain resource); run the set command; then take the state it gives
/// (checked for a plain resource), the state and the differing properties
/// it gives, or the state the resource's get reads, and end with the
/// properties that changed.
pub fn set_step(
    m: &ResourceManifest,
    desired: &String,
    desired_json: &Option<JsonValue>,
    skip_test: bool,
    execution: ExecutionKind,
    state: SetState,
    event: Option<CommandOutcome>,
) -> (r: Result<(SetState, SetAction), DscError>)
    ensures
        set_step_post(*m, desired@, *desired_json, skip_test, execution, state, event, r),
{
    match (state, event) {
        (SetState::Start, None) => {
            let _ = select_set_method(m, execution)?;
            Ok((SetState::VerifyingDesired, SetAction::Verify(desired.clone())))
        },
        (SetState::VerifyingDesired, Some(CommandOutcome::Verified)) => {
            let (set, synthetic) = select_set_method(m, execution)?;
            if should_pretest(skip_test, set) {
                Ok((SetState::Testing, SetAction::Test))
            } else {
                get_before(m, desired, desired_json, synthetic)
            }
        },
        (SetState::Testing, Some(CommandOutcome::Tested { result, group_state })) => {
            let (set, synthetic) = select_set_method(m, execution)?;
            if synthetic {
                return Ok((SetState::Done, SetAction::Finish(SetResult::from_test_result(result))));
            }
            if get_in_desired_state(&result) && execution == ExecutionKind::Actual {
                let d = match desired_json {
                    Some(d) => d.deep_copy(),
                    None => {
                        return Err(DscError::Json(String::from_str("The desired state is not JSON")));
                    },
                };
                let actual = match result {
                    TestResult::Resource(t) => t.actual_state,
                    TestResult::Group(_) => group_state,
                };
                return Ok((SetState::Done, SetAction::Finish(SetResult::Resource(ResourceSetResponse {
                    before_state: d,
                    after_state: actual,
                    changed_properties: None,
                }))));
            }
            get_before(m, desired, desired_json, synthetic)
        },
        (SetState::GettingBefore, Some(CommandOutcome::Ran { exit_code, stdout, stderr, json, lines })) => {
            if m.kind == Some(Kind::Resource) {
                Ok((SetState::VerifyingBefore { exit_code, stderr, before: json }, SetAction::Verify(stdout)))
            } else {
                set_command(m, desired, desired_json, execution, exit_code, stderr, json)
            }
        },
        (SetState::VerifyingBefore { exit_code, stderr, before }, Some(CommandOutcome::Verified)) => {
            set_command(m, desired, desired_json, execution, exit_code, stderr, before)
        },
        (SetState::Setting { before }, Some(CommandOutcome::Ran { exit_code, stdout, stderr, json, lines })) => {
            let (set, _) = select_set_method(m, execution)?;
            match set.returns {
                Some(ReturnKind::State) => {
                    if m.kind == Some(Kind::Resource) {
                        Ok((SetState::VerifyingAfter { before, after: json }, SetAction::Verify(stdout)))
                    } else {
                        finish_state(before, json)
                    }
                },
                Some(ReturnKind::StateAndDiff) => state_and_diff(m, before, exit_code, lines),
                None => Ok((SetState::GettingAfter { before }, SetAction::Get)),
            }
        },
        (SetState::VerifyingAfter { before, after }, Some(CommandOutcome::Verified)) => finish_state(before, after),
        (SetState::GettingAfter { before }, Some(CommandOutcome::Got { actual })) => finish_state(before, Some(actual)),
        _ => Err(DscError::Operation(String::from_str("The set did not expect this outcome at this step"))),
    }
}

} // verus!
