//! The test operation of a command resource as a sequence of steps, in the
//! manner of the set steps: each step takes what the last action gave and
//! says what to do next, until the test result is known.

use vstd::prelude::*;
use vstd::string::StringExecFns;

use crate::dscerror::DscError;
use crate::dscresources::command_resource::{args_post, process_args, test_result_from_states, test_result_with_diff, CommandInput};
use crate::dscresources::dscresource::{json_diff, string_views};
use crate::dscresources::invoke_result::TestResult;
use crate::dscresources::resource_manifest::{Kind, ResourceManifest, ReturnKind, TestMethod};
use crate::dscresources::set_steps::{input_for, input_post, string_list, strings_of, CommandOutcome};
use crate::json::JsonValue;

verus! {

/// Where a test stands.
#[derive(Debug)]
pub enum TestState {
    /// Nothing has been done.
    Start,
    /// The desired state is being checked against the resource.
    VerifyingDesired,
    /// The test command runs.
    Testing,
    /// The output of the test command is being checked.
    VerifyingOutput { exit_code: i32, stdout: String, json: Option<JsonValue>, lines: Vec<Option<JsonValue>> },
    /// The output of a group's test is being read as its results.
    ReadingGroup,
    /// The get runs to read the actual state.
    Getting,
    /// The result is known.
    Done,
}

/// What to do next.
#[derive(Debug)]
pub enum TestAction {
    /// Check this JSON text against the resource.
    Verify(String),
    /// Run a command.
    Run { executable: String, args: Option<Vec<String>>, input: CommandInput },
    /// Read this output as the test results of a group.
    ReadGroup(String),
    /// Run the resource's get with the desired state.
    Get,
    /// The test is over, with this result.
    Finish(TestResult),
}

/// Whether the test is over with the result that comparing `expected`
/// with `actual` gives.
pub open spec fn finishes_compared(r: Result<(TestState, TestAction), DscError>, expected: JsonValue, actual: JsonValue) -> bool {
    r matches Ok((s, TestAction::Finish(TestResult::Resource(t)))) && s is Done
        && t.desired_state == expected && t.actual_state == actual
        && string_views(t.diff_properties@) == json_diff(expected, actual)
        && t.in_desired_state == (json_diff(expected, actual).len() == 0)
}

/// What follows the output of the test command: a group's output is read
/// as its results; else the desired state must be JSON, and the result
/// comes from what the command returns (its state; its state and the
/// differing properties, one JSON line each) or, when it returns nothing
/// declared, from a get.
pub open spec fn after_output_post(
    m: ResourceManifest,
    t: TestMethod,
    desired_json: Option<JsonValue>,
    exit_code: i32,
    stdout: Seq<char>,
    json: Option<JsonValue>,
    lines: Seq<Option<JsonValue>>,
    r: Result<(TestState, TestAction), DscError>,
) -> bool {
    if m.kind == Some(Kind::Importer) {
        r matches Ok((s, TestAction::ReadGroup(text))) && s is ReadingGroup && text@ == stdout
    } else {
        match desired_json {
            None => r matches Err(e) && e is Json,
            Some(expected) => match t.returns {
                Some(ReturnKind::State) => match json {
                    None => r matches Err(e) && e is Operation,
                    Some(actual) => finishes_compared(r, expected, actual),
                },
                Some(ReturnKind::StateAndDiff) => if lines.len() == 0 {
                    r matches Err(e) && e matches DscError::Command(n, c, _) && n@ == m.resource_type@ && c == exit_code
                } else {
                    match lines[0] {
                        None => r matches Err(e) && e is Json,
                        Some(actual) => if lines.len() < 2 {
                            r matches Err(e) && e matches DscError::Command(n, c, _) && n@ == m.resource_type@ && c == exit_code
                        } else {
                            match string_list(lines[1]) {
                                None => r matches Err(e) && e is Json,
                                Some(diff) => r matches Ok((s, TestAction::Finish(TestResult::Resource(tr)))) && s is Done
                                    && tr.desired_state == expected && tr.actual_state == actual
                                    && string_views(tr.diff_properties@) == diff && tr.in_desired_state == (diff.len() == 0),
                            }
                        },
                    }
                },
                None => r matches Ok((s, a)) && s is Getting && a is Get,
            },
        }
    }
}

fn after_output(
    m: &ResourceManifest,
    t: &TestMethod,
    desired_json: Option<JsonValue>,
    exit_code: i32,
    stdout: String,
    json: Option<JsonValue>,
    lines: Vec<Option<JsonValue>>,
) -> (r: Result<(TestState, TestAction), DscError>)
    ensures
        after_output_post(*m, *t, desired_json, exit_code, stdout@, json, lines@, r),
{
    if let Some(Kind::Importer) = m.kind {
        return Ok((TestState::ReadingGroup, TestAction::ReadGroup(stdout)));
    }
    let expected = match desired_json {
        Some(e) => e,
        None => {
            return Err(DscError::Json(String::from_str("The desired state is not JSON")));
        },
    };
    match t.returns {
        Some(ReturnKind::State) => match json {
            None => Err(DscError::Operation(String::from_str("Failed to parse JSON from the test command"))),
            Some(actual) => Ok((TestState::Done, TestAction::Finish(test_result_from_states(expected, actual)))),
        },
        Some(ReturnKind::StateAndDiff) => {
            if lines.len() == 0 {
                return Err(DscError::Command(m.resource_type.clone(), exit_code, String::from_str("No actual state returned")));
            }
            let ghost all = lines@;
            let mut lines = lines;
            let first = lines.remove(0);
            let actual = match first {
                None => {
                    return Err(DscError::Json(String::from_str("The actual state is not JSON")));
                },
                Some(a) => a,
            };
            if lines.len() == 0 {
                return Err(DscError::Command(m.resource_type.clone(), exit_code, String::from_str("No diff properties returned")));
            }
            assert(lines@[0] == all[1]);
            let diff = match strings_of(&lines[0]) {
                None => {
                    return Err(DscError::Json(String::from_str("The differing properties are not a list of strings")));
                },
                Some(d) => d,
            };
            Ok((TestState::Done, TestAction::Finish(test_result_with_diff(expected, actual, diff))))
        },
        None => Ok((TestState::Getting, TestAction::Get)),
    }
}

/// Whether `a` runs the test command with the arguments and input that its
/// declared ones give for the desired state.
pub open spec fn runs_test(a: TestAction, t: TestMethod, desired: Seq<char>, desired_json: Option<JsonValue>) -> bool {
    a matches TestAction::Run { executable: x, args: v, input } && x@ == t.executable@ && args_post(t.args, desired, v)
        && input_post(t.input, desired, desired_json, Ok(input))
}

/// One step of the test of the resource `m` for the desired state
/// `desired` (read as JSON into `desired_json`, `None` when it is not
/// JSON): a resource without a test command is tested by a get whose state
/// is compared with the desired one; else the desired state is checked,
/// the test command runs, a resource of kind `Resource` has its output
/// checked, and the result follows from that output (see
/// `after_output_post`). A step in a state that does not expect the event
/// is an operation error.
pub open spec fn test_step_post(
    m: ResourceManifest,
    desired: Seq<char>,
    desired_json: Option<JsonValue>,
    state: TestState,
    event: Option<CommandOutcome>,
    r: Result<(TestState, TestAction), DscError>,
) -> bool {
    match (state, event, m.test) {
        (TestState::Start, None, None) => r matches Ok((s, a)) && s is Getting && a is Get,
        (TestState::Start, None, Some(_)) => r matches Ok((s, TestAction::Verify(text))) && s is VerifyingDesired && text@ == desired,
        (TestState::VerifyingDesired, Some(CommandOutcome::Verified), Some(t)) => match r {
            Ok((s, a)) => s is Testing && runs_test(a, t, desired, desired_json),
            Err(e) => input_post(t.input, desired, desired_json, Err(e)),
        },
        (TestState::Testing, Some(CommandOutcome::Ran { exit_code, stdout, stderr, json, lines }), Some(t)) =>
            if m.kind == Some(Kind::Resource) {
                r matches Ok((TestState::VerifyingOutput { exit_code: c, stdout: o, json: j, lines: l }, TestAction::Verify(text)))
                    && text@ == stdout@ && c == exit_code && o@ == stdout@ && j == json && l@ == lines@
            } else {
                after_output_post(m, t, desired_json, exit_code, stdout@, json, lines@, r)
            },
        (TestState::VerifyingOutput { exit_code, stdout, json, lines }, Some(CommandOutcome::Verified), Some(t)) =>
            after_output_post(m, t, desired_json, exit_code, stdout@, json, lines@, r),
        (TestState::ReadingGroup, Some(CommandOutcome::Tested { result, group_state }), _) =>
            r matches Ok((s, TestAction::Finish(tr))) && s is Done && tr == result,
        (TestState::Getting, Some(CommandOutcome::Got { actual }), _) => match desired_json {
            None => r matches Err(e) && e is Json,
            Some(expected) => finishes_compared(r, expected, actual),
        },
        _ => r matches Err(e) && e is Operation,
    }
}

/// Takes the test of a command resource one step further.
pub fn test_step(
    m: &ResourceManifest,
    desired: &String,
    desired_json: Option<JsonValue>,
    state: TestState,
    event: Option<CommandOutcome>,
) -> (r: Result<(TestState, TestAction), DscError>)
    ensures
        test_step_post(*m, desired@, desired_json, state, event, r),
{
    match (state, event, &m.test) {
        (TestState::Start, None, None) => Ok((TestState::Getting, TestAction::Get)),
        (TestState::Start, None, Some(_)) => Ok((TestState::VerifyingDesired, TestAction::Verify(desired.clone()))),
        (TestState::VerifyingDesired, Some(CommandOutcome::Verified), Some(t)) => {
            let args = process_args(&t.args, desired.as_str());
            let input = input_for(&t.input, desired, &desired_json)?;
            Ok((TestState::Testing, TestAction::Run { executable: t.executable.clone(), args, input }))
        },
        (TestState::Testing, Some(CommandOutcome::Ran { exit_code, stdout, stderr, json, lines }), Some(t)) => {
            if let Some(Kind::Resource) = m.kind {
                let text = stdout.clone();
                Ok((TestState::VerifyingOutput { exit_code, stdout, json, lines }, TestAction::Verify(text)))
            } else {
                after_output(m, t, desired_json, exit_code, stdout, json, lines)
            }
        },
        (TestState::VerifyingOutput { exit_code, stdout, json, lines }, Some(CommandOutcome::Verified), Some(t)) =>
            after_output(m, t, desired_json, exit_code, stdout, json, lines),
        (TestState::ReadingGroup, Some(CommandOutcome::Tested { result, group_state }), _) =>
            Ok((TestState::Done, TestAction::Finish(result))),
        (TestState::Getting, Some(CommandOutcome::Got { actual }), _) => match desired_json {
            None => Err(DscError::Json(String::from_str("The desired state is not JSON"))),
            Some(expected) => Ok((TestState::Done, TestAction::Finish(test_result_from_states(expected, actual)))),
        },
        _ => Err(DscError::Operation(String::from_str("The test cannot take this step"))),
    }
}

} // verus!
