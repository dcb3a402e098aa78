//! The decisions of invoking a command-based resource: the arguments and
//! input of each command, which command a set runs, how exit codes and
//! output become results, and which error output is passed on.

use vstd::prelude::*;
use vstd::string::StringExecFns;

use crate::configure::config_doc::ExecutionKind;
use crate::dscerror::DscError;
use crate::dscresources::dscresource::{get_diff, json_diff, string_views};
use crate::dscresources::invoke_result::{
    get_in_desired_state, in_desired_state, set_of_test, ResourceSetResponse, ResourceTestResponse, SetResult, TestResult, ValidateResult,
};
use crate::dscresources::resource_manifest::{ArgKind, InputKind, ResourceManifest, SetMethod};
use crate::json::{find_key, find_member, lemma_find_key, JsonValue};
use crate::strings::{decimal, int_to_decimal, push_char};

verus! {

/// The arguments for a command: fixed strings as they are; for a JSON
/// argument, its name and then the input, left out when the input is empty
/// and the argument is not mandatory.
pub open spec fn processed_args(args: Seq<ArgKind>, value: Seq<char>) -> Seq<Seq<char>>
    decreases args.len(),
{
    if args.len() == 0 {
        Seq::empty()
    } else {
        let prev = processed_args(args.drop_last(), value);
        match args.last() {
            ArgKind::String(s) => prev.push(s@),
            ArgKind::Json { json_input_arg, mandatory } => if value.len() == 0 && mandatory != Some(true) {
                prev
            } else {
                prev.push(json_input_arg@).push(value)
            },
        }
    }
}

/// What `process_args` gives for the declared arguments and the input.
pub open spec fn args_post(args: Option<Vec<ArgKind>>, value: Seq<char>, r: Option<Vec<String>>) -> bool {
    match (args, r) {
        (Some(a), Some(v)) => string_views(v@) == processed_args(a@, value),
        (None, None) => true,
        _ => false,
    }
}

/// The arguments of a command, with the input in place of its JSON
/// argument; `None` when the command declares no arguments.
pub fn process_args(args: &Option<Vec<ArgKind>>, value: &str) -> (r: Option<Vec<String>>)
    ensures
        args_post(*args, value@, r),
{
    let arg_values = match args {
        Some(a) => a,
        None => {
            return None;
        },
    };
    let empty = value.unicode_len() == 0;
    let mut out: Vec<String> = Vec::new();
    let mut i: usize = 0;
    while i < arg_values.len()
        invariant
            i <= arg_values@.len(),
            empty == (value@.len() == 0),
            string_views(out@) == processed_args(arg_values@.take(i as int), value@),
        decreases arg_values@.len() - i,
    {
        proof {
            let t = arg_values@.take(i + 1);
            assert(t.drop_last() =~= arg_values@.take(i as int));
            assert(t.last() == arg_values@[i as int]);
        }
        let ghost before = out@;
        match &arg_values[i] {
            ArgKind::String(s) => {
                out.push(s.clone());
                assert(string_views(out@) =~= string_views(before).push(s@));
            },
            ArgKind::Json { json_input_arg, mandatory } => {
                let is_mandatory = match mandatory {
                    Some(m) => *m,
                    None => false,
                };
                if !(empty && !is_mandatory) {
                    out.push(json_input_arg.clone());
                    out.push(String::from_str(value));
                    assert(string_views(out@) =~= string_views(before).push(json_input_arg@).push(value@));
                }
            },
        }
        i = i + 1;
    }
    assert(arg_values@.take(arg_values@.len() as int) =~= arg_values@);
    Some(out)
}

use vstd::string::StrSliceExecFns;

/// The text of a value in an environment variable: a string as it is, a
/// boolean as `true` or `false`, a number in decimal.
pub open spec fn env_text(v: JsonValue) -> Seq<char> {
    match v {
        JsonValue::String(s) => s@,
        JsonValue::Bool(b) => if b { "true"@ } else { "false"@ },
        JsonValue::Number(n) => decimal(n as int),
        _ => Seq::empty(),
    }
}

/// The items of an array joined with commas.
pub open spec fn env_joined(items: Seq<JsonValue>) -> Seq<char>
    decreases items.len(),
{
    if items.len() == 0 {
        Seq::empty()
    } else if items.len() == 1 {
        env_text(items[0])
    } else {
        env_joined(items.drop_last()) + ","@ + env_text(items.last())
    }
}

/// Whether a member can be passed as an environment variable: not an
/// object, and an array only of strings and numbers.
pub open spec fn env_member_ok(v: JsonValue) -> bool {
    match v {
        JsonValue::Object(_) => false,
        JsonValue::Array(xs) => forall|k: int| 0 <= k < xs@.len() ==> ((#[trigger] xs@[k]) is String || xs@[k] is Number),
        _ => true,
    }
}

/// Whether every member can be passed as an environment variable.
pub open spec fn all_env_ok(ms: Seq<(String, JsonValue)>) -> bool {
    forall|i: int| 0 <= i < ms.len() ==> env_member_ok(#[trigger] ms[i].1)
}

/// The environment variables of the members `ms`: null members are left
/// out, arrays are joined with commas.
pub open spec fn env_entries(ms: Seq<(String, JsonValue)>) -> Seq<(Seq<char>, Seq<char>)>
    decreases ms.len(),
{
    if ms.len() == 0 {
        Seq::empty()
    } else {
        let prev = env_entries(ms.drop_last());
        let (k, v) = ms.last();
        match v {
            JsonValue::Null => prev,
            JsonValue::Array(xs) => prev.push((k@, env_joined(xs@))),
            _ => prev.push((k@, env_text(v))),
        }
    }
}

/// The views of name/value pairs.
pub open spec fn pair_views(v: Seq<(String, String)>) -> Seq<(Seq<char>, Seq<char>)> {
    v.map_values(|p: (String, String)| (p.0@, p.1@))
}

fn env_value_text(v: &JsonValue) -> (r: String)
    requires
        v is String || v is Bool || v is Number,
    ensures
        r@ == env_text(*v),
{
    match v {
        JsonValue::String(s) => s.clone(),
        JsonValue::Bool(b) => if *b { String::from_str("true") } else { String::from_str("false") },
        JsonValue::Number(n) => int_to_decimal(*n),
        _ => String::new(),
    }
}

/// The members of a JSON object as environment variables, in order; no
/// variables for any other value. An object member, or an array item that
/// is neither a string nor a number, is refused.
pub fn json_to_hashmap(json: &JsonValue) -> (r: Result<Vec<(String, String)>, DscError>)
    ensures
        match *json {
            JsonValue::Object(ms) => match r {
                Ok(v) => all_env_ok(ms@) && pair_views(v@) == env_entries(ms@),
                Err(e) => e is Operation && !all_env_ok(ms@),
            },
            _ => r matches Ok(v) && v@.len() == 0,
        },
{
    let mut out: Vec<(String, String)> = Vec::new();
    match json {
        JsonValue::Object(ms) => {
            let mut i: usize = 0;
            while i < ms.len()
                invariant
                    i <= ms@.len(),
                    *json == JsonValue::Object(*ms),
                    forall|t: int| 0 <= t < i ==> env_member_ok(#[trigger] ms@[t].1),
                    pair_views(out@) == env_entries(ms@.take(i as int)),
                decreases ms@.len() - i,
            {
                proof {
                    let t = ms@.take(i + 1);
                    assert(t.drop_last() =~= ms@.take(i as int));
                    assert(t.last() == ms@[i as int]);
                }
                let key = &ms[i].0;
                let ghost before = out@;
                match &ms[i].1 {
                    JsonValue::Null => {},
                    JsonValue::Object(_) => {
                        assert(!env_member_ok(ms@[i as int].1));
                        let mut m = String::from_str("Unsupported value for key ");
                        m.append(key.as_str());
                        m.append(".  Only string, bool, number, and array is supported.");
                        return Err(DscError::Operation(m));
                    },
                    JsonValue::Array(xs) => {
                        let mut joined = String::new();
                        let mut k: usize = 0;
                        while k < xs.len()
                            invariant
                                k <= xs@.len(),
                                i < ms@.len(),
                                *json == JsonValue::Object(*ms),
                                ms@[i as int].1 == JsonValue::Array(*xs),
                                forall|t: int| 0 <= t < k ==> ((#[trigger] xs@[t]) is String || xs@[t] is Number),
                                joined@ == env_joined(xs@.take(k as int)),
                            decreases xs@.len() - k,
                        {
                            proof {
                                let t = xs@.take(k + 1);
                                assert(t.drop_last() =~= xs@.take(k as int));
                                assert(t.last() == xs@[k as int]);
                            }
                            match &xs[k] {
                                JsonValue::String(_) | JsonValue::Number(_) => {
                                    if k > 0 {
                                        joined.append(",");
                                    }
                                    let t = env_value_text(&xs[k]);
                                    joined.append(t.as_str());
                                    proof {
                                        if k == 0 {
                                            assert(joined@ =~= env_text(xs@[0]));
                                        }
                                    }
                                },
                                _ => {
                                    assert(!env_member_ok(ms@[i as int].1));
                                    let mut m = String::from_str("Unsupported array value for key ");
                                    m.append(key.as_str());
                                    m.append(".  Only string and number is supported.");
                                    return Err(DscError::Operation(m));
                                },
                            }
                            k = k + 1;
                        }
                        assert(xs@.take(xs@.len() as int) =~= xs@);
                        out.push((key.clone(), joined));
                        assert(pair_views(out@) =~= pair_views(before).push((key@, env_joined(xs@))));
                    },
                    v => {
                        let t = env_value_text(v);
                        out.push((key.clone(), t));
                        assert(pair_views(out@) =~= pair_views(before).push((key@, env_text(*v))));
                    },
                }
                i = i + 1;
            }
            assert(ms@.take(ms@.len() as int) =~= ms@);
            Ok(out)
        },
        _ => Ok(out),
    }
}

/// The environment and standard input of a command.
#[derive(Debug)]
pub struct CommandInput {
    pub env: Option<Vec<(String, String)>>,
    pub stdin: Option<String>,
}

/// Whether the input is `text` on standard input and no environment.
pub open spec fn stdin_is(ci: CommandInput, text: Seq<char>) -> bool {
    ci.stdin matches Some(s) && s@ == text && ci.env is None
}

/// What `get_command_input` gives.
pub open spec fn command_input_post(input_kind: Option<InputKind>, input: Seq<char>, parsed: JsonValue, r: Result<CommandInput, DscError>) -> bool {
    match input_kind {
        Some(InputKind::Env) => match (r, json_to_env_post(parsed)) {
            (Ok(ci), Some(entries)) => ci.env matches Some(e) && pair_views(e@) =~= entries && ci.stdin is None,
            (Err(e), None) => e is Operation,
            _ => false,
        },
        Some(InputKind::Stdin) => r matches Ok(ci) && stdin_is(ci, input),
        None => r matches Ok(ci) && ci.env is None && ci.stdin is None,
    }
}

/// The input of a command: the members of the parsed input as environment
/// variables, or the input text on standard input, or neither.
pub fn get_command_input(input_kind: &Option<InputKind>, input: &String, parsed: &JsonValue) -> (r: Result<CommandInput, DscError>)
    ensures
        command_input_post(*input_kind, input@, *parsed, r),
{
    match input_kind {
        Some(InputKind::Env) => match json_to_hashmap(parsed) {
            Ok(env) => Ok(CommandInput { env: Some(env), stdin: None }),
            Err(e) => Err(e),
        },
        Some(InputKind::Stdin) => Ok(CommandInput { env: None, stdin: Some(input.clone()) }),
        None => Ok(CommandInput { env: None, stdin: None }),
    }
}

/// The environment variables that `json_to_hashmap` makes of a value, or
/// `None` when it refuses it.
pub open spec fn json_to_env_post(v: JsonValue) -> Option<Seq<(Seq<char>, Seq<char>)>> {
    match v {
        JsonValue::Object(ms) => if all_env_ok(ms@) {
            Some(env_entries(ms@))
        } else {
            None
        },
        _ => Some(Seq::empty()),
    }
}

/// The command that a set runs: the set command, or for a what-if the
/// what-if command when there is one, else the set command (a what-if that
/// the library works out itself).
pub open spec fn chosen_set(manifest: ResourceManifest, execution: ExecutionKind) -> (Option<SetMethod>, bool) {
    match execution {
        ExecutionKind::Actual => (manifest.set, false),
        ExecutionKind::WhatIf => if manifest.what_if is None { (manifest.set, true) } else { (manifest.what_if, false) },
    }
}

/// The command that a set runs, and whether the what-if is worked out by
/// the library from a test; an error when the resource has no such command.
pub fn select_set_method(manifest: &ResourceManifest, execution_type: ExecutionKind) -> (r: Result<(&SetMethod, bool), DscError>)
    ensures
        match r {
            Ok((m, synthetic)) => chosen_set(*manifest, execution_type) == (Some(*m), synthetic),
            Err(e) => chosen_set(*manifest, execution_type).0 is None && e is NotImplemented,
        },
{
    let (method, synthetic) = match execution_type {
        ExecutionKind::Actual => (&manifest.set, false),
        ExecutionKind::WhatIf => if manifest.what_if.is_none() {
            (&manifest.set, true)
        } else {
            (&manifest.what_if, false)
        },
    };
    match method {
        Some(m) => Ok((m, synthetic)),
        None => Err(DscError::NotImplemented(String::from_str("set"))),
    }
}

/// Whether a set first runs a test: unless told to skip it or the set
/// command tests by itself.
pub fn should_pretest(skip_test: bool, set: &SetMethod) -> (r: bool)
    ensures
        r == (!skip_test && set.pre_test != Some(true)),
{
    let pre = match set.pre_test {
        Some(p) => p,
        None => false,
    };
    !skip_test && !pre
}

/// What a set concludes from the test that preceded it: for a what-if the
/// library works out, the test result itself; when the resource is in the
/// desired state and changes are to be made, nothing changed (`desired`
/// before, the actual state after, which for a group is `group_state`);
/// otherwise nothing yet, and the set goes on.
pub fn set_after_test(test_result: TestResult, is_synthetic_what_if: bool, execution_type: ExecutionKind, desired: JsonValue, group_state: JsonValue) -> (r: Option<SetResult>)
    ensures
        is_synthetic_what_if ==> (r matches Some(s) && set_of_test(s, test_result)),
        !is_synthetic_what_if ==> if in_desired_state(test_result) && execution_type == ExecutionKind::Actual {
            r matches Some(SetResult::Resource(sr)) && sr.before_state == desired && sr.changed_properties is None
                && sr.after_state == match test_result { TestResult::Resource(t) => t.actual_state, TestResult::Group(_) => group_state }
        } else {
            r is None
        },
{
    if is_synthetic_what_if {
        return Some(SetResult::from_test_result(test_result));
    }
    let in_desired = get_in_desired_state(&test_result);
    if in_desired && execution_type == ExecutionKind::Actual {
        let actual = match test_result {
            TestResult::Resource(t) => t.actual_state,
            TestResult::Group(_) => group_state,
        };
        Some(SetResult::Resource(ResourceSetResponse { before_state: desired, after_state: actual, changed_properties: None }))
    } else {
        None
    }
}

/// The state before a set, from the exit code of the get that read it:
/// an error carrying the error output unless the get succeeded.
pub fn check_get_exit(resource_type: &String, exit_code: i32, stderr: String) -> (r: Result<(), DscError>)
    ensures
        exit_code == 0 <==> r is Ok,
        r matches Err(e) ==> e matches DscError::Command(t, c, s) && t@ == resource_type@ && c == exit_code && s == stderr,
{
    if exit_code == 0 {
        Ok(())
    } else {
        Err(DscError::Command(resource_type.clone(), exit_code, stderr))
    }
}

/// Whether the changed properties are `diff`.
pub open spec fn changed_is(c: Option<Vec<String>>, diff: Seq<Seq<char>>) -> bool {
    c matches Some(v) && string_views(v@) == diff
}

/// A set result from the states before and after: the changed properties
/// are those of the state after that differ in the state before.
pub fn set_result_from_states(before: JsonValue, after: JsonValue) -> (r: SetResult)
    ensures
        r matches SetResult::Resource(sr) && sr.before_state == before && sr.after_state == after
            && changed_is(sr.changed_properties, json_diff(after, before)),
{
    let diff = get_diff(&after, &before);
    SetResult::Resource(ResourceSetResponse { before_state: before, after_state: after, changed_properties: Some(diff) })
}

/// A set result from the states before and after and the changed
/// properties that the set command reported.
pub fn set_result_with_diff(before: JsonValue, after: JsonValue, diff: Vec<String>) -> (r: SetResult)
    ensures
        r matches SetResult::Resource(sr) && sr.before_state == before && sr.after_state == after && sr.changed_properties == Some(diff),
{
    SetResult::Resource(ResourceSetResponse { before_state: before, after_state: after, changed_properties: Some(diff) })
}

/// A test result from the expected and the actual state: in the desired
/// state when no property of the expected state differs.
pub fn test_result_from_states(expected: JsonValue, actual: JsonValue) -> (r: TestResult)
    ensures
        r matches TestResult::Resource(t) && t.desired_state == expected && t.actual_state == actual
            && string_views(t.diff_properties@) == json_diff(expected, actual)
            && t.in_desired_state == (json_diff(expected, actual).len() == 0),
{
    let diff = get_diff(&expected, &actual);
    let in_desired = diff.len() == 0;
    TestResult::Resource(ResourceTestResponse { desired_state: expected, actual_state: actual, in_desired_state: in_desired, diff_properties: diff })
}

/// A test result from the expected and the actual state and the differing
/// properties that the test command reported.
pub fn test_result_with_diff(expected: JsonValue, actual: JsonValue, diff: Vec<String>) -> (r: TestResult)
    ensures
        r matches TestResult::Resource(t) && t.desired_state == expected && t.actual_state == actual
            && t.diff_properties == diff && t.in_desired_state == (diff@.len() == 0),
{
    let in_desired = diff.len() == 0;
    TestResult::Resource(ResourceTestResponse { desired_state: expected, actual_state: actual, in_desired_state: in_desired, diff_properties: diff })
}

/// Whether the resource found its input valid.
pub fn check_validate_result(result: &ValidateResult) -> (r: Result<(), DscError>)
    ensures
        r is Ok <==> result.valid,
        r matches Err(e) ==> e is Validation,
{
    if result.valid {
        Ok(())
    } else {
        Err(DscError::Validation(String::from_str("Resource reported input JSON is not valid")))
    }
}

/// The description of an exit code in the manifest, if it has one.
pub open spec fn exit_description(codes: Seq<(i32, String)>, code: i32) -> Option<Seq<char>>
    decreases codes.len(),
{
    if codes.len() == 0 {
        None
    } else {
        match exit_description(codes.drop_last(), code) {
            Some(d) => Some(d),
            None => if codes.last().0 == code { Some(codes.last().1@) } else { None },
        }
    }
}

fn find_exit_code(codes: &Vec<(i32, String)>, code: i32) -> (r: Option<usize>)
    ensures
        match r {
            Some(k) => k < codes@.len() && exit_description(codes@, code) == Some(codes@[k as int].1@),
            None => exit_description(codes@, code) is None,
        },
{
    let mut i: usize = 0;
    while i < codes.len()
        invariant
            i <= codes@.len(),
            exit_description(codes@.take(i as int), code) is None,
        decreases codes@.len() - i,
    {
        proof {
            let t = codes@.take(i + 1);
            assert(t.drop_last() =~= codes@.take(i as int));
        }
        if codes[i].0 == code {
            proof { lemma_exit_prefix(codes@, code, i + 1); }
            return Some(i);
        }
        i = i + 1;
    }
    assert(codes@.take(i as int) =~= codes@);
    None
}

proof fn lemma_exit_prefix(codes: Seq<(i32, String)>, code: i32, k: int)
    requires
        0 < k <= codes.len(),
        exit_description(codes.take(k), code) is Some,
    ensures
        exit_description(codes, code) == exit_description(codes.take(k), code),
    decreases codes.len() - k,
{
    if k < codes.len() {
        let t = codes.take(k + 1);
        assert(t.drop_last() =~= codes.take(k));
        lemma_exit_prefix(codes, code, k + 1);
    } else {
        assert(codes.take(k) =~= codes);
    }
}

/// The outcome of a finished process: an error when it was ended by a
/// signal (no exit code), or when its exit code is not zero (with the
/// manifest's description of the code, or else the error output); else the
/// exit code and the outputs.
pub fn process_exit_outcome(executable: &String, code: Option<i32>, exit_codes: &Option<Vec<(i32, String)>>, stdout: String, stderr: String) -> (r: Result<(i32, String, String), DscError>)
    ensures
        match code {
            None => r matches Err(DscError::CommandOperation(_, e)) && e@ == executable@,
            Some(c) => if c == 0 {
                r matches Ok((x, o, s)) && x == 0 && o == stdout && s == stderr
            } else {
                match exit_codes {
                    Some(codes) => match exit_description(codes@, c) {
                        Some(d) => r matches Err(DscError::CommandExitFromManifest(e, x, m)) && e@ == executable@ && x == c && m@ == d,
                        None => r matches Err(DscError::Command(e, x, s)) && e@ == executable@ && x == c && s == stderr,
                    },
                    None => r matches Err(DscError::Command(e, x, s)) && e@ == executable@ && x == c && s == stderr,
                }
            },
        },
{
    match code {
        None => Err(DscError::CommandOperation(String::from_str("Process terminated by signal"), executable.clone())),
        Some(c) => {
            if c != 0 {
                if let Some(codes) = exit_codes {
                    if let Some(k) = find_exit_code(codes, c) {
                        return Err(DscError::CommandExitFromManifest(executable.clone(), c, codes[k].1.clone()));
                    }
                }
                return Err(DscError::Command(executable.clone(), c, stderr));
            }
            Ok((c, stdout, stderr))
        },
    }
}

/// The level of a trace line that a process writes on its error output.
#[derive(Debug, Clone, Copy, PartialEq, Eq, Structural)]
pub enum TraceLevel {
    Error,
    Warn,
    Info,
    Debug,
    Trace,
}

/// The message logged for a trace line of a process: with the target and
/// line number at debug and trace level when both are known.
pub open spec fn trace_message_text(pid: u32, level: TraceLevel, target: Option<Seq<char>>, line: Option<u32>, message: Seq<char>) -> Seq<char> {
    let with_target = (level == TraceLevel::Debug || level == TraceLevel::Trace) && target is Some && line is Some;
    if with_target {
        "PID "@ + decimal(pid as int) + ": "@ + target->Some_0 + ": "@ + decimal(line->Some_0 as int) + ": "@ + message
    } else {
        "PID "@ + decimal(pid as int) + ": "@ + message
    }
}

/// The message logged for a trace line of a process.
pub fn trace_message(pid: u32, level: TraceLevel, target: &Option<String>, line_number: Option<u32>, message: &String) -> (r: String)
    ensures
        r@ == trace_message_text(pid, level, match target { Some(t) => Some(t@), None => None }, line_number, message@),
{
    let mut r = String::from_str("PID ");
    let p = int_to_decimal(pid as i128);
    r.append(p.as_str());
    r.append(": ");
    let with_target = level == TraceLevel::Debug || level == TraceLevel::Trace;
    match (target, line_number) {
        (Some(t), Some(l)) => if with_target {
            r.append(t.as_str());
            r.append(": ");
            let ls = int_to_decimal(l as i128);
            r.append(ls.as_str());
            r.append(": ");
        },
        _ => {},
    }
    r.append(message.as_str());
    r
}

/// Whether a JSON line of error output is one of the plain trace forms:
/// an object with an `Error`, `Warning`, `Info`, `Debug` or `Trace` member.
pub open spec fn is_plain_trace(v: JsonValue) -> bool {
    match v {
        JsonValue::Object(ms) => find_key(ms@, "Error"@) >= 0 || find_key(ms@, "Warning"@) >= 0 || find_key(ms@, "Info"@) >= 0
            || find_key(ms@, "Debug"@) >= 0 || find_key(ms@, "Trace"@) >= 0,
        _ => false,
    }
}

fn has_member(ms: &Vec<(String, JsonValue)>, key: &str) -> (r: bool)
    ensures
        r == (find_key(ms@, key@) >= 0),
{
    let k = String::from_str(key);
    proof { lemma_find_key(ms@, k@); }
    find_member(ms, &k).is_some()
}

/// Whether a line of a process's error output is passed on as error
/// output: not when it is empty, a structured trace line (`is_trace`), or a
/// plain trace object; otherwise, JSON or not, it is.
pub fn stderr_line_passes(line: &str, is_trace: bool, json: &Option<JsonValue>) -> (r: bool)
    ensures
        r == (line@.len() > 0 && !is_trace && !(*json matches Some(v) && is_plain_trace(v))),
{
    if line.unicode_len() == 0 || is_trace {
        return false;
    }
    match json {
        Some(JsonValue::Object(ms)) => {
            let plain = has_member(ms, "Error") || has_member(ms, "Warning") || has_member(ms, "Info")
                || has_member(ms, "Debug") || has_member(ms, "Trace");
            !plain
        },
        _ => true,
    }
}

/// The lines of a text, split at `\n` or `\r\n`, with no empty line after
/// a final line ending.
pub open spec fn text_lines(s: Seq<char>) -> Seq<Seq<char>>
    decreases s.len(),
{
    if s.len() == 0 {
        Seq::empty()
    } else {
        let i = first_newline(s, 0);
        if i >= s.len() || i < 0 {
            seq![s]
        } else {
            let piece = s.subrange(0, i);
            let line = if piece.len() > 0 && piece.last() == '\r' { piece.drop_last() } else { piece };
            proof { lemma_first_newline(s, 0); }
            seq![line] + text_lines(s.subrange(i + 1, s.len() as int))
        }
    }
}

/// The first position from `i` of a `\n`, or the length.
pub open spec fn first_newline(s: Seq<char>, i: int) -> int
    decreases s.len() - i,
{
    if 0 <= i < s.len() && s[i] != '\n' {
        first_newline(s, i + 1)
    } else {
        i
    }
}

pub proof fn lemma_first_newline(s: Seq<char>, i: int)
    requires
        0 <= i <= s.len(),
    ensures
        i <= first_newline(s, i) <= s.len(),
        first_newline(s, i) < s.len() ==> s[first_newline(s, i)] == '\n',
        forall|k: int| i <= k < first_newline(s, i) ==> s[k] != '\n',
    decreases s.len() - i,
{
    if i < s.len() && s[i] != '\n' {
        lemma_first_newline(s, i + 1);
    }
}

/// The lines of a text (`str::lines`).
pub fn split_lines(s: &str) -> (r: Vec<String>)
    ensures
        string_views(r@) == text_lines(s@),
{
    let n = s.unicode_len();
    let mut out: Vec<String> = Vec::new();
    let mut start: usize = 0;
    let ghost mut acc: Seq<Seq<char>> = Seq::empty();
    assert(s@.subrange(0, n as int) =~= s@);
    while start < n
        invariant
            n == s@.len(),
            start <= n,
            string_views(out@) + text_lines(s@.subrange(start as int, n as int)) == text_lines(s@),
        decreases n - start,
    {
        let ghost rest = s@.subrange(start as int, n as int);
        let mut i: usize = start;
        while i < n && s.get_char(i) != '\n'
            invariant
                n == s@.len(),
                start <= i <= n,
                forall|k: int| start <= k < i ==> s@[k] != '\n',
            decreases n - i,
        {
            i = i + 1;
        }
        proof {
            lemma_first_newline(rest, 0);
            assert forall|k: int| 0 <= k < i - start implies rest[k] != '\n' by {
                assert(rest[k] == s@[start + k]);
            }
            if i < n {
                assert(rest[i - start] == '\n');
            }
            lemma_first_newline_is(rest, 0, i - start);
        }
        let mut line = String::new();
        let mut k: usize = start;
        while k < i
            invariant
                n == s@.len(),
                start <= k <= i <= n,
                line@ == s@.subrange(start as int, k as int),
            decreases i - k,
        {
            push_char(&mut line, s.get_char(k));
            assert(line@ =~= s@.subrange(start as int, k + 1));
            k = k + 1;
        }
        let ghost before = out@;
        if i < n && i > start && s.get_char(i - 1) == '\r' {
            let mut trimmed = String::new();
            let mut t: usize = start;
            while t < i - 1
                invariant
                    n == s@.len(),
                    start <= t <= i - 1,
                    i <= n,
                    trimmed@ == s@.subrange(start as int, t as int),
                decreases i - 1 - t,
            {
                push_char(&mut trimmed, s.get_char(t));
                assert(trimmed@ =~= s@.subrange(start as int, t + 1));
                t = t + 1;
            }
            out.push(trimmed);
        } else {
            out.push(line);
        }
        proof {
            let piece = rest.subrange(0, i - start);
            assert(piece =~= s@.subrange(start as int, i as int));
            if i < n {
                assert(rest.subrange(i - start + 1, rest.len() as int) =~= s@.subrange(i + 1, n as int));
                if i > start && s@[i - 1] == '\r' {
                    assert(piece.drop_last() =~= s@.subrange(start as int, i - 1));
                }
                assert(text_lines(rest) == seq![string_views(out@).last()] + text_lines(s@.subrange(i + 1, n as int)));
            } else {
                assert(text_lines(rest) == seq![rest]);
                assert(s@.subrange(n as int, n as int) =~= Seq::<char>::empty());
            }
            assert(string_views(out@) =~= string_views(before).push(string_views(out@).last()));
        }
        start = if i < n { i + 1 } else { n };
    }
    proof {
        assert(s@.subrange(n as int, n as int) =~= Seq::<char>::empty());
        assert(string_views(out@) + Seq::<Seq<char>>::empty() =~= string_views(out@));
    }
    out
}

/// The lines, each followed by a line feed.
pub open spec fn joined_with_newlines(lines: Seq<Seq<char>>) -> Seq<char>
    decreases lines.len(),
{
    if lines.len() == 0 {
        Seq::empty()
    } else {
        joined_with_newlines(lines.drop_last()) + lines.last() + seq!['\n']
    }
}

/// The output of a command as it is handed back: each of its lines (see
/// `text_lines`) followed by a line feed, so a last line without one gains
/// it and a carriage return before a line feed is dropped.
pub fn output_lines(raw: &str) -> (r: String)
    ensures
        r@ == joined_with_newlines(text_lines(raw@)),
{
    let lines = split_lines(raw);
    let ghost all = string_views(lines@);
    let mut out = String::new();
    let mut i: usize = 0;
    while i < lines.len()
        invariant
            i <= lines@.len(),
            all == string_views(lines@),
            all == text_lines(raw@),
            out@ == joined_with_newlines(all.take(i as int)),
        decreases lines@.len() - i,
    {
        let ghost before = out@;
        out.append(lines[i].as_str());
        push_char(&mut out, '\n');
        proof {
            let t = all.take(i + 1);
            assert(t.drop_last() =~= all.take(i as int));
            assert(t.last() == lines@[i as int]@);
        }
        i = i + 1;
    }
    assert(all.take(lines@.len() as int) =~= all);
    out
}

proof fn lemma_first_newline_is(s: Seq<char>, i: int, j: int)
    requires
        0 <= i <= j <= s.len(),
        forall|k: int| i <= k < j ==> s[k] != '\n',
        j < s.len() ==> s[j] == '\n',
    ensures
        first_newline(s, i) == j,
    decreases j - i,
{
    if i < j {
        lemma_first_newline_is(s, i + 1, j);
    }
}

} // verus!
