//! What the operations on a resource return, and how a test result stands
//! for a get or a set result.

use vstd::prelude::*;

use crate::configure::config_doc::{Configuration, Metadata};
use crate::json::JsonValue;

verus! {

/// The outcome of a get on a resource, or on a group of resources.
#[derive(Debug)]
pub enum GetResult {
    Resource(ResourceGetResponse),
    Group(Vec<ResourceGetResult>),
}

/// The state a resource reports.
#[derive(Debug)]
pub struct ResourceGetResponse {
    pub actual_state: JsonValue,
}

/// The outcomes of a set on the resources of a group.
#[derive(Debug)]
pub struct GroupResourceSetResponse {
    pub results: Vec<ResourceSetResult>,
}

impl GroupResourceSetResponse {
    pub fn new() -> (r: Self)
        ensures
            r.results@.len() == 0,
    {
        GroupResourceSetResponse { results: Vec::new() }
    }
}

/// The outcome of a set on a resource, or on a group of resources.
#[derive(Debug)]
pub enum SetResult {
    Resource(ResourceSetResponse),
    Group(GroupResourceSetResponse),
}

/// The states of a resource before and after a set, and what changed.
#[derive(Debug)]
pub struct ResourceSetResponse {
    pub before_state: JsonValue,
    pub after_state: JsonValue,
    pub changed_properties: Option<Vec<String>>,
}

/// The outcomes of a test on the resources of a group.
#[derive(Debug)]
pub struct GroupResourceTestResponse {
    pub results: Vec<ResourceTestResult>,
    pub in_desired_state: bool,
}

impl GroupResourceTestResponse {
    pub fn new() -> (r: Self)
        ensures
            r.results@.len() == 0,
            !r.in_desired_state,
    {
        GroupResourceTestResponse { results: Vec::new(), in_desired_state: false }
    }
}

/// The outcome of a test on a resource, or on a group of resources.
#[derive(Debug)]
pub enum TestResult {
    Resource(ResourceTestResponse),
    Group(GroupResourceTestResponse),
}

/// The desired and actual states of a resource and where they differ.
#[derive(Debug)]
pub struct ResourceTestResponse {
    pub desired_state: JsonValue,
    pub actual_state: JsonValue,
    pub in_desired_state: bool,
    pub diff_properties: Vec<String>,
}

/// Whether a configuration is valid, and why not.
#[derive(Debug)]
pub struct ValidateResult {
    pub valid: bool,
    pub reason: Option<String>,
}

/// The instances a resource exports.
#[derive(Debug)]
pub struct ExportResult {
    pub actual_state: Vec<JsonValue>,
}

/// The severity of a message about a resource.
#[derive(Debug, Clone, Copy, PartialEq, Eq, Structural)]
pub enum MessageLevel {
    Error,
    Warning,
    Information,
}

/// A message about a resource.
#[derive(Debug)]
pub struct ResourceMessage {
    pub name: String,
    pub resource_type: String,
    pub message: String,
    pub level: MessageLevel,
}

/// The get outcome of one resource of a configuration.
#[derive(Debug)]
pub struct ResourceGetResult {
    pub metadata: Option<Metadata>,
    pub name: String,
    pub resource_type: String,
    pub result: GetResult,
}

/// The set outcome of one resource of a configuration.
#[derive(Debug)]
pub struct ResourceSetResult {
    pub metadata: Option<Metadata>,
    pub name: String,
    pub resource_type: String,
    pub result: SetResult,
}

/// The test outcome of one resource of a configuration.
#[derive(Debug)]
pub struct ResourceTestResult {
    pub metadata: Option<Metadata>,
    pub name: String,
    pub resource_type: String,
    pub result: TestResult,
}

/// The outcome of a get on a configuration.
#[derive(Debug)]
pub struct ConfigurationGetResult {
    pub metadata: Option<Metadata>,
    pub results: Vec<ResourceGetResult>,
    pub messages: Vec<ResourceMessage>,
    pub had_errors: bool,
}

/// The outcome of a set on a configuration.
#[derive(Debug)]
pub struct ConfigurationSetResult {
    pub metadata: Option<Metadata>,
    pub results: Vec<ResourceSetResult>,
    pub messages: Vec<ResourceMessage>,
    pub had_errors: bool,
}

/// The outcome of a test on a configuration.
#[derive(Debug)]
pub struct ConfigurationTestResult {
    pub metadata: Option<Metadata>,
    pub results: Vec<ResourceTestResult>,
    pub messages: Vec<ResourceMessage>,
    pub had_errors: bool,
}

/// The outcome of an export of a configuration.
#[derive(Debug)]
pub struct ConfigurationExportResult {
    pub metadata: Option<Metadata>,
    pub result: Option<Configuration>,
    pub messages: Vec<ResourceMessage>,
    pub had_errors: bool,
}

/// The set outcomes of the resources of a group.
#[derive(Debug)]
pub struct GroupResourceSetResult {
    pub results: Vec<ResourceSetResult>,
}

/// The test outcomes of the resources of a group.
#[derive(Debug)]
pub struct GroupResourceTestResult {
    pub results: Vec<ResourceTestResult>,
}

impl ConfigurationGetResult {
    pub fn new() -> (r: Self)
        ensures
            r.metadata is None,
            r.results@.len() == 0,
            r.messages@.len() == 0,
            !r.had_errors,
    {
        ConfigurationGetResult { metadata: None, results: Vec::new(), messages: Vec::new(), had_errors: false }
    }
}

impl ConfigurationSetResult {
    pub fn new() -> (r: Self)
        ensures
            r.metadata is None,
            r.results@.len() == 0,
            r.messages@.len() == 0,
            !r.had_errors,
    {
        ConfigurationSetResult { metadata: None, results: Vec::new(), messages: Vec::new(), had_errors: false }
    }
}

impl ConfigurationTestResult {
    pub fn new() -> (r: Self)
        ensures
            r.metadata is None,
            r.results@.len() == 0,
            r.messages@.len() == 0,
            !r.had_errors,
    {
        ConfigurationTestResult { metadata: None, results: Vec::new(), messages: Vec::new(), had_errors: false }
    }
}

impl ConfigurationExportResult {
    pub fn new() -> (r: Self)
        ensures
            r.metadata is None,
            r.result is None,
            r.messages@.len() == 0,
            !r.had_errors,
    {
        ConfigurationExportResult { metadata: None, result: None, messages: Vec::new(), had_errors: false }
    }
}

impl GroupResourceSetResult {
    pub fn new() -> (r: Self)
        ensures
            r.results@.len() == 0,
    {
        GroupResourceSetResult { results: Vec::new() }
    }
}

impl GroupResourceTestResult {
    pub fn new() -> (r: Self)
        ensures
            r.results@.len() == 0,
    {
        GroupResourceTestResult { results: Vec::new() }
    }
}

/// Whether a test outcome is in the desired state: a resource's own
/// verdict, or, for a group, every member's.
pub open spec fn in_desired_state(t: TestResult) -> bool
    decreases t,
{
    match t {
        TestResult::Resource(r) => r.in_desired_state,
        TestResult::Group(g) => forall|i: int| 0 <= i < g.results@.len() ==> in_desired_state(#[trigger] g.results@[i].result),
    }
}

/// A group is in the desired state exactly when each of its members is:
/// one member out of the desired state puts the whole group out of it, and
/// a group in the desired state has every member in it.
pub proof fn lemma_group_in_desired_state_needs_every_member(g: GroupResourceTestResponse, i: int)
    requires
        0 <= i < g.results@.len(),
    ensures
        !in_desired_state(g.results@[i].result) ==> !in_desired_state(TestResult::Group(g)),
        in_desired_state(TestResult::Group(g)) ==> in_desired_state(g.results@[i].result),
        (forall|k: int| 0 <= k < g.results@.len() ==> #[trigger] in_desired_state(g.results@[k].result)) ==> in_desired_state(TestResult::Group(g)),
{
    if forall|k: int| 0 <= k < g.results@.len() ==> #[trigger] in_desired_state(g.results@[k].result) {
        assert forall|k: int| 0 <= k < g.results@.len() implies in_desired_state(#[trigger] g.results@[k].result) by {}
    }
}

/// A resource's test outcome is in the desired state exactly when the
/// resource said it is.
pub proof fn lemma_resource_in_desired_state_is_its_verdict(r: ResourceTestResponse)
    ensures
        in_desired_state(TestResult::Resource(r)) == r.in_desired_state,
{
}

/// Whether a test outcome is in the desired state.
pub fn get_in_desired_state(test_result: &TestResult) -> (r: bool)
    ensures
        r == in_desired_state(*test_result),
    decreases test_result,
{
    match test_result {
        TestResult::Resource(r) => r.in_desired_state,
        TestResult::Group(g) => {
            let mut i: usize = 0;
            while i < g.results.len()
                invariant
                    i <= g.results@.len(),
                    *test_result == TestResult::Group(*g),
                    forall|k: int| 0 <= k < i ==> in_desired_state(#[trigger] g.results@[k].result),
                decreases g.results@.len() - i,
            {
                assert(decreases_to!(*test_result => test_result->Group_0));
                assert(decreases_to!(test_result->Group_0 => test_result->Group_0.results));
                assert(decreases_to!(test_result->Group_0.results => test_result->Group_0.results@));
                assert(decreases_to!(test_result->Group_0.results@ => test_result->Group_0.results@[i as int]));
                assert(decreases_to!(test_result->Group_0.results@[i as int] => test_result->Group_0.results@[i as int].result));
                if !get_in_desired_state(&g.results[i].result) {
                    return false;
                }
                i = i + 1;
            }
            true
        },
    }
}

/// Whether `s` is what a test outcome `t` says of a set: a resource's
/// actual state as the state before, its desired state as the state after,
/// and its differing properties as the changed ones (none when none
/// differ); a group member by member.
pub open spec fn set_of_test(s: SetResult, t: TestResult) -> bool
    decreases t,
{
    match (s, t) {
        (SetResult::Resource(sr), TestResult::Resource(tr)) => {
            &&& sr.before_state == tr.actual_state
            &&& sr.after_state == tr.desired_state
            &&& if tr.diff_properties@.len() == 0 { sr.changed_properties is None } else { sr.changed_properties == Some(tr.diff_properties) }
        },
        (SetResult::Group(sg), TestResult::Group(tg)) => {
            &&& sg.results@.len() == tg.results@.len()
            &&& forall|i: int| 0 <= i < tg.results@.len() ==> {
                &&& (#[trigger] sg.results@[i]).metadata is None
                &&& sg.results@[i].name == tg.results@[i].name
                &&& sg.results@[i].resource_type == tg.results@[i].resource_type
                &&& set_of_test(sg.results@[i].result, tg.results@[i].result)
            }
        },
        _ => false,
    }
}

/// Whether `g` is what a test outcome `t` says of a get: a resource's
/// actual state; a group member by member.
pub open spec fn get_of_test(g: GetResult, t: TestResult) -> bool
    decreases t,
{
    match (g, t) {
        (GetResult::Resource(gr), TestResult::Resource(tr)) => gr.actual_state == tr.actual_state,
        (GetResult::Group(gs), TestResult::Group(tg)) => {
            &&& gs@.len() == tg.results@.len()
            &&& forall|i: int| 0 <= i < tg.results@.len() ==> {
                &&& (#[trigger] gs@[i]).metadata is None
                &&& gs@[i].name == tg.results@[i].name
                &&& gs@[i].resource_type == tg.results@[i].resource_type
                &&& get_of_test(gs@[i].result, tg.results@[i].result)
            }
        },
        _ => false,
    }
}

impl SetResult {
    /// The set outcome that a test outcome stands for.
    pub fn from_test_result(value: TestResult) -> (r: SetResult)
        ensures
            set_of_test(r, value),
        decreases value,
    {
        let ghost orig = value;
        match value {
            TestResult::Resource(resource) => {
                let changed = if resource.diff_properties.len() == 0 { None } else { Some(resource.diff_properties) };
                SetResult::Resource(ResourceSetResponse {
                    before_state: resource.actual_state,
                    after_state: resource.desired_state,
                    changed_properties: changed,
                })
            },
            TestResult::Group(group) => {
                let mut results: Vec<ResourceSetResult> = Vec::new();
                let ghost all = group.results@;
                assert(orig->Group_0.results@ == all);
                let mut rest = group.results;
                let total = rest.len();
                assert(all.len() == total);
                let mut taken: usize = 0;
                while rest.len() > 0
                    invariant
                        orig is Group,
                        orig == value,
                        orig->Group_0.results@ == all,
                        all.len() <= usize::MAX,
                        taken + rest@.len() == all.len(),
                        rest@ == all.skip(taken as int),
                        results@.len() == taken,
                        forall|i: int| 0 <= i < taken ==> {
                            &&& (#[trigger] results@[i]).metadata is None
                            &&& results@[i].name == all[i].name
                            &&& results@[i].resource_type == all[i].resource_type
                            &&& set_of_test(results@[i].result, all[i].result)
                        },
                    decreases rest@.len(),
                {
                    let item = rest.remove(0);
                    assert(item == all[taken as int]);
                    assert(decreases_to!(orig => orig->Group_0));
                    assert(decreases_to!(orig->Group_0 => orig->Group_0.results));
                    assert(decreases_to!(orig->Group_0.results => orig->Group_0.results@));
                    assert(decreases_to!(orig->Group_0.results@ => orig->Group_0.results@[taken as int]));
                    assert(decreases_to!(orig->Group_0.results@[taken as int] => orig->Group_0.results@[taken as int].result));
                    assert(decreases_to!(value => item.result));
                    results.push(ResourceSetResult {
                        metadata: None,
                        name: item.name,
                        resource_type: item.resource_type,
                        result: SetResult::from_test_result(item.result),
                    });
                    taken = taken + 1;
                    assert(rest@ =~= all.skip(taken as int));
                }
                assert(taken == all.len());
                SetResult::Group(GroupResourceSetResponse { results })
            },
        }
    }
}

impl GetResult {
    /// The get outcome that a test outcome stands for.
    pub fn from_test_result(value: TestResult) -> (r: GetResult)
        ensures
            get_of_test(r, value),
        decreases value,
    {
        let ghost orig = value;
        match value {
            TestResult::Resource(resource) => GetResult::Resource(ResourceGetResponse { actual_state: resource.actual_state }),
            TestResult::Group(group) => {
                let mut results: Vec<ResourceGetResult> = Vec::new();
                let ghost all = group.results@;
                assert(orig->Group_0.results@ == all);
                let mut rest = group.results;
                let total = rest.len();
                assert(all.len() == total);
                let mut taken: usize = 0;
                while rest.len() > 0
                    invariant
                        orig is Group,
                        orig == value,
                        orig->Group_0.results@ == all,
                        all.len() <= usize::MAX,
                        taken + rest@.len() == all.len(),
                        rest@ == all.skip(taken as int),
                        results@.len() == taken,
                        forall|i: int| 0 <= i < taken ==> {
                            &&& (#[trigger] results@[i]).metadata is None
                            &&& results@[i].name == all[i].name
                            &&& results@[i].resource_type == all[i].resource_type
                            &&& get_of_test(results@[i].result, all[i].result)
                        },
                    decreases rest@.len(),
                {
                    let item = rest.remove(0);
                    assert(item == all[taken as int]);
                    assert(decreases_to!(orig => orig->Group_0));
                    assert(decreases_to!(orig->Group_0 => orig->Group_0.results));
                    assert(decreases_to!(orig->Group_0.results => orig->Group_0.results@));
                    assert(decreases_to!(orig->Group_0.results@ => orig->Group_0.results@[taken as int]));
                    assert(decreases_to!(orig->Group_0.results@[taken as int] => orig->Group_0.results@[taken as int].result));
                    assert(decreases_to!(value => item.result));
                    results.push(ResourceGetResult {
                        metadata: None,
                        name: item.name,
                        resource_type: item.resource_type,
                        result: GetResult::from_test_result(item.result),
                    });
                    taken = taken + 1;
                    assert(rest@ =~= all.skip(taken as int));
                }
                assert(taken == all.len());
                GetResult::Group(results)
            },
        }
    }
}


impl ResourceGetResult {
    /// The get outcome of a resource that its test outcome stands for.
    pub fn from_test_result(test_result: ResourceTestResult) -> (r: ResourceGetResult)
        ensures
            r.metadata is None,
            r.name == test_result.name,
            r.resource_type == test_result.resource_type,
            get_of_test(r.result, test_result.result),
    {
        ResourceGetResult {
            metadata: None,
            name: test_result.name,
            resource_type: test_result.resource_type,
            result: GetResult::from_test_result(test_result.result),
        }
    }
}

impl ResourceSetResult {
    /// The set outcome of a resource that its test outcome stands for.
    pub fn from_test_result(test_result: ResourceTestResult) -> (r: ResourceSetResult)
        ensures
            r.metadata is None,
            r.name == test_result.name,
            r.resource_type == test_result.resource_type,
            set_of_test(r.result, test_result.result),
    {
        ResourceSetResult {
            metadata: None,
            name: test_result.name,
            resource_type: test_result.resource_type,
            result: SetResult::from_test_result(test_result.result),
        }
    }
}

impl ConfigurationGetResult {
    /// The get outcome of a configuration that its test outcome stands for:
    /// each resource's, with the messages and the error flag kept.
    pub fn from_test_result(test_result: ConfigurationTestResult) -> (r: ConfigurationGetResult)
        ensures
            r.metadata is None,
            r.messages == test_result.messages,
            r.had_errors == test_result.had_errors,
            r.results@.len() == test_result.results@.len(),
            forall|i: int| 0 <= i < r.results@.len() ==> {
                &&& (#[trigger] r.results@[i]).metadata is None
                &&& r.results@[i].name == test_result.results@[i].name
                &&& r.results@[i].resource_type == test_result.results@[i].resource_type
                &&& get_of_test(r.results@[i].result, test_result.results@[i].result)
            },
    {
        let ghost all = test_result.results@;
        let mut rest = test_result.results;
        let total = rest.len();
        let mut results: Vec<ResourceGetResult> = Vec::new();
        let mut taken: usize = 0;
        while rest.len() > 0
            invariant
                taken + rest@.len() == all.len(),
                all.len() == total,
                rest@ == all.skip(taken as int),
                results@.len() == taken,
                forall|i: int| 0 <= i < taken ==> {
                    &&& (#[trigger] results@[i]).metadata is None
                    &&& results@[i].name == all[i].name
                    &&& results@[i].resource_type == all[i].resource_type
                    &&& get_of_test(results@[i].result, all[i].result)
                },
            decreases rest@.len(),
        {
            let item = rest.remove(0);
            assert(item == all[taken as int]);
            results.push(ResourceGetResult::from_test_result(item));
            taken = taken + 1;
            assert(rest@ =~= all.skip(taken as int));
        }
        ConfigurationGetResult {
            metadata: None,
            results,
            messages: test_result.messages,
            had_errors: test_result.had_errors,
        }
    }
}

} // verus!
