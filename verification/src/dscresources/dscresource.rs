//! Resources and the comparison of a desired state with an actual one.

use vstd::prelude::*;
use vstd::string::StringExecFns;

use crate::json::{find_key, find_member, has_key, json_eq, json_equals, lemma_find_key, JsonValue};
use crate::strings::str_equal;
use crate::dscresources::resource_manifest::Kind;

verus! {

/// What a resource can do.
#[derive(Debug, Clone, Copy, PartialEq, Eq, Structural)]
pub enum Capability {
    /// The resource supports retrieving configuration.
    Get,
    /// The resource supports applying configuration.
    SetState,
    /// The resource supports the `_exist` property directly.
    SetHandlesExist,
    /// The resource supports simulating configuration directly.
    WhatIf,
    /// The resource supports validating configuration.
    Test,
    /// The resource supports deleting configuration.
    Delete,
    /// The resource supports exporting configuration.
    Export,
    /// The resource supports resolving imported configuration.
    Resolve,
}

/// How a resource is implemented.
#[derive(Debug)]
pub enum ImplementedAs {
    /// A command line executable
    Command,
    /// A custom resource
    Custom(String),
}

/// A resource found on the system.
#[derive(Debug)]
pub struct DscResource {
    /// The namespaced name of the resource.
    pub resource_type: String,
    /// The kind of resource.
    pub kind: Kind,
    /// The version of the resource.
    pub version: String,
    /// The capabilities of the resource.
    pub capabilities: Vec<Capability>,
    /// The file path to the resource.
    pub path: String,
    /// The description of the resource.
    pub description: Option<String>,
    /// The directory path to the resource.
    pub directory: String,
    /// The implementation of the resource.
    pub implemented_as: ImplementedAs,
    /// The author of the resource.
    pub author: Option<String>,
    /// The properties of the resource.
    pub properties: Vec<String>,
    /// The required resource adapter for the resource.
    pub require_adapter: Option<String>,
    /// The manifest of the resource.
    pub manifest: Option<JsonValue>,
}

/// Whether two optional strings are equal.
pub open spec fn opt_text_eq(a: Option<String>, b: Option<String>) -> bool {
    match (a, b) {
        (Some(x), Some(y)) => x@ == y@,
        (None, None) => true,
        _ => false,
    }
}

/// Whether two resources are the same.
pub open spec fn resource_same(a: DscResource, b: DscResource) -> bool {
    &&& a.resource_type@ == b.resource_type@
    &&& a.kind == b.kind
    &&& a.version@ == b.version@
    &&& a.capabilities@ == b.capabilities@
    &&& a.path@ == b.path@
    &&& opt_text_eq(a.description, b.description)
    &&& a.directory@ == b.directory@
    &&& match (a.implemented_as, b.implemented_as) {
        (ImplementedAs::Command, ImplementedAs::Command) => true,
        (ImplementedAs::Custom(x), ImplementedAs::Custom(y)) => x@ == y@,
        _ => false,
    }
    &&& opt_text_eq(a.author, b.author)
    &&& string_views(a.properties@) == string_views(b.properties@)
    &&& opt_text_eq(a.require_adapter, b.require_adapter)
    &&& match (a.manifest, b.manifest) {
        (Some(x), Some(y)) => crate::json::json_same(x, y),
        (None, None) => true,
        _ => false,
    }
}

pub(crate) fn copy_opt_text(a: &Option<String>) -> (r: Option<String>)
    ensures
        opt_text_eq(r, *a),
{
    match a {
        Some(x) => Some(x.clone()),
        None => None,
    }
}

pub(crate) fn copy_texts(v: &Vec<String>) -> (r: Vec<String>)
    ensures
        string_views(r@) == string_views(v@),
{
    let mut out: Vec<String> = Vec::new();
    let mut i: usize = 0;
    while i < v.len()
        invariant
            i <= v@.len(),
            string_views(out@) == string_views(v@.take(i as int)),
        decreases v@.len() - i,
    {
        let ghost before = out@;
        out.push(v[i].clone());
        assert(string_views(out@) =~= string_views(before).push(v@[i as int]@));
        assert(string_views(v@.take(i + 1)) =~= string_views(v@.take(i as int)).push(v@[i as int]@));
        i = i + 1;
    }
    assert(v@.take(v@.len() as int) =~= v@);
    out
}

pub(crate) fn copy_capabilities(v: &Vec<Capability>) -> (r: Vec<Capability>)
    ensures
        r@ == v@,
{
    let mut out: Vec<Capability> = Vec::new();
    let mut i: usize = 0;
    while i < v.len()
        invariant
            i <= v@.len(),
            out@ == v@.take(i as int),
        decreases v@.len() - i,
    {
        out.push(v[i]);
        assert(v@.take(i + 1) =~= v@.take(i as int).push(v@[i as int]));
        i = i + 1;
    }
    assert(v@.take(v@.len() as int) =~= v@);
    out
}

impl DscResource {
    /// A resource with nothing set: a command resource of kind `Resource`.
    pub fn new() -> (r: Self)
        ensures
            r.resource_type@.len() == 0,
            r.kind == Kind::Resource,
            r.version@.len() == 0,
            r.capabilities@.len() == 0,
            r.path@.len() == 0,
            r.description is None,
            r.directory@.len() == 0,
            r.implemented_as is Command,
            r.author is None,
            r.properties@.len() == 0,
            r.require_adapter is None,
            r.manifest is None,
    {
        DscResource {
            resource_type: String::new(),
            kind: Kind::Resource,
            version: String::new(),
            capabilities: Vec::new(),
            path: String::new(),
            description: None,
            directory: String::new(),
            implemented_as: ImplementedAs::Command,
            author: None,
            properties: Vec::new(),
            require_adapter: None,
            manifest: None,
        }
    }

    /// A copy of the resource.
    pub fn deep_copy(&self) -> (r: DscResource)
        ensures
            resource_same(r, *self),
    {
        DscResource {
            resource_type: self.resource_type.clone(),
            kind: self.kind,
            version: self.version.clone(),
            capabilities: copy_capabilities(&self.capabilities),
            path: self.path.clone(),
            description: copy_opt_text(&self.description),
            directory: self.directory.clone(),
            implemented_as: match &self.implemented_as {
                ImplementedAs::Command => ImplementedAs::Command,
                ImplementedAs::Custom(s) => ImplementedAs::Custom(s.clone()),
            },
            author: copy_opt_text(&self.author),
            properties: copy_texts(&self.properties),
            require_adapter: copy_opt_text(&self.require_adapter),
            manifest: match &self.manifest {
                Some(m) => Some(m.deep_copy()),
                None => None,
            },
        }
    }
}

/// Whether every nesting of `v` ends within `n` levels.
pub open spec fn within_depth(v: JsonValue, n: nat) -> bool
    decreases n,
{
    if n == 0 {
        false
    } else {
        match v {
            JsonValue::Array(xs) => forall|i: int| 0 <= i < xs@.len() ==> within_depth(#[trigger] xs@[i], (n - 1) as nat),
            JsonValue::Object(ms) => forall|i: int| 0 <= i < ms@.len() ==> within_depth(#[trigger] ms@[i].1, (n - 1) as nat),
            _ => true,
        }
    }
}

/// A deeper bound holds whenever a shallower one does.
pub proof fn lemma_within_depth_mono(v: JsonValue, n: nat, m: nat)
    requires
        within_depth(v, n),
        n <= m,
    ensures
        within_depth(v, m),
    decreases v,
{
    match v {
        JsonValue::Array(xs) => {
            assert forall|i: int| 0 <= i < xs@.len() implies within_depth(#[trigger] xs@[i], (m - 1) as nat) by {
                assert(decreases_to!(v => xs));
                assert(decreases_to!(xs => xs@));
                assert(decreases_to!(xs@ => xs@[i]));
                lemma_within_depth_mono(xs@[i], (n - 1) as nat, (m - 1) as nat);
            }
        },
        JsonValue::Object(ms) => {
            assert forall|i: int| 0 <= i < ms@.len() implies within_depth(#[trigger] ms@[i].1, (m - 1) as nat) by {
                assert(decreases_to!(v => ms));
                assert(decreases_to!(ms => ms@));
                assert(decreases_to!(ms@ => ms@[i]));
                assert(decreases_to!(ms@[i] => ms@[i].1));
                lemma_within_depth_mono(ms@[i].1, (n - 1) as nat, (m - 1) as nat);
            }
        },
        _ => {},
    }
}

/// The items of an array, and the member values of an object, are within
/// one level less than it.
pub proof fn lemma_within_depth_child(v: JsonValue, n: nat)
    requires
        within_depth(v, n),
    ensures
        n >= 1,
        v matches JsonValue::Array(xs) ==> forall|i: int| 0 <= i < xs@.len() ==> within_depth(#[trigger] xs@[i], (n - 1) as nat),
        v matches JsonValue::Object(ms) ==> forall|i: int| 0 <= i < ms@.len() ==> within_depth(#[trigger] ms@[i].1, (n - 1) as nat),
{
}

/// Every value has a depth bound.
pub proof fn lemma_depth(v: JsonValue) -> (d: nat)
    ensures
        within_depth(v, d),
    decreases v, 1nat,
{
    match v {
        JsonValue::Array(xs) => {
            assert(decreases_to!(v => xs));
            assert(decreases_to!(xs => xs@));
            let m = lemma_depth_items(xs@);
            m + 1
        },
        JsonValue::Object(ms) => {
            assert(decreases_to!(v => ms));
            assert(decreases_to!(ms => ms@));
            let m = lemma_depth_members(ms@);
            m + 1
        },
        _ => 1,
    }
}

proof fn lemma_depth_items(xs: Seq<JsonValue>) -> (d: nat)
    ensures
        forall|i: int| 0 <= i < xs.len() ==> within_depth(#[trigger] xs[i], d),
    decreases xs, 0nat,
{
    if xs.len() == 0 {
        0
    } else {
        let init = xs.subrange(0, xs.len() - 1);
        assert(decreases_to!(xs => init));
        let a = lemma_depth_items(init);
        assert(decreases_to!(xs => xs[xs.len() - 1]));
        let b = lemma_depth(xs[xs.len() - 1]);
        let m = if a >= b { a } else { b };
        assert forall|i: int| 0 <= i < xs.len() implies within_depth(#[trigger] xs[i], m) by {
            if i < xs.len() - 1 {
                assert(init[i] == xs[i]);
                lemma_within_depth_mono(xs[i], a, m);
            } else {
                lemma_within_depth_mono(xs[i], b, m);
            }
        }
        m
    }
}

proof fn lemma_depth_members(ms: Seq<(String, JsonValue)>) -> (d: nat)
    ensures
        forall|i: int| 0 <= i < ms.len() ==> within_depth(#[trigger] ms[i].1, d),
    decreases ms, 0nat,
{
    if ms.len() == 0 {
        0
    } else {
        let init = ms.subrange(0, ms.len() - 1);
        assert(decreases_to!(ms => init));
        let a = lemma_depth_members(init);
        assert(decreases_to!(ms => ms[ms.len() - 1]));
        assert(decreases_to!(ms[ms.len() - 1] => ms[ms.len() - 1].1));
        let b = lemma_depth(ms[ms.len() - 1].1);
        let m = if a >= b { a } else { b };
        assert forall|i: int| 0 <= i < ms.len() implies within_depth(#[trigger] ms[i].1, m) by {
            if i < ms.len() - 1 {
                assert(init[i] == ms[i]);
                lemma_within_depth_mono(ms[i].1, a, m);
            } else {
                lemma_within_depth_mono(ms[i].1, b, m);
            }
        }
        m
    }
}

/// A depth bound of `v`.
pub open spec fn depth_bound(v: JsonValue) -> nat {
    choose|d: nat| within_depth(v, d)
}

/// `depth_bound` is a depth bound.
pub proof fn lemma_depth_bound(v: JsonValue)
    ensures
        within_depth(v, depth_bound(v)),
{
    let d = lemma_depth(v);
    assert(within_depth(v, d));
}

/// The value of `key` in the actual state once the well-known `_exist`
/// property has been filled in: `true` when an object lacks it or has it
/// null, null when an object lacks another key or the state is no object.
pub open spec fn actual_at(a: JsonValue, key: Seq<char>) -> JsonValue {
    match a {
        JsonValue::Object(ms) => {
            let k = find_key(ms@, key);
            if key == "_exist"@ && (k < 0 || ms@[k].1 is Null) {
                JsonValue::Bool(true)
            } else if k < 0 {
                JsonValue::Null
            } else {
                ms@[k].1
            }
        },
        _ => JsonValue::Null,
    }
}

/// Whether the actual state, with `_exist` filled in, has `key`.
pub open spec fn actual_has(a: JsonValue, key: Seq<char>) -> bool {
    match a {
        JsonValue::Object(ms) => find_key(ms@, key) >= 0 || key == "_exist"@,
        _ => false,
    }
}

/// The keys of `expected` on which `actual` differs, with `n` steps of
/// recursion to spend: none unless `expected` is an object; its members
/// in order, then `_exist` (expected `true`) when it does not have one.
pub open spec fn diff_fuel(n: nat, e: JsonValue, a: JsonValue) -> Seq<Seq<char>>
    decreases n, 0nat, 0nat,
{
    if n == 0 {
        Seq::empty()
    } else {
        match e {
            JsonValue::Object(ms) => diff_members((n - 1) as nat, ms@, a) + if has_key(ms@, "_exist"@) {
                Seq::empty()
            } else {
                entry_diff((n - 1) as nat, "_exist"@, JsonValue::Bool(true), a)
            },
            _ => Seq::empty(),
        }
    }
}

/// The differing keys among the members `ms` of the expected state.
pub open spec fn diff_members(n: nat, ms: Seq<(String, JsonValue)>, a: JsonValue) -> Seq<Seq<char>>
    decreases n, ms.len(), 0nat,
{
    if ms.len() == 0 {
        Seq::empty()
    } else {
        diff_members(n, ms.drop_last(), a) + entry_diff(n, ms.last().0@, ms.last().1, a)
    }
}

/// `[key]` when the expected member `key: value` differs from the actual
/// state, else nothing: objects are compared recursively, arrays without
/// regard to order, other values by equality; `$schema` is never compared.
pub open spec fn entry_diff(n: nat, key: Seq<char>, value: JsonValue, a: JsonValue) -> Seq<Seq<char>>
    decreases n, 0nat, 0nat,
{
    if n == 0 {
        Seq::empty()
    } else if value is Object {
        if diff_fuel((n - 1) as nat, value, actual_at(a, key)).len() > 0 { seq![key] } else { Seq::empty() }
    } else if key == "$schema"@ {
        Seq::empty()
    } else if !actual_has(a, key) {
        seq![key]
    } else {
        match (value, actual_at(a, key)) {
            (JsonValue::Array(vs), JsonValue::Array(ws)) => if same_array_fuel((n - 1) as nat, vs@, ws@) { Seq::empty() } else { seq![key] },
            (JsonValue::Array(_), _) => seq![key],
            _ => if json_eq(value, actual_at(a, key)) { Seq::empty() } else { seq![key] },
        }
    }
}

/// Whether two arrays have the same length and their items can be paired
/// off: the first expected item takes the first actual item that matches
/// it, and the rest of the expected items are paired off in the same way
/// with the actual items that are left.
pub open spec fn same_array_fuel(n: nat, es: Seq<JsonValue>, acts: Seq<JsonValue>) -> bool
    decreases n, es.len(), 0nat,
{
    if n == 0 {
        true
    } else if es.len() != acts.len() {
        false
    } else if es.len() == 0 {
        true
    } else {
        let j = first_match((n - 1) as nat, es[0], acts);
        0 <= j && same_array_fuel(n, es.drop_first(), acts.remove(j))
    }
}

/// The index of the first item of `acts` that matches `find`, or -1.
pub open spec fn first_match(n: nat, find: JsonValue, acts: Seq<JsonValue>) -> int
    decreases n, 1nat, acts.len(),
{
    if acts.len() == 0 {
        -1
    } else if items_match(n, find, acts[0]) {
        0
    } else {
        let r = first_match(n, find, acts.drop_first());
        if r < 0 { -1 } else { r + 1 }
    }
}

/// Whether `item` matches `find`: equal booleans, numbers, strings or
/// nulls, objects where `find` has no differing key, or arrays that are the
/// same regardless of order.
pub open spec fn items_match(n: nat, find: JsonValue, item: JsonValue) -> bool
    decreases n, 0nat, 0nat,
{
    match (find, item) {
        (JsonValue::Bool(x), JsonValue::Bool(y)) => x == y,
        (JsonValue::Number(x), JsonValue::Number(y)) => x == y,
        (JsonValue::Null, JsonValue::Null) => true,
        (JsonValue::String(x), JsonValue::String(y)) => x@ == y@,
        (JsonValue::Object(_), JsonValue::Object(_)) => n > 0 && diff_fuel((n - 1) as nat, find, item).len() == 0,
        (JsonValue::Array(fs), JsonValue::Array(is)) => n > 0 && same_array_fuel((n - 1) as nat, is@, fs@),
        _ => false,
    }
}

/// Whether an item of `arr` matches `find`.
pub open spec fn contains_fuel(n: nat, arr: Seq<JsonValue>, find: JsonValue) -> bool {
    n > 0 && exists|j: int| 0 <= j < arr.len() && items_match(n, find, #[trigger] arr[j])
}

/// The fuel that `diff_fuel` needs for values within depths `p` and `q`.
pub open spec fn fuel(p: nat, q: nat) -> nat {
    4 * (p + q) + 10
}

/// The top-level properties of `expected` that differ in `actual`.
pub open spec fn json_diff(e: JsonValue, a: JsonValue) -> Seq<Seq<char>> {
    diff_fuel(fuel(depth_bound(e), depth_bound(a)), e, a)
}

/// Whether two arrays hold the same items regardless of order.
pub open spec fn same_array(es: Vec<JsonValue>, acts: Vec<JsonValue>) -> bool {
    same_array_fuel(fuel(depth_bound(JsonValue::Array(es)), depth_bound(JsonValue::Array(acts))), es@, acts@)
}

/// Whether an item of `arr` matches `find`.
pub open spec fn array_contains_spec(arr: Vec<JsonValue>, find: JsonValue) -> bool {
    contains_fuel((fuel(depth_bound(find), depth_bound(JsonValue::Array(arr))) - 1) as nat, arr@, find)
}

/// The views of a sequence of strings.
pub open spec fn string_views(v: Seq<String>) -> Seq<Seq<char>> {
    v.map_values(|s: String| s@)
}

/// The well-known properties and the values they take when absent.
pub fn get_well_known_properties() -> (r: Vec<(String, JsonValue)>)
    ensures
        r@.len() == 1,
        r@[0].0@ == "_exist"@,
        r@[0].1 == JsonValue::Bool(true),
{
    let mut r: Vec<(String, JsonValue)> = Vec::new();
    r.push((String::from_str("_exist"), JsonValue::Bool(true)));
    r
}

/// Where the actual value of a key is found.
enum ActualAt {
    Member(usize),
    Missing,
    ExistDefault,
}

fn locate(a: &JsonValue, key: &String) -> (r: ActualAt)
    ensures
        match (r, *a) {
            (ActualAt::Member(k), JsonValue::Object(ms)) => k < ms@.len() && actual_at(*a, key@) == ms@[k as int].1 && actual_has(*a, key@),
            (ActualAt::Missing, _) => actual_at(*a, key@) == JsonValue::Null && !actual_has(*a, key@),
            (ActualAt::ExistDefault, JsonValue::Object(_)) => actual_at(*a, key@) == JsonValue::Bool(true) && actual_has(*a, key@),
            _ => false,
        },
{
    match a {
        JsonValue::Object(ms) => {
            proof { lemma_find_key(ms@, key@); }
            let is_exist = str_equal(key.as_str(), "_exist");
            match find_member(ms, key) {
                Some(k) => {
                    if is_exist && matches!(ms[k].1, JsonValue::Null) {
                        ActualAt::ExistDefault
                    } else {
                        ActualAt::Member(k)
                    }
                },
                None => if is_exist {
                    ActualAt::ExistDefault
                } else {
                    ActualAt::Missing
                },
            }
        },
        _ => ActualAt::Missing,
    }
}

fn diff_rec(e: &JsonValue, a: &JsonValue, Ghost(n): Ghost<nat>, Ghost(p): Ghost<nat>, Ghost(q): Ghost<nat>) -> (r: Vec<String>)
    requires
        within_depth(*e, p),
        within_depth(*a, q),
        n >= fuel(p, q),
    ensures
        string_views(r@) == diff_fuel(n, *e, *a),
    decreases n, 0nat,
{
    let mut out: Vec<String> = Vec::new();
    match e {
        JsonValue::Object(ms) => {
            let mut i: usize = 0;
            while i < ms.len()
                invariant
                    i <= ms@.len(),
                    *e == JsonValue::Object(*ms),
                    within_depth(*e, p),
                    within_depth(*a, q),
                    n >= fuel(p, q),
                    string_views(out@) == diff_members((n - 1) as nat, ms@.take(i as int), *a),
                decreases ms@.len() - i,
            {
                proof { lemma_within_depth_child(*e, p); }
                assert(within_depth(ms@[i as int].1, (p - 1) as nat));
                let d = entry_rec(&ms[i].0, &ms[i].1, a, Ghost((n - 1) as nat), Ghost((p - 1) as nat), Ghost(q));
                proof {
                    let t = ms@.take(i + 1);
                    assert(t.drop_last() =~= ms@.take(i as int));
                    assert(t.last() == ms@[i as int]);
                }
                append_strings(&mut out, d);
                proof {
                    assert(diff_members((n - 1) as nat, ms@.take(i + 1), *a) == diff_members((n - 1) as nat, ms@.take(i as int), *a) + entry_diff((n - 1) as nat, ms@[i as int].0@, ms@[i as int].1, *a));
                }
                i = i + 1;
            }
            assert(ms@.take(ms@.len() as int) =~= ms@);
            let exist = String::from_str("_exist");
            proof { lemma_find_key(ms@, exist@); }
            if find_member(ms, &exist).is_none() {
                let t = JsonValue::Bool(true);
                let d = entry_rec(&exist, &t, a, Ghost((n - 1) as nat), Ghost(1nat), Ghost(q));
                append_strings(&mut out, d);
            } else {
                assert(has_key(ms@, "_exist"@));
            }
            out
        },
        _ => out,
    }
}

fn append_strings(out: &mut Vec<String>, more: Vec<String>)
    ensures
        string_views(final(out)@) == string_views(old(out)@) + string_views(more@),
{
    let mut more = more;
    let ghost orig = more@;
    let mut k: usize = 0;
    while k < more.len()
        invariant
            k <= more@.len(),
            more@ == orig,
            string_views(out@) == string_views(old(out)@) + string_views(orig.take(k as int)),
        decreases more@.len() - k,
    {
        let ghost before = out@;
        out.push(more[k].clone());
        proof {
            assert(orig.take(k + 1) =~= orig.take(k as int).push(orig[k as int]));
            assert(string_views(out@) =~= string_views(before).push(orig[k as int]@));
            assert(string_views(orig.take(k + 1)) =~= string_views(orig.take(k as int)).push(orig[k as int]@));
        }
        k = k + 1;
    }
    assert(orig.take(orig.len() as int) =~= orig);
}

fn entry_rec(key: &String, value: &JsonValue, a: &JsonValue, Ghost(n): Ghost<nat>, Ghost(p): Ghost<nat>, Ghost(q): Ghost<nat>) -> (r: Vec<String>)
    requires
        within_depth(*value, p),
        within_depth(*a, q),
        n >= 1,
        (*value is Object || *value is Array) ==> n >= fuel(p, q) + 1,
    ensures
        string_views(r@) == entry_diff(n, key@, *value, *a),
    decreases n, 0nat,
{
    let mut out: Vec<String> = Vec::new();
    let at = locate(a, key);
    let null_value = JsonValue::Null;
    let true_value = JsonValue::Bool(true);
    let actual: &JsonValue = match at {
        ActualAt::Member(k) => match a {
            JsonValue::Object(ms) => &ms[k].1,
            _ => &null_value,
        },
        ActualAt::Missing => &null_value,
        ActualAt::ExistDefault => &true_value,
    };
    proof {
        if let ActualAt::Member(k) = at {
            let ms = a->Object_0;
            assert(within_depth(ms@[k as int].1, (q - 1) as nat));
            lemma_within_depth_mono(ms@[k as int].1, (q - 1) as nat, q);
        }
        assert(*actual == actual_at(*a, key@));
        assert(within_depth(*actual, q));
    }
    match value {
        JsonValue::Object(_) => {
            let sub = diff_rec(value, actual, Ghost((n - 1) as nat), Ghost(p), Ghost(q));
            if sub.len() > 0 {
                out.push(key.clone());
                assert(string_views(out@) =~= seq![key@]);
            } else {
                assert(string_views(out@) =~= Seq::<Seq<char>>::empty());
            }
            return out;
        },
        _ => {},
    }
    if str_equal(key.as_str(), "$schema") {
        assert(string_views(out@) =~= Seq::<Seq<char>>::empty());
        return out;
    }
    let differs = match at {
        ActualAt::Missing => true,
        _ => match (value, actual) {
            (JsonValue::Array(vs), JsonValue::Array(ws)) => {
                !same_rec(vs, ws, Ghost((n - 1) as nat), Ghost(p), Ghost(q))
            },
            (JsonValue::Array(_), _) => true,
            _ => !json_equals(value, actual),
        },
    };
    if differs {
        out.push(key.clone());
        assert(string_views(out@) =~= seq![key@]);
    } else {
        assert(string_views(out@) =~= Seq::<Seq<char>>::empty());
    }
    out
}

fn same_rec(es: &Vec<JsonValue>, acts: &Vec<JsonValue>, Ghost(n): Ghost<nat>, Ghost(p): Ghost<nat>, Ghost(q): Ghost<nat>) -> (r: bool)
    requires
        within_depth(JsonValue::Array(*es), p),
        within_depth(JsonValue::Array(*acts), q),
        n >= fuel(p, q),
    ensures
        r == same_array_fuel(n, es@, acts@),
    decreases n, 0nat,
{
    if es.len() != acts.len() {
        return false;
    }
    let mut rest: Vec<usize> = Vec::new();
    let mut k: usize = 0;
    while k < acts.len()
        invariant
            k <= acts@.len(),
            rest@.len() == k,
            forall|t: int| 0 <= t < k ==> rest@[t] == t,
        decreases acts@.len() - k,
    {
        rest.push(k);
        k = k + 1;
    }
    let ghost mut left: Seq<JsonValue> = acts@;
    assert(es@.skip(0) =~= es@);
    let mut i: usize = 0;
    while i < es.len()
        invariant
            i <= es@.len(),
            es@.len() == acts@.len(),
            within_depth(JsonValue::Array(*es), p),
            within_depth(JsonValue::Array(*acts), q),
            n >= fuel(p, q),
            left.len() == rest@.len(),
            left.len() == es@.len() - i,
            forall|t: int| #![trigger left[t]] #![trigger rest@[t]] 0 <= t < rest@.len() ==> (rest@[t] < acts@.len() && left[t] == acts@[rest@[t] as int]),
            same_array_fuel(n, es@, acts@) == same_array_fuel(n, es@.skip(i as int), left),
        decreases es@.len() - i,
    {
        proof {
            assert(i < es@.len());
            lemma_within_depth_child(JsonValue::Array(*es), p);
            assert(within_depth(es@[i as int], (p - 1) as nat));
            lemma_within_depth_child(JsonValue::Array(*acts), q);
        }
        let mut t: usize = 0;
        let mut found = false;
        assert(left.skip(0) =~= left);
        while t < rest.len() && !found
            invariant
                t <= rest@.len(),
                left.len() == rest@.len(),
                i < es@.len(),
                found ==> t < rest@.len() && items_match((n - 1) as nat, es@[i as int], left[t as int]),
                forall|u: int| #![trigger left[u]] #![trigger rest@[u]] 0 <= u < rest@.len() ==> (rest@[u] < acts@.len() && left[u] == acts@[rest@[u] as int]),
                within_depth(es@[i as int], (p - 1) as nat),
                forall|u: int| 0 <= u < acts@.len() ==> within_depth(#[trigger] acts@[u], (q - 1) as nat),
                n >= fuel(p, q),
                p >= 1,
                q >= 1,
                first_match((n - 1) as nat, es@[i as int], left) == first_match((n - 1) as nat, es@[i as int], left.skip(t as int)) + if first_match((n - 1) as nat, es@[i as int], left.skip(t as int)) < 0 { 0int } else { t as int },
            decreases rest@.len() - t + if found { 0int } else { 1int },
        {
            assert(within_depth(acts@[rest@[t as int] as int], (q - 1) as nat));
            let m = match_rec(&es[i], &acts[rest[t]], Ghost((n - 1) as nat), Ghost((p - 1) as nat), Ghost((q - 1) as nat));
            proof {
                let sk = left.skip(t as int);
                assert(sk[0] == left[t as int]);
                assert(sk.drop_first() =~= left.skip(t + 1));
            }
            if m {
                found = true;
            } else {
                t = t + 1;
            }
        }
        if !found {
            proof {
                assert(left.skip(t as int).len() == 0);
                assert(es@.skip(i as int)[0] == es@[i as int]);
            }
            return false;
        }
        proof {
            let sk = left.skip(t as int);
            assert(sk[0] == left[t as int]);
            assert(first_match((n - 1) as nat, es@[i as int], sk) == 0);
            assert(first_match((n - 1) as nat, es@[i as int], left) == t);
            assert(es@.skip(i as int)[0] == es@[i as int]);
            assert(es@.skip(i as int).drop_first() =~= es@.skip(i + 1));
        }
        let ghost before = left;
        let ghost rest_before = rest@;
        rest.remove(t);
        proof {
            left = left.remove(t as int);
            assert forall|u: int| 0 <= u < rest@.len() implies rest@[u] < acts@.len() && #[trigger] left[u] == acts@[rest@[u] as int] by {
                if u < t {
                    assert(left[u] == before[u]);
                    assert(rest@[u] == rest_before[u]);
                    assert(before[u] == acts@[rest_before[u] as int]);
                } else {
                    assert(left[u] == before[u + 1]);
                    assert(rest@[u] == rest_before[u + 1]);
                    assert(before[u + 1] == acts@[rest_before[u + 1] as int]);
                }
            }
        }
        i = i + 1;
    }
    proof {
        assert(es@.skip(i as int).len() == 0);
    }
    true
}

fn match_rec(find: &JsonValue, item: &JsonValue, Ghost(n): Ghost<nat>, Ghost(p): Ghost<nat>, Ghost(q): Ghost<nat>) -> (r: bool)
    requires
        within_depth(*find, p),
        within_depth(*item, q),
        n >= fuel(p, q) + 2,
    ensures
        r == items_match(n, *find, *item),
    decreases n, 0nat,
{
    match (find, item) {
        (JsonValue::Bool(x), JsonValue::Bool(y)) => *x == *y,
        (JsonValue::Number(x), JsonValue::Number(y)) => *x == *y,
        (JsonValue::Null, JsonValue::Null) => true,
        (JsonValue::String(x), JsonValue::String(y)) => *x == *y,
        (JsonValue::Object(_), JsonValue::Object(_)) => {
            let d = diff_rec(find, item, Ghost((n - 1) as nat), Ghost(p), Ghost(q));
            d.len() == 0
        },
        (JsonValue::Array(fs), JsonValue::Array(is)) => {
            same_rec(is, fs, Ghost((n - 1) as nat), Ghost(q), Ghost(p))
        },
        _ => false,
    }
}

fn contains_rec(arr: &Vec<JsonValue>, find: &JsonValue, Ghost(n): Ghost<nat>, Ghost(p): Ghost<nat>, Ghost(q): Ghost<nat>) -> (r: bool)
    requires
        within_depth(*find, p),
        within_depth(JsonValue::Array(*arr), q),
        n + 1 >= fuel(p, q),
    ensures
        r == contains_fuel(n, arr@, *find),
{
    let mut j: usize = 0;
    while j < arr.len()
        invariant
            j <= arr@.len(),
            n > 0,
            within_depth(*find, p),
            within_depth(JsonValue::Array(*arr), q),
            n + 1 >= fuel(p, q),
            forall|k: int| 0 <= k < j ==> !items_match(n, *find, #[trigger] arr@[k]),
        decreases arr@.len() - j,
    {
        proof { lemma_within_depth_child(JsonValue::Array(*arr), q); }
        assert(within_depth(arr@[j as int], (q - 1) as nat));
        if match_rec(find, &arr[j], Ghost(n), Ghost(p), Ghost((q - 1) as nat)) {
            return true;
        }
        j = j + 1;
    }
    false
}

/// The top-level properties of `expected` whose values differ in `actual`:
/// none when `expected` is not an object; nested objects are compared
/// recursively, arrays regardless of order, a missing `_exist` counts as
/// `true`, and `$schema` is ignored.
pub fn get_diff(expected: &JsonValue, actual: &JsonValue) -> (r: Vec<String>)
    ensures
        string_views(r@) == json_diff(*expected, *actual),
{
    proof {
        lemma_depth_bound(*expected);
        lemma_depth_bound(*actual);
    }
    diff_rec(expected, actual, Ghost(fuel(depth_bound(*expected), depth_bound(*actual))), Ghost(depth_bound(*expected)), Ghost(depth_bound(*actual)))
}

/// Whether two arrays hold the same items regardless of order: they have
/// the same length, and each expected item in turn takes the first actual
/// item not yet taken that matches it.
pub fn is_same_array(expected: &Vec<JsonValue>, actual: &Vec<JsonValue>) -> (r: bool)
    ensures
        r == same_array(*expected, *actual),
{
    proof {
        lemma_depth_bound(JsonValue::Array(*expected));
        lemma_depth_bound(JsonValue::Array(*actual));
    }
    same_rec(expected, actual, Ghost(fuel(depth_bound(JsonValue::Array(*expected)), depth_bound(JsonValue::Array(*actual)))), Ghost(depth_bound(JsonValue::Array(*expected))), Ghost(depth_bound(JsonValue::Array(*actual))))
}

/// Whether an item of `array` matches `find`.
pub fn array_contains(array: &Vec<JsonValue>, find: &JsonValue) -> (r: bool)
    ensures
        r == array_contains_spec(*array, *find),
{
    proof {
        lemma_depth_bound(*find);
        lemma_depth_bound(JsonValue::Array(*array));
    }
    contains_rec(array, find, Ghost((fuel(depth_bound(*find), depth_bound(JsonValue::Array(*array))) - 1) as nat), Ghost(depth_bound(*find)), Ghost(depth_bound(JsonValue::Array(*array))))
}

} // verus!

verus! {

/// Whether a state can be compared with itself without a difference
/// showing: the names of every object are unique, and no object has
/// `_exist` as `null`.
pub open spec fn diff_wf(v: JsonValue) -> bool
    decreases v,
{
    match v {
        JsonValue::Object(ms) => {
            &&& forall|i: int, j: int| 0 <= i < j < ms@.len() ==> (#[trigger] ms@[i]).0@ != (#[trigger] ms@[j]).0@
            &&& forall|i: int| 0 <= i < ms@.len() && (#[trigger] ms@[i]).0@ == "_exist"@ ==> !(ms@[i].1 is Null)
            &&& forall|i: int| 0 <= i < ms@.len() ==> diff_wf(#[trigger] ms@[i].1)
        },
        JsonValue::Array(xs) => forall|i: int| 0 <= i < xs@.len() ==> diff_wf(#[trigger] xs@[i]),
        _ => true,
    }
}

proof fn lemma_diff_self(v: JsonValue, d: nat, n: nat)
    requires
        within_depth(v, d),
        diff_wf(v),
        n >= 2 * d + 2,
    ensures
        diff_fuel(n, v, v).len() == 0,
    decreases d, 2nat, 0nat,
{
    if let JsonValue::Object(ms) = v {
        lemma_members_self(v, d, (n - 1) as nat, ms@.len() as int);
        assert(ms@.take(ms@.len() as int) =~= ms@);
        if !has_key(ms@, "_exist"@) {
            lemma_find_key(ms@, "_exist"@);
            reveal(json_eq);
            reveal_strlit("_exist");
            reveal_strlit("$schema");
            assert("_exist"@ != "$schema"@) by {
                assert("_exist"@[0] != "$schema"@[0]);
            }
            if find_key(ms@, "_exist"@) >= 0 {
                assert(ms@[find_key(ms@, "_exist"@)].0@ == "_exist"@);
            }
        }
    }
}

proof fn lemma_members_self(v: JsonValue, d: nat, n: nat, k: int)
    requires
        v is Object,
        within_depth(v, d),
        diff_wf(v),
        n >= 2 * d + 1,
        0 <= k <= v->Object_0@.len(),
    ensures
        diff_members(n, v->Object_0@.take(k), v).len() == 0,
    decreases d, 1nat, k,
{
    let ms = v->Object_0@;
    if k > 0 {
        assert(ms.take(k).drop_last() =~= ms.take(k - 1));
        lemma_members_self(v, d, n, k - 1);
        lemma_entry_self(v, d, n, k - 1);
    }
}

proof fn lemma_entry_self(v: JsonValue, d: nat, n: nat, j: int)
    requires
        v is Object,
        within_depth(v, d),
        diff_wf(v),
        n >= 2 * d + 1,
        0 <= j < v->Object_0@.len(),
    ensures
        entry_diff(n, v->Object_0@[j].0@, v->Object_0@[j].1, v).len() == 0,
    decreases d, 0nat, 0nat,
{
    let ms = v->Object_0@;
    let key = ms[j].0@;
    let val = ms[j].1;
    lemma_within_depth_child(v, d);
    lemma_find_key(ms, key);
    let f = find_key(ms, key);
    assert(f == j) by {
        if f < j {
            assert(ms[f].0@ == ms[j].0@);
        } else if f > j {
            assert(ms[j].0@ == key);
        }
    }
    assert(actual_at(v, key) == val);
    assert(actual_has(v, key));
    assert(within_depth(val, (d - 1) as nat));
    assert(diff_wf(val));
    match val {
        JsonValue::Object(_) => {
            lemma_diff_self(val, (d - 1) as nat, (n - 1) as nat);
        },
        JsonValue::Array(_) => {
            lemma_same_array_self(val, (d - 1) as nat, (n - 1) as nat);
        },
        _ => {
            reveal(json_eq);
        },
    }
}

proof fn lemma_same_array_self(a: JsonValue, e: nat, m: nat)
    requires
        a is Array,
        within_depth(a, e),
        diff_wf(a),
        m >= 2 * e + 2,
    ensures
        same_array_fuel(m, a->Array_0@, a->Array_0@),
    decreases e, 3nat, 0nat,
{
    lemma_suffix_same(a, e, m, 0);
    assert(a->Array_0@.skip(0) =~= a->Array_0@);
}

proof fn lemma_suffix_same(a: JsonValue, e: nat, m: nat, k: int)
    requires
        a is Array,
        within_depth(a, e),
        diff_wf(a),
        m >= 2 * e + 2,
        0 <= k <= a->Array_0@.len(),
    ensures
        same_array_fuel(m, a->Array_0@.skip(k), a->Array_0@.skip(k)),
    decreases e, 2nat, a->Array_0@.len() - k,
{
    let xs = a->Array_0@;
    if k < xs.len() {
        lemma_item_self(a, k, e, (m - 1) as nat);
        let s = xs.skip(k);
        assert(s[0] == xs[k]);
        assert(first_match((m - 1) as nat, s[0], s) == 0);
        assert(s.remove(0) =~= xs.skip(k + 1));
        assert(s.drop_first() =~= xs.skip(k + 1));
        lemma_suffix_same(a, e, m, k + 1);
    }
}

proof fn lemma_item_self(a: JsonValue, i: int, e: nat, m: nat)
    requires
        a is Array,
        within_depth(a, e),
        diff_wf(a),
        m >= 2 * e + 1,
        0 <= i < a->Array_0@.len(),
    ensures
        items_match(m, a->Array_0@[i], a->Array_0@[i]),
    decreases e, 1nat, 0nat,
{
    let xs = a->Array_0@;
    let it = xs[i];
    lemma_within_depth_child(a, e);
    assert(within_depth(it, (e - 1) as nat));
    assert(diff_wf(it));
    match it {
        JsonValue::Object(_) => {
            lemma_diff_self(it, (e - 1) as nat, (m - 1) as nat);
        },
        JsonValue::Array(_) => {
            lemma_same_array_self(it, (e - 1) as nat, (m - 1) as nat);
        },
        _ => {},
    }
}

/// A state compared with itself shows no difference, when its objects have
/// unique names and none has `_exist` as `null`.
pub proof fn lemma_state_has_no_diff_with_itself(v: JsonValue)
    requires
        diff_wf(v),
    ensures
        json_diff(v, v).len() == 0,
{
    lemma_depth_bound(v);
    lemma_diff_self(v, depth_bound(v), fuel(depth_bound(v), depth_bound(v)));
}

/// An array is the same as itself regardless of order, when its items'
/// objects have unique names and none has `_exist` as `null`.
pub proof fn lemma_array_same_as_itself(xs: Vec<JsonValue>)
    requires
        diff_wf(JsonValue::Array(xs)),
    ensures
        same_array(xs, xs),
{
    let a = JsonValue::Array(xs);
    lemma_depth_bound(a);
    lemma_same_array_self(a, depth_bound(a), fuel(depth_bound(a), depth_bound(a)));
}

/// Whether a value is a plain item: null, a boolean, a number or a string.
pub open spec fn is_plain(v: JsonValue) -> bool {
    v is Null || v is Bool || v is Number || v is String
}

/// What an item is compared by when it is plain: its kind and its value.
/// Arrays and objects all share one key, which no plain item has.
pub open spec fn plain_key(v: JsonValue) -> (int, int, Seq<char>) {
    match v {
        JsonValue::Null => (0, 0, Seq::empty()),
        JsonValue::Bool(b) => (1, if b { 1int } else { 0int }, Seq::empty()),
        JsonValue::Number(x) => (2, x as int, Seq::empty()),
        JsonValue::String(t) => (3, 0, t@),
        _ => (4, 0, Seq::empty()),
    }
}

/// The keys of a sequence of items.
pub open spec fn plain_keys(s: Seq<JsonValue>) -> Seq<(int, int, Seq<char>)> {
    s.map_values(|v: JsonValue| plain_key(v))
}

proof fn lemma_plain_match(m: nat, f: JsonValue, a: JsonValue)
    requires
        is_plain(f),
    ensures
        items_match(m, f, a) <==> plain_key(f) == plain_key(a),
{
    match (f, a) {
        (JsonValue::Bool(x), JsonValue::Bool(y)) => {
            if plain_key(f) == plain_key(a) {
                assert(x == y);
            }
        },
        _ => {},
    }
}

proof fn lemma_first_match_plain(m: nat, f: JsonValue, acts: Seq<JsonValue>)
    requires
        is_plain(f),
    ensures
        first_match(m, f, acts) < acts.len(),
        first_match(m, f, acts) >= 0 ==> plain_key(acts[first_match(m, f, acts)]) == plain_key(f),
        first_match(m, f, acts) < 0 ==> !plain_keys(acts).contains(plain_key(f)),
    decreases acts.len(),
{
    if acts.len() > 0 {
        lemma_plain_match(m, f, acts[0]);
        lemma_first_match_plain(m, f, acts.drop_first());
        assert(plain_keys(acts.drop_first()) =~= plain_keys(acts).drop_first());
        let r = first_match(m, f, acts.drop_first());
        if r >= 0 {
            assert(acts.drop_first()[r] == acts[r + 1]);
        }
        if first_match(m, f, acts) < 0 {
            assert forall|i: int| 0 <= i < acts.len() implies plain_keys(acts)[i] != plain_key(f) by {
                if i > 0 {
                    assert(plain_keys(acts.drop_first())[i - 1] == plain_keys(acts)[i]);
                }
            }
        }
    }
}

proof fn lemma_plain_same(n: nat, es: Seq<JsonValue>, acts: Seq<JsonValue>)
    requires
        n > 0,
        forall|i: int| 0 <= i < es.len() ==> is_plain(#[trigger] es[i]),
    ensures
        same_array_fuel(n, es, acts) <==> plain_keys(es).to_multiset() =~= plain_keys(acts).to_multiset(),
    decreases es.len(),
{
    broadcast use vstd::multiset::group_multiset_axioms;
    broadcast use vstd::seq_lib::to_multiset_len;
    let ke = plain_keys(es);
    let ka = plain_keys(acts);
    vstd::seq_lib::to_multiset_len(ke);
    vstd::seq_lib::to_multiset_len(ka);
    if es.len() != acts.len() {
        assert(ke.len() != ka.len());
    } else if es.len() == 0 {
        vstd::multiset::lemma_multiset_empty_len(ke.to_multiset());
        vstd::multiset::lemma_multiset_empty_len(ka.to_multiset());
    } else {
        let e = es[0];
        let k = plain_key(e);
        let rest = es.drop_first();
        assert forall|i: int| 0 <= i < rest.len() implies is_plain(#[trigger] rest[i]) by {
            assert(rest[i] == es[i + 1]);
        }
        assert(ke =~= plain_keys(rest).insert(0, k));
        vstd::seq_lib::to_multiset_insert(plain_keys(rest), 0, k);
        assert(ke.to_multiset() =~= plain_keys(rest).to_multiset().insert(k));
        lemma_first_match_plain((n - 1) as nat, e, acts);
        let j = first_match((n - 1) as nat, e, acts);
        if j >= 0 {
            assert(plain_keys(acts.remove(j)) =~= ka.remove(j));
            vstd::seq_lib::to_multiset_remove(ka, j);
            assert(ka[j] == k);
            vstd::seq_lib::to_multiset_contains(ka, k);
            assert(ka.contains(k));
            lemma_plain_same(n, rest, acts.remove(j));
            assert(plain_keys(acts.remove(j)).to_multiset().insert(k) =~= ka.to_multiset());
            if plain_keys(rest).to_multiset() =~= plain_keys(acts.remove(j)).to_multiset() {
                assert(ke.to_multiset() =~= ka.to_multiset());
            }
            if ke.to_multiset() =~= ka.to_multiset() {
                assert(plain_keys(rest).to_multiset() =~= ke.to_multiset().remove(k));
            }
        } else {
            vstd::seq_lib::to_multiset_contains(ka, k);
            assert(ke.to_multiset().count(k) > 0);
        }
    }
}

/// Arrays whose expected items are plain (null, booleans, numbers and
/// strings) are the same regardless of order exactly when the actual array
/// is a reordering of the expected one: each item occurs in it as many
/// times as in the expected array.
pub proof fn lemma_plain_arrays_same_iff_reordering(es: Vec<JsonValue>, acts: Vec<JsonValue>)
    requires
        forall|i: int| 0 <= i < es@.len() ==> is_plain(#[trigger] es@[i]),
    ensures
        same_array(es, acts) <==> plain_keys(es@).to_multiset() == plain_keys(acts@).to_multiset(),
{
    lemma_plain_same(fuel(depth_bound(JsonValue::Array(es)), depth_bound(JsonValue::Array(acts))), es@, acts@);
}

proof fn lemma_left_contains(s1: Seq<Seq<char>>, s2: Seq<Seq<char>>, k: Seq<char>)
    requires
        s1.contains(k),
    ensures
        (s1 + s2).contains(k),
{
    let t = choose|t: int| 0 <= t < s1.len() && s1[t] == k;
    assert((s1 + s2)[t] == k);
}

proof fn lemma_members_report(n: nat, ms: Seq<(String, JsonValue)>, a: JsonValue, i: int, key: Seq<char>)
    requires
        0 <= i < ms.len(),
        entry_diff(n, ms[i].0@, ms[i].1, a).contains(key),
    ensures
        diff_members(n, ms, a).contains(key),
    decreases ms.len(),
{
    let d = ms.drop_last();
    if i == ms.len() - 1 {
        let e = entry_diff(n, ms.last().0@, ms.last().1, a);
        let t = choose|t: int| 0 <= t < e.len() && e[t] == key;
        assert((diff_members(n, d, a) + e)[diff_members(n, d, a).len() + t] == key);
    } else {
        assert(d[i] == ms[i]);
        lemma_members_report(n, d, a, i, key);
        lemma_left_contains(diff_members(n, d, a), entry_diff(n, ms.last().0@, ms.last().1, a), key);
    }
}

/// A nested object that differs is reported: when a member `key` of the
/// expected object is itself an object, one of whose members `x` holds a
/// value that is neither an object nor an array and that the actual state
/// under `key` lacks or holds differently, `key` is among the properties
/// that differ.
pub proof fn lemma_nested_difference_reported(e: JsonValue, a: JsonValue, i: int, j: int)
    requires
        e is Object,
        0 <= i < e->Object_0@.len(),
        e->Object_0@[i].1 is Object,
        0 <= j < e->Object_0@[i].1->Object_0@.len(),
        !(e->Object_0@[i].1->Object_0@[j].1 is Object),
        !(e->Object_0@[i].1->Object_0@[j].1 is Array),
        e->Object_0@[i].1->Object_0@[j].0@ != "$schema"@,
        !actual_has(actual_at(a, e->Object_0@[i].0@), e->Object_0@[i].1->Object_0@[j].0@)
            || !json_eq(e->Object_0@[i].1->Object_0@[j].1, actual_at(actual_at(a, e->Object_0@[i].0@), e->Object_0@[i].1->Object_0@[j].0@)),
    ensures
        json_diff(e, a).contains(e->Object_0@[i].0@),
{
    let ms = e->Object_0@;
    let key = ms[i].0@;
    let v = ms[i].1;
    let vs = v->Object_0@;
    let x = vs[j].0@;
    let w = vs[j].1;
    let av = actual_at(a, key);
    let n = fuel(depth_bound(e), depth_bound(a));
    assert(n >= 10);
    let n3 = (n - 3) as nat;
    assert(entry_diff(n3, x, w, av) == seq![x]);
    assert(seq![x][0] == x);
    lemma_members_report(n3, vs, av, j, x);
    let dv = diff_fuel((n - 2) as nat, v, av);
    let rest = if has_key(vs, "_exist"@) { Seq::<Seq<char>>::empty() } else { entry_diff(n3, "_exist"@, JsonValue::Bool(true), av) };
    assert(dv == diff_members(n3, vs, av) + rest);
    lemma_left_contains(diff_members(n3, vs, av), rest, x);
    assert(dv.len() > 0);
    let n1 = (n - 1) as nat;
    assert(entry_diff(n1, key, v, a) == seq![key]);
    assert(seq![key][0] == key);
    lemma_members_report(n1, ms, a, i, key);
    let rest2 = if has_key(ms, "_exist"@) { Seq::<Seq<char>>::empty() } else { entry_diff(n1, "_exist"@, JsonValue::Bool(true), a) };
    assert(json_diff(e, a) == diff_members(n1, ms, a) + rest2);
    lemma_left_contains(diff_members(n1, ms, a), rest2, key);
}

/// A plain property that differs is reported: when a member `key` of the
/// expected object holds a value that is neither an object nor an array,
/// and the actual state lacks `key` or holds a different value under it,
/// `key` is among the properties that differ (`$schema` is never compared).
pub proof fn lemma_plain_difference_reported(e: JsonValue, a: JsonValue, i: int)
    requires
        e is Object,
        0 <= i < e->Object_0@.len(),
        !(e->Object_0@[i].1 is Object),
        !(e->Object_0@[i].1 is Array),
        e->Object_0@[i].0@ != "$schema"@,
        !actual_has(a, e->Object_0@[i].0@) || !json_eq(e->Object_0@[i].1, actual_at(a, e->Object_0@[i].0@)),
    ensures
        json_diff(e, a).contains(e->Object_0@[i].0@),
{
    let ms = e->Object_0@;
    let key = ms[i].0@;
    let n = fuel(depth_bound(e), depth_bound(a));
    let n1 = (n - 1) as nat;
    assert(entry_diff(n1, key, ms[i].1, a) == seq![key]);
    assert(seq![key][0] == key);
    lemma_members_report(n1, ms, a, i, key);
    let rest = if has_key(ms, "_exist"@) { Seq::<Seq<char>>::empty() } else { entry_diff(n1, "_exist"@, JsonValue::Bool(true), a) };
    assert(json_diff(e, a) == diff_members(n1, ms, a) + rest);
    lemma_left_contains(diff_members(n1, ms, a), rest, key);
}

} // verus!

