use vstd::prelude::*;

verus! {

/// A JSON value. Numbers are integers; an `i128` holds every integer that a
/// JSON document can carry as `i64` or `u64`. An object is a list of
/// name/value members.
#[derive(Debug)]
pub enum JsonValue {
    Null,
    Bool(bool),
    Number(i128),
    String(String),
    Array(Vec<JsonValue>),
    Object(Vec<(String, JsonValue)>),
}

/// The index of the first member of `members` named `key`, or -1 when none is.
pub open spec fn find_key<T>(members: Seq<(String, T)>, key: Seq<char>) -> int
    decreases members.len(),
{
    if members.len() == 0 {
        -1
    } else {
        let r = find_key(members.drop_last(), key);
        if r >= 0 {
            r
        } else if members.last().0@ == key {
            members.len() - 1
        } else {
            -1
        }
    }
}

/// `find_key` is -1 or the index of the first member with that name.
pub proof fn lemma_find_key<T>(members: Seq<(String, T)>, key: Seq<char>)
    ensures
        find_key(members, key) == -1 || (0 <= find_key(members, key) < members.len()
            && members[find_key(members, key)].0@ == key),
        find_key(members, key) == -1 <==> forall|i: int| 0 <= i < members.len() ==> (#[trigger] members[i]).0@ != key,
        forall|i: int| 0 <= i < find_key(members, key) ==> (#[trigger] members[i]).0@ != key,
    decreases members.len(),
{
    if members.len() > 0 {
        let d = members.drop_last();
        lemma_find_key(d, key);
        assert forall|i: int| 0 <= i < members.len() - 1 implies members[i] == #[trigger] d[i] by {}
        let r = find_key(d, key);
        if r >= 0 {
            assert forall|i: int| 0 <= i < find_key(members, key) implies (#[trigger] members[i]).0@ != key by {
                assert(members[i] == d[i]);
            }
        } else if members.last().0@ == key {
            assert forall|i: int| 0 <= i < find_key(members, key) implies (#[trigger] members[i]).0@ != key by {
                assert(members[i] == d[i]);
            }
        } else {
            assert forall|i: int| 0 <= i < members.len() implies (#[trigger] members[i]).0@ != key by {
                if i < members.len() - 1 {
                    assert(members[i] == d[i]);
                }
            }
        }
    }
}

#[verifier::opaque]
/// Two JSON values are equal when they have the same kind and equal
/// contents; objects are compared as maps, ignoring member order.
pub open spec fn json_eq(a: JsonValue, b: JsonValue) -> bool
    decreases a,
{
    match (a, b) {
        (JsonValue::Null, JsonValue::Null) => true,
        (JsonValue::Bool(x), JsonValue::Bool(y)) => x == y,
        (JsonValue::Number(x), JsonValue::Number(y)) => x == y,
        (JsonValue::String(x), JsonValue::String(y)) => x@ == y@,
        (JsonValue::Array(xs), JsonValue::Array(ys)) => {
            &&& xs@.len() == ys@.len()
            &&& forall|i: int| 0 <= i < xs@.len() ==> json_eq(#[trigger] xs@[i], ys@[i])
        },
        (JsonValue::Object(xs), JsonValue::Object(ys)) => {
            &&& xs@.len() == ys@.len()
            &&& forall|i: int| 0 <= i < xs@.len() ==> {
                let j = find_key(ys@, (#[trigger] xs@[i]).0@);
                &&& 0 <= j < ys@.len()
                &&& json_eq(xs@[i].1, ys@[j].1)
            }
            &&& forall|j: int| 0 <= j < ys@.len() ==> {
                let i = find_key(xs@, (#[trigger] ys@[j]).0@);
                &&& 0 <= i < xs@.len()
                &&& json_eq(xs@[i].1, ys@[j].1)
            }
        },
        _ => false,
    }
}

/// Whether two values are identical, member order included.
#[verifier::opaque]
pub open spec fn json_same(a: JsonValue, b: JsonValue) -> bool
    decreases a,
{
    match (a, b) {
        (JsonValue::Null, JsonValue::Null) => true,
        (JsonValue::Bool(x), JsonValue::Bool(y)) => x == y,
        (JsonValue::Number(x), JsonValue::Number(y)) => x == y,
        (JsonValue::String(x), JsonValue::String(y)) => x@ == y@,
        (JsonValue::Array(xs), JsonValue::Array(ys)) => {
            &&& xs@.len() == ys@.len()
            &&& forall|i: int| 0 <= i < xs@.len() ==> json_same(#[trigger] xs@[i], ys@[i])
        },
        (JsonValue::Object(xs), JsonValue::Object(ys)) => {
            &&& xs@.len() == ys@.len()
            &&& forall|i: int| 0 <= i < xs@.len() ==> (#[trigger] xs@[i]).0@ == ys@[i].0@ && json_same(xs@[i].1, ys@[i].1)
        },
        _ => false,
    }
}

/// The value of a number that fits in an `i64`, as `serde_json`'s `as_i64`
/// gives it; `None` for any other value.
pub open spec fn i64_value(v: JsonValue) -> Option<i64> {
    match v {
        JsonValue::Number(n) => if i64::MIN <= n <= i64::MAX { Some(n as i64) } else { None },
        _ => None,
    }
}

/// Whether `key` names a member of the object members `members`.
pub open spec fn has_key<T>(members: Seq<(String, T)>, key: Seq<char>) -> bool {
    exists|i: int| 0 <= i < members.len() && (#[trigger] members[i]).0@ == key
}

impl JsonValue {
    /// The number as an `i64`, when it is one that fits.
    pub fn as_i64(&self) -> (r: Option<i64>)
        ensures
            r == i64_value(*self),
    {
        match self {
            JsonValue::Number(n) => if i64::MIN as i128 <= *n && *n <= i64::MAX as i128 {
                Some(*n as i64)
            } else {
                None
            },
            _ => None,
        }
    }

    /// The boolean, when this is one.
    pub fn as_bool(&self) -> (r: Option<bool>)
        ensures
            r == (match *self {
                JsonValue::Bool(b) => Some(b),
                _ => None,
            }),
    {
        match self {
            JsonValue::Bool(b) => Some(*b),
            _ => None,
        }
    }

    /// A copy of this value.
    pub fn deep_copy(&self) -> (r: JsonValue)
        ensures
            json_same(r, *self),
        decreases self,
    {
        proof { reveal(json_same); }
        match self {
            JsonValue::Null => JsonValue::Null,
            JsonValue::Bool(b) => JsonValue::Bool(*b),
            JsonValue::Number(n) => JsonValue::Number(*n),
            JsonValue::String(s) => JsonValue::String(s.clone()),
            JsonValue::Array(items) => {
                let mut out: Vec<JsonValue> = Vec::new();
                let mut i: usize = 0;
                while i < items.len()
                    invariant
                        i <= items@.len(),
                        out@.len() == i,
                        forall|k: int| 0 <= k < i ==> json_same(#[trigger] out@[k], items@[k]),
                        *self == JsonValue::Array(*items),
                    decreases items@.len() - i,
                {
                    assert(decreases_to!(*self => self->Array_0)); assert(decreases_to!(self->Array_0 => self->Array_0@)); assert(decreases_to!(self->Array_0@ => self->Array_0@[i as int]));
                    out.push(items[i].deep_copy());
                    i = i + 1;
                }
                                JsonValue::Array(out)
            },
            JsonValue::Object(members) => {
                let mut out: Vec<(String, JsonValue)> = Vec::new();
                let mut i: usize = 0;
                while i < members.len()
                    invariant
                        i <= members@.len(),
                        out@.len() == i,
                        forall|k: int| 0 <= k < i ==> (#[trigger] out@[k]).0@ == members@[k].0@ && json_same(out@[k].1, members@[k].1),
                        *self == JsonValue::Object(*members),
                    decreases members@.len() - i,
                {
                    assert(decreases_to!(*self => self->Object_0)); assert(decreases_to!(self->Object_0 => self->Object_0@)); assert(decreases_to!(self->Object_0@ => self->Object_0@[i as int])); assert(decreases_to!(self->Object_0@[i as int] => self->Object_0@[i as int].1));
                    let name = members[i].0.clone();
                    let value = members[i].1.deep_copy();
                    out.push((name, value));
                    i = i + 1;
                }
                                JsonValue::Object(out)
            },
        }
    }
}

/// Whether two member lists have the same names, in order, and identical
/// values.
pub open spec fn members_same(a: Seq<(String, JsonValue)>, b: Seq<(String, JsonValue)>) -> bool {
    a.len() == b.len() && forall|i: int| 0 <= i < a.len() ==> (#[trigger] a[i]).0@ == b[i].0@ && json_same(a[i].1, b[i].1)
}

/// A copy of a member list.
pub fn copy_members(ms: &Vec<(String, JsonValue)>) -> (r: Vec<(String, JsonValue)>)
    ensures
        members_same(r@, ms@),
{
    let mut out: Vec<(String, JsonValue)> = Vec::new();
    let mut i: usize = 0;
    while i < ms.len()
        invariant
            i <= ms@.len(),
            out@.len() == i,
            forall|k: int| 0 <= k < i ==> (#[trigger] out@[k]).0@ == ms@[k].0@ && json_same(out@[k].1, ms@[k].1),
        decreases ms@.len() - i,
    {
        out.push((ms[i].0.clone(), ms[i].1.deep_copy()));
        i = i + 1;
    }
    out
}

/// The index of the first member of `members` named `key`, if any.
pub fn find_member<T>(members: &Vec<(String, T)>, key: &String) -> (r: Option<usize>)
    ensures
        match r {
            Some(j) => j == find_key(members@, key@),
            None => find_key(members@, key@) == -1,
        },
{
    let mut j: usize = 0;
    while j < members.len()
        invariant
            j <= members@.len(),
            forall|k: int| 0 <= k < j ==> (#[trigger] members@[k]).0@ != key@,
        decreases members@.len() - j,
    {
        if members[j].0 == *key {
            proof {
                lemma_find_key(members@, key@);
                let f = find_key(members@, key@);
                assert(members@[j as int].0@ == key@);
                if f == -1 {
                    assert(members@[j as int].0@ != key@);
                } else if f < j {
                    assert(members@[f].0@ != key@);
                } else if f > j {
                    assert(members@[j as int].0@ != key@);
                }
            }
            return Some(j);
        }
        j = j + 1;
    }
    proof { lemma_find_key(members@, key@); }
    None
}

/// Structural equality of JSON values, objects compared as maps.
pub fn json_equals(a: &JsonValue, b: &JsonValue) -> (r: bool)
    ensures
        r == json_eq(*a, *b),
    decreases a,
{
    proof { reveal(json_eq); }
    match (a, b) {
        (JsonValue::Null, JsonValue::Null) => true,
        (JsonValue::Bool(x), JsonValue::Bool(y)) => *x == *y,
        (JsonValue::Number(x), JsonValue::Number(y)) => *x == *y,
        (JsonValue::String(x), JsonValue::String(y)) => *x == *y,
        (JsonValue::Array(xs), JsonValue::Array(ys)) => {
            if xs.len() != ys.len() {
                return false;
            }
            let mut i: usize = 0;
            while i < xs.len()
                invariant
                    i <= xs@.len(),
                    xs@.len() == ys@.len(),
                    *a == JsonValue::Array(*xs),
                    *b == JsonValue::Array(*ys),
                    forall|k: int| 0 <= k < i ==> json_eq(#[trigger] xs@[k], ys@[k]),
                decreases xs@.len() - i,
            {
                proof { reveal(json_eq); }
                assert(decreases_to!(*a => a->Array_0)); assert(decreases_to!(a->Array_0 => a->Array_0@)); assert(decreases_to!(a->Array_0@ => a->Array_0@[i as int]));
                if !json_equals(&xs[i], &ys[i]) {
                    return false;
                }
                i = i + 1;
            }
            true
        },
        (JsonValue::Object(xs), JsonValue::Object(ys)) => {
            if xs.len() != ys.len() {
                return false;
            }
            let mut i: usize = 0;
            while i < xs.len()
                invariant
                    i <= xs@.len(),
                    xs@.len() == ys@.len(),
                    *a == JsonValue::Object(*xs),
                    *b == JsonValue::Object(*ys),
                    forall|k: int| 0 <= k < i ==> {
                        let j = find_key(ys@, (#[trigger] xs@[k]).0@);
                        &&& 0 <= j < ys@.len()
                        &&& json_eq(xs@[k].1, ys@[j].1)
                    },
                decreases xs@.len() - i,
            {
                proof { reveal(json_eq); }
                assert(decreases_to!(*a => a->Object_0)); assert(decreases_to!(a->Object_0 => a->Object_0@)); assert(decreases_to!(a->Object_0@ => a->Object_0@[i as int])); assert(decreases_to!(a->Object_0@[i as int] => a->Object_0@[i as int].1));
                proof { lemma_find_key(ys@, xs@[i as int].0@); }
                match find_member(ys, &xs[i].0) {
                    None => { return false; },
                    Some(j) => {
                        if !json_equals(&xs[i].1, &ys[j].1) {
                            return false;
                        }
                    },
                }
                i = i + 1;
            }
            let mut j: usize = 0;
            while j < ys.len()
                invariant
                    j <= ys@.len(),
                    xs@.len() == ys@.len(),
                    *a == JsonValue::Object(*xs),
                    *b == JsonValue::Object(*ys),
                    forall|k: int| 0 <= k < xs@.len() ==> {
                        let j = find_key(ys@, (#[trigger] xs@[k]).0@);
                        &&& 0 <= j < ys@.len()
                        &&& json_eq(xs@[k].1, ys@[j].1)
                    },
                    forall|k: int| 0 <= k < j ==> {
                        let i = find_key(xs@, (#[trigger] ys@[k]).0@);
                        &&& 0 <= i < xs@.len()
                        &&& json_eq(xs@[i].1, ys@[k].1)
                    },
                decreases ys@.len() - j,
            {
                proof { reveal(json_eq); }
                proof { lemma_find_key(xs@, ys@[j as int].0@); }
                match find_member(xs, &ys[j].0) {
                    None => { return false; },
                    Some(i) => {
                        assert(decreases_to!(*a => a->Object_0)); assert(decreases_to!(a->Object_0 => a->Object_0@)); assert(decreases_to!(a->Object_0@ => a->Object_0@[i as int])); assert(decreases_to!(a->Object_0@[i as int] => a->Object_0@[i as int].1));
                        if !json_equals(&xs[i].1, &ys[j].1) {
                            return false;
                        }
                    },
                }
                j = j + 1;
            }
            true
        },
        _ => false,
    }
}

} // verus!

verus! {

/// `members` with `(key, value)` put in, as inserting into a JSON map does:
/// the member of that name gets the new pair in its place, or the pair is
/// appended.
pub open spec fn member_put<T>(members: Seq<(String, T)>, key: String, value: T) -> Seq<(String, T)> {
    let j = find_key(members, key@);
    if j >= 0 {
        members.update(j, (key, value))
    } else {
        members.push((key, value))
    }
}

/// `members` without the member named `key`, as removing from a JSON map
/// that keeps insertion order does: the last member takes its place.
pub open spec fn member_removed<T>(members: Seq<(String, T)>, key: Seq<char>) -> Seq<(String, T)> {
    let j = find_key(members, key);
    if j >= 0 {
        members.update(j, members.last()).drop_last()
    } else {
        members
    }
}

/// The value of the member named `key`, if any.
pub open spec fn member_value<T>(members: Seq<(String, T)>, key: Seq<char>) -> Option<T> {
    let j = find_key(members, key);
    if j >= 0 {
        Some(members[j].1)
    } else {
        None
    }
}

/// Puts `(key, value)` into `members` (see `member_put`).
pub fn put_member<T>(members: &mut Vec<(String, T)>, key: String, value: T)
    ensures
        final(members)@ == member_put(old(members)@, key, value),
{
    proof {
        lemma_find_key(members@, key@);
    }
    match find_member(members, &key) {
        Some(j) => {
            members.set(j, (key, value));
        },
        None => {
            members.push((key, value));
        },
    }
}

/// Removes the member named `key` (see `member_removed`) and gives its
/// value back.
pub fn take_member<T>(members: &mut Vec<(String, T)>, key: &String) -> (r: Option<T>)
    ensures
        final(members)@ == member_removed(old(members)@, key@),
        r == member_value(old(members)@, key@),
{
    proof {
        lemma_find_key(members@, key@);
    }
    match find_member(members, key) {
        Some(j) => {
            let (_, v) = members.swap_remove(j);
            Some(v)
        },
        None => None,
    }
}

} // verus!

verus! {

/// How `find_key` and `member_value` change when a member is appended.
pub proof fn lemma_find_key_push<T>(members: Seq<(String, T)>, e: (String, T), key: Seq<char>)
    ensures
        find_key(members, key) >= 0 ==> find_key(members.push(e), key) == find_key(members, key),
        find_key(members, key) < 0 && e.0@ == key ==> find_key(members.push(e), key) == members.len(),
        find_key(members, key) < 0 && e.0@ != key ==> find_key(members.push(e), key) == -1,
        find_key(members, e.0@) < 0 ==> member_value(members.push(e), key) == if key == e.0@ {
            Some(e.1)
        } else {
            member_value(members, key)
        },
{
    assert(members.push(e).drop_last() =~= members);
    lemma_find_key(members, key);
    lemma_find_key(members, e.0@);
    if find_key(members, key) >= 0 {
        assert(members.push(e)[find_key(members, key)] == members[find_key(members, key)]);
    }
}

} // verus!

verus! {

/// JSON equality is symmetric.
pub proof fn lemma_json_eq_symmetric(a: JsonValue, b: JsonValue)
    ensures
        json_eq(a, b) == json_eq(b, a),
    decreases a,
{
    reveal(json_eq);
    match (a, b) {
        (JsonValue::Array(xs), JsonValue::Array(ys)) => {
            assert forall|i: int, v: JsonValue| 0 <= i < xs@.len() implies #[trigger] json_eq(xs@[i], v) == json_eq(v, xs@[i]) by {
                assert(decreases_to!(a => xs@[i]));
                lemma_json_eq_symmetric(xs@[i], v);
            }
            if json_eq(a, b) {
                assert forall|i: int| 0 <= i < ys@.len() implies json_eq(#[trigger] ys@[i], xs@[i]) by {
                    assert(json_eq(xs@[i], ys@[i]) == json_eq(ys@[i], xs@[i]));
                }
            }
            if json_eq(b, a) {
                assert forall|i: int| 0 <= i < xs@.len() implies json_eq(#[trigger] xs@[i], ys@[i]) by {
                    assert(json_eq(xs@[i], ys@[i]) == json_eq(ys@[i], xs@[i]));
                }
            }
        },
        (JsonValue::Object(xs), JsonValue::Object(ys)) => {
            assert forall|i: int, v: JsonValue| 0 <= i < xs@.len() implies #[trigger] json_eq(xs@[i].1, v) == json_eq(v, xs@[i].1) by {
                assert(decreases_to!(a => xs@[i].1));
                lemma_json_eq_symmetric(xs@[i].1, v);
            }
            if json_eq(a, b) {
                assert forall|j: int| 0 <= j < ys@.len() implies {
                    let i = find_key(xs@, (#[trigger] ys@[j]).0@);
                    &&& 0 <= i < xs@.len()
                    &&& json_eq(ys@[j].1, xs@[i].1)
                } by {
                    let i = find_key(xs@, ys@[j].0@);
                    assert(json_eq(xs@[i].1, ys@[j].1) == json_eq(ys@[j].1, xs@[i].1));
                }
                assert forall|i: int| 0 <= i < xs@.len() implies {
                    let j = find_key(ys@, (#[trigger] xs@[i]).0@);
                    &&& 0 <= j < ys@.len()
                    &&& json_eq(ys@[j].1, xs@[i].1)
                } by {
                    let j = find_key(ys@, xs@[i].0@);
                    assert(json_eq(xs@[i].1, ys@[j].1) == json_eq(ys@[j].1, xs@[i].1));
                }
            }
            if json_eq(b, a) {
                assert forall|i: int| 0 <= i < xs@.len() implies {
                    let j = find_key(ys@, (#[trigger] xs@[i]).0@);
                    &&& 0 <= j < ys@.len()
                    &&& json_eq(xs@[i].1, ys@[j].1)
                } by {
                    let j = find_key(ys@, xs@[i].0@);
                    assert(json_eq(xs@[i].1, ys@[j].1) == json_eq(ys@[j].1, xs@[i].1));
                }
                assert forall|j: int| 0 <= j < ys@.len() implies {
                    let i = find_key(xs@, (#[trigger] ys@[j]).0@);
                    &&& 0 <= i < xs@.len()
                    &&& json_eq(xs@[i].1, ys@[j].1)
                } by {
                    let i = find_key(xs@, ys@[j].0@);
                    assert(json_eq(xs@[i].1, ys@[j].1) == json_eq(ys@[j].1, xs@[i].1));
                }
            }
        },
        _ => {},
    }
}

} // verus!

verus! {

/// What a member list holds under `key` after `(key, value)` is put in is
/// `value`; other names keep what they held.
pub proof fn lemma_put_then_get<T>(members: Seq<(String, T)>, key: String, value: T, other: Seq<char>)
    ensures
        member_value(member_put(members, key, value), key@) == Some(value),
        other != key@ ==> member_value(member_put(members, key, value), other) == member_value(members, other),
{
    lemma_find_key(members, key@);
    lemma_find_key(members, other);
    let j = find_key(members, key@);
    if j >= 0 {
        let u = members.update(j, (key, value));
        assert forall|t: int| 0 <= t < u.len() implies (#[trigger] u[t]).0@ == members[t].0@ by {}
        lemma_same_names_find(u, members, key@);
        lemma_same_names_find(u, members, other);
        if find_key(members, other) >= 0 && other != key@ {
            assert(u[find_key(members, other)] == members[find_key(members, other)]);
        }
    } else {
        lemma_find_key_push(members, (key, value), key@);
        lemma_find_key_push(members, (key, value), other);
    }
}

/// Lists with the same names in the same places find the same positions.
pub proof fn lemma_same_names_find<T>(a: Seq<(String, T)>, b: Seq<(String, T)>, key: Seq<char>)
    requires
        a.len() == b.len(),
        forall|j: int| 0 <= j < a.len() ==> (#[trigger] a[j]).0@ == b[j].0@,
    ensures
        find_key(a, key) == find_key(b, key),
    decreases a.len(),
{
    if a.len() > 0 {
        assert forall|j: int| 0 <= j < a.drop_last().len() implies (#[trigger] a.drop_last()[j]).0@ == b.drop_last()[j].0@ by {
            assert(a.drop_last()[j] == a[j]);
            assert(b.drop_last()[j] == b[j]);
        }
        lemma_same_names_find(a.drop_last(), b.drop_last(), key);
    }
}

/// Once the member named `key` is removed from a list whose names are
/// unique, no member of that name is left.
pub proof fn lemma_removed_is_gone<T>(members: Seq<(String, T)>, key: Seq<char>)
    requires
        forall|i: int, j: int| 0 <= i < j < members.len() ==> (#[trigger] members[i]).0@ != (#[trigger] members[j]).0@,
    ensures
        member_value(member_removed(members, key), key) is None,
{
    lemma_find_key(members, key);
    let j = find_key(members, key);
    if j >= 0 {
        let r = member_removed(members, key);
        lemma_find_key(r, key);
        if find_key(r, key) >= 0 {
            let p = find_key(r, key);
            if p == j {
                assert(r[p] == members.last());
                assert(members[members.len() - 1].0@ == members[j].0@);
            } else {
                assert(r[p] == members[p]);
            }
        }
    }
}

} // verus!

verus! {

/// Putting a member in keeps the names of a list unique.
pub proof fn lemma_put_keeps_unique<T>(members: Seq<(String, T)>, key: String, value: T)
    requires
        forall|i: int, j: int| 0 <= i < j < members.len() ==> (#[trigger] members[i]).0@ != (#[trigger] members[j]).0@,
    ensures
        forall|i: int, j: int|
            0 <= i < j < member_put(members, key, value).len() ==> (#[trigger] member_put(members, key, value)[i]).0@
                != (#[trigger] member_put(members, key, value)[j]).0@,
{
    lemma_find_key(members, key@);
    let r = member_put(members, key, value);
    let f = find_key(members, key@);
    assert forall|i: int, j: int| 0 <= i < j < r.len() implies (#[trigger] r[i]).0@ != (#[trigger] r[j]).0@ by {
        if f >= 0 {
            assert(r[i].0@ == members[i].0@);
            assert(r[j].0@ == members[j].0@);
        } else if j == members.len() {
            assert(r[i] == members[i]);
        } else {
            assert(r[i] == members[i]);
            assert(r[j] == members[j]);
        }
    }
}

} // verus!
