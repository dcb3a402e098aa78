//! Array, object and string-collection functions.

use vstd::prelude::*;
use vstd::string::{StrSliceExecFns, StringExecFns};
use vstd::utf8::encode_utf8;

use crate::configure::context::Context;
use crate::dscerror::DscError;
use crate::functions::{BuiltinFunction, FunctionMetadata, is_parser_err, kind_of, ok_bool, ok_num, ok_same, ok_text, parser_error, value_kind, AcceptedArgKind};
use crate::functions::string::text_or_empty;
use crate::json::{find_key, find_member, i64_value, json_eq, json_equals, json_same, lemma_find_key, JsonValue};
use crate::strings::{bytes_contain, bytes_find, decimal, int_to_decimal, push_char};

verus! {

/// `array(value)`: an array holding the value.
#[derive(Debug, Default)]
pub struct Array {}

impl Array {
    /// What `array` declares about itself.
    pub fn get_metadata(&self) -> (r: FunctionMetadata)
        ensures
            r.name@ == BuiltinFunction::Array.spec_name(),
            r.min_args == BuiltinFunction::Array.spec_min_args(),
            r.max_args == BuiltinFunction::Array.spec_max_args(),
    {
        BuiltinFunction::Array.metadata()
    }

    pub open spec fn post(args: Seq<JsonValue>, r: Result<JsonValue, DscError>) -> bool {
        match args[0] {
            JsonValue::Null | JsonValue::Bool(_) => is_parser_err(r),
            _ => r matches Ok(JsonValue::Array(xs)) && xs@.len() == 1 && json_same(xs@[0], args[0]),
        }
    }

    pub fn invoke(&self, args: &Vec<JsonValue>, _context: &Context) -> (r: Result<JsonValue, DscError>)
        requires
            args@.len() >= 1,
        ensures
            Self::post(args@, r),
    {
        match &args[0] {
            JsonValue::Null | JsonValue::Bool(_) => parser_error("Invalid argument type"),
            v => {
                let mut xs: Vec<JsonValue> = Vec::new();
                xs.push(v.deep_copy());
                Ok(JsonValue::Array(xs))
            },
        }
    }
}

/// `coalesce(values...)`: the first value that is not null, or null.
#[derive(Debug, Default)]
pub struct Coalesce {}

impl Coalesce {
    /// What `coalesce` declares about itself.
    pub fn get_metadata(&self) -> (r: FunctionMetadata)
        ensures
            r.name@ == BuiltinFunction::Coalesce.spec_name(),
            r.min_args == BuiltinFunction::Coalesce.spec_min_args(),
            r.max_args == BuiltinFunction::Coalesce.spec_max_args(),
    {
        BuiltinFunction::Coalesce.metadata()
    }

    pub open spec fn post(args: Seq<JsonValue>, r: Result<JsonValue, DscError>) -> bool {
        &&& r is Ok
        &&& (forall|j: int| 0 <= j < args.len() ==> (#[trigger] args[j]) is Null) ==> r->Ok_0 is Null
        &&& forall|i: int| 0 <= i < args.len() && !(args[i] is Null) && (forall|j: int| 0 <= j < i ==> (#[trigger] args[j]) is Null)
            ==> json_same(r->Ok_0, #[trigger] args[i])
    }

    pub fn invoke(&self, args: &Vec<JsonValue>, _context: &Context) -> (r: Result<JsonValue, DscError>)
        ensures
            Self::post(args@, r),
    {
        let mut i: usize = 0;
        while i < args.len()
            invariant
                i <= args@.len(),
                forall|j: int| 0 <= j < i ==> (#[trigger] args@[j]) is Null,
            decreases args@.len() - i,
        {
            if !matches!(args[i], JsonValue::Null) {
                let r = Ok(args[i].deep_copy());
                assert forall|k: int| 0 <= k < args@.len() && !(args@[k] is Null) && (forall|j: int| 0 <= j < k ==> (#[trigger] args@[j]) is Null)
                    implies json_same(r->Ok_0, #[trigger] args@[k]) by {
                    if k < i {
                    } else if k > i {
                        assert(args@[i as int] is Null);
                    }
                }
                return r;
            }
            i = i + 1;
        }
        Ok(JsonValue::Null)
    }
}

/// Whether the value is the string `s`.
pub open spec fn text_is(v: JsonValue, s: Seq<char>) -> bool {
    v matches JsonValue::String(t) && t@ == s
}

/// Whether the value is an array holding a value equal to `x`.
pub open spec fn holds_item(v: JsonValue, x: JsonValue) -> bool {
    v matches JsonValue::Array(ys) && array_has(ys@, x)
}

/// Whether the value is an object with a member `key` equal to `value`.
pub open spec fn shares_member(v: JsonValue, key: Seq<char>, value: JsonValue) -> bool {
    v matches JsonValue::Object(ms) && member_equals(ms@, key, value)
}

/// Whether every value is a string.
pub open spec fn all_strings(args: Seq<JsonValue>) -> bool {
    forall|i: int| 0 <= i < args.len() ==> (#[trigger] args[i]) is String
}

/// Whether the value is an array of strings.
pub open spec fn is_string_array(v: JsonValue) -> bool {
    v matches JsonValue::Array(xs) && forall|k: int| 0 <= k < xs@.len() ==> (#[trigger] xs@[k]) is String
}

/// Whether every value is an array of strings.
pub open spec fn all_string_arrays(args: Seq<JsonValue>) -> bool {
    forall|i: int| 0 <= i < args.len() ==> is_string_array(#[trigger] args[i])
}

/// The strings of `args` one after another.
pub open spec fn concat_text(args: Seq<JsonValue>) -> Seq<char>
    decreases args.len(),
{
    if args.len() == 0 {
        Seq::empty()
    } else {
        concat_text(args.drop_last()) + text_or_empty(args.last())
    }
}

/// The texts of the items of an array.
pub open spec fn item_texts(v: JsonValue) -> Seq<Seq<char>> {
    match v {
        JsonValue::Array(xs) => xs@.map_values(|x: JsonValue| text_or_empty(x)),
        _ => Seq::empty(),
    }
}

/// The items of the arrays of `args` one after another, as texts.
pub open spec fn concat_items(args: Seq<JsonValue>) -> Seq<Seq<char>>
    decreases args.len(),
{
    if args.len() == 0 {
        Seq::empty()
    } else {
        concat_items(args.drop_last()) + item_texts(args.last())
    }
}

/// `concat(values...)`: the strings joined, or the arrays of strings joined
/// into one array; the arguments must all be of one of these kinds.
#[derive(Debug, Default)]
pub struct Concat {}

impl Concat {
    /// What `concat` declares about itself.
    pub fn get_metadata(&self) -> (r: FunctionMetadata)
        ensures
            r.name@ == BuiltinFunction::Concat.spec_name(),
            r.min_args == BuiltinFunction::Concat.spec_min_args(),
            r.max_args == BuiltinFunction::Concat.spec_max_args(),
    {
        BuiltinFunction::Concat.metadata()
    }

    pub open spec fn post(args: Seq<JsonValue>, r: Result<JsonValue, DscError>) -> bool {
        if args.len() > 0 && all_strings(args) {
            ok_text(r, concat_text(args))
        } else if args.len() > 0 && all_string_arrays(args) {
            r matches Ok(JsonValue::Array(out)) && out@.len() == concat_items(args).len() && forall|k: int|
                0 <= k < out@.len() ==> text_is(#[trigger] out@[k], concat_items(args)[k])
        } else {
            is_parser_err(r)
        }
    }

    pub fn invoke(&self, args: &Vec<JsonValue>, _context: &Context) -> (r: Result<JsonValue, DscError>)
        ensures
            Self::post(args@, r),
    {
        if args.len() == 0 {
            return parser_error("Invalid argument type");
        }
        match &args[0] {
            JsonValue::String(_) => {
                let mut text = String::new();
                let mut i: usize = 0;
                while i < args.len()
                    invariant
                        i <= args@.len(),
                        args@[0] is String,
                        forall|j: int| 0 <= j < i ==> (#[trigger] args@[j]) is String,
                        text@ == concat_text(args@.take(i as int)),
                    decreases args@.len() - i,
                {
                    assert(args@.take(i + 1).drop_last() =~= args@.take(i as int));
                    assert(args@.take(i + 1).last() == args@[i as int]);
                    match &args[i] {
                        JsonValue::String(s) => {
                            text.append(s.as_str());
                        },
                        _ => {
                            assert(args@[0] is String);
                            return parser_error("Arguments must all be strings");
                        },
                    }
                    i = i + 1;
                }
                assert(args@.take(args@.len() as int) =~= args@);
                Ok(JsonValue::String(text))
            },
            JsonValue::Array(_) => {
                let mut out: Vec<JsonValue> = Vec::new();
                let mut i: usize = 0;
                while i < args.len()
                    invariant
                        i <= args@.len(),
                        args@[0] is Array,
                        forall|j: int| 0 <= j < i ==> is_string_array(#[trigger] args@[j]),
                        out@.len() == concat_items(args@.take(i as int)).len(),
                        forall|k: int| 0 <= k < out@.len() ==> text_is(#[trigger] out@[k], concat_items(args@.take(i as int))[k]),
                    decreases args@.len() - i,
                {
                    assert(args@.take(i + 1).drop_last() =~= args@.take(i as int));
                    assert(args@.take(i + 1).last() == args@[i as int]);
                    match &args[i] {
                        JsonValue::Array(xs) => {
                            let ghost before = out@;
                            let mut k: usize = 0;
                            while k < xs.len()
                                invariant
                                    k <= xs@.len(),
                                    i < args@.len(),
                                    args@[0] is Array,
                                    args@[i as int] == JsonValue::Array(*xs),
                                    forall|t: int| 0 <= t < before.len() ==> text_is(#[trigger] before[t], concat_items(args@.take(i as int))[t]),
                                    forall|t: int| 0 <= t < k ==> (#[trigger] xs@[t]) is String,
                                    out@.len() == before.len() + k,
                                    forall|t: int| 0 <= t < before.len() ==> out@[t] == before[t],
                                    forall|t: int| 0 <= t < k ==> text_is(#[trigger] out@[before.len() + t], text_or_empty(xs@[t])),
                                decreases xs@.len() - k,
                            {
                                match &xs[k] {
                                    JsonValue::String(s) => {
                                        out.push(JsonValue::String(s.clone()));
                                    },
                                    _ => {
                                        assert(!is_string_array(args@[i as int]));
                                        return parser_error("Arrays must only contain strings");
                                    },
                                }
                                k = k + 1;
                            }
                            let ghost prev = concat_items(args@.take(i as int));
                            assert(concat_items(args@.take(i + 1)) == prev + item_texts(args@[i as int]));
                            assert forall|t: int| 0 <= t < out@.len() implies text_is(#[trigger] out@[t], concat_items(args@.take(i + 1))[t]) by {
                                let items = item_texts(args@[i as int]);
                                assert(items.len() == xs@.len());
                                if t >= before.len() {
                                    let u = t - before.len();
                                    assert(out@[before.len() + u] == out@[t]);
                                    assert(items[u] == text_or_empty(xs@[u]));
                                    assert(concat_items(args@.take(i + 1))[t] == items[u]);
                                } else {
                                    assert(out@[t] == before[t]);
                                    assert(concat_items(args@.take(i + 1))[t] == prev[t]);
                                }
                            }
                        },
                        _ => {
                            return parser_error("Arguments must all be arrays");
                        },
                    }
                    i = i + 1;
                }
                assert(args@.take(args@.len() as int) =~= args@);
                assert(!all_strings(args@));
                Ok(JsonValue::Array(out))
            },
            _ => parser_error("Invalid argument type"),
        }
    }
}

/// The text looked for by `contains`: a string's text or an integer's
/// decimal digits.
pub open spec fn needle_text(v: JsonValue) -> Seq<char> {
    match v {
        JsonValue::String(t) => t@,
        JsonValue::Number(n) => decimal(n as int),
        _ => Seq::empty(),
    }
}

/// Whether `item` is what `contains` looks for in an array.
pub open spec fn array_item_matches(item: JsonValue, needle: JsonValue) -> bool {
    match (needle, item) {
        (JsonValue::String(t), JsonValue::String(s)) => s@ == t@,
        (JsonValue::Number(n), JsonValue::Number(m)) => m == n,
        _ => false,
    }
}

/// Whether an array holds what `contains` looks for.
pub open spec fn array_holds_needle(xs: Seq<JsonValue>, needle: JsonValue) -> bool {
    exists|k: int| 0 <= k < xs.len() && array_item_matches(#[trigger] xs[k], needle)
}

/// `contains` on an array and a string is true exactly when some item of
/// the array is that string; on an array and an integer, exactly when some
/// item is that number.
pub proof fn lemma_contains_in_array(xs: Vec<JsonValue>, needle: JsonValue, r: Result<JsonValue, DscError>)
    requires
        Contains::post(seq![JsonValue::Array(xs), needle], r),
    ensures
        needle matches JsonValue::String(t) ==> r == Ok::<JsonValue, DscError>(JsonValue::Bool(
            exists|k: int| 0 <= k < xs@.len() && (#[trigger] xs@[k] matches JsonValue::String(s) && s@ == t@))),
        needle matches JsonValue::Number(n) ==> (i64_value(needle) is Some ==> r == Ok::<JsonValue, DscError>(JsonValue::Bool(
            exists|k: int| 0 <= k < xs@.len() && (#[trigger] xs@[k] matches JsonValue::Number(m) && m == n)))),
{
    let args = seq![JsonValue::Array(xs), needle];
    assert(args[0] == JsonValue::Array(xs) && args[1] == needle);
    if let JsonValue::String(t) = needle {
        let b = exists|k: int| 0 <= k < xs@.len() && (#[trigger] xs@[k] matches JsonValue::String(s) && s@ == t@);
        assert(array_holds_needle(xs@, needle) == b) by {
            if b {
                let k = choose|k: int| 0 <= k < xs@.len() && (#[trigger] xs@[k] matches JsonValue::String(s) && s@ == t@);
                assert(array_item_matches(xs@[k], needle));
            }
            if array_holds_needle(xs@, needle) {
                let k = choose|k: int| 0 <= k < xs@.len() && array_item_matches(#[trigger] xs@[k], needle);
                assert(xs@[k] matches JsonValue::String(s) && s@ == t@);
            }
        }
    }
    if let JsonValue::Number(n) = needle {
        if i64_value(needle) is Some {
            let b = exists|k: int| 0 <= k < xs@.len() && (#[trigger] xs@[k] matches JsonValue::Number(m) && m == n);
            assert(array_holds_needle(xs@, needle) == b) by {
                if b {
                    let k = choose|k: int| 0 <= k < xs@.len() && (#[trigger] xs@[k] matches JsonValue::Number(m) && m == n);
                    assert(array_item_matches(xs@[k], needle));
                }
                if array_holds_needle(xs@, needle) {
                    let k = choose|k: int| 0 <= k < xs@.len() && array_item_matches(#[trigger] xs@[k], needle);
                    assert(xs@[k] matches JsonValue::Number(m) && m == n);
                }
            }
        }
    }
}

/// `contains` on an object and a string is true exactly when the object
/// has a member of that name.
pub proof fn lemma_contains_in_object(ms: Vec<(String, JsonValue)>, t: String, r: Result<JsonValue, DscError>)
    requires
        Contains::post(seq![JsonValue::Object(ms), JsonValue::String(t)], r),
    ensures
        r == Ok::<JsonValue, DscError>(JsonValue::Bool(exists|k: int| 0 <= k < ms@.len() && (#[trigger] ms@[k]).0@ == t@)),
{
    let args = seq![JsonValue::Object(ms), JsonValue::String(t)];
    assert(args[0] == JsonValue::Object(ms) && args[1] == JsonValue::String(t));
    assert(needle_text(JsonValue::String(t)) == t@);
}

/// `contains(collection, item)`: whether an array holds the string or
/// integer, an object has the key, or a string holds the text.
#[derive(Debug, Default)]
pub struct Contains {}

impl Contains {
    /// What `contains` declares about itself.
    pub fn get_metadata(&self) -> (r: FunctionMetadata)
        ensures
            r.name@ == BuiltinFunction::Contains.spec_name(),
            r.min_args == BuiltinFunction::Contains.spec_min_args(),
            r.max_args == BuiltinFunction::Contains.spec_max_args(),
    {
        BuiltinFunction::Contains.metadata()
    }

    pub open spec fn post(args: Seq<JsonValue>, r: Result<JsonValue, DscError>) -> bool {
        let needle = args[1];
        if !(needle is String || crate::json::i64_value(needle) is Some) {
            is_parser_err(r)
        } else {
            match args[0] {
                JsonValue::Array(xs) => ok_bool(r, array_holds_needle(xs@, needle)),
                JsonValue::Object(ms) => ok_bool(r, crate::json::has_key(ms@, needle_text(needle))),
                JsonValue::String(s) => ok_bool(r, bytes_contain(encode_utf8(s@), encode_utf8(needle_text(needle)))),
                _ => is_parser_err(r),
            }
        }
    }

    pub fn invoke(&self, args: &Vec<JsonValue>, _context: &Context) -> (r: Result<JsonValue, DscError>)
        requires
            args@.len() >= 2,
        ensures
            Self::post(args@, r),
    {
        let needle = &args[1];
        let text: String = match needle {
            JsonValue::String(t) => t.clone(),
            JsonValue::Number(n) => {
                if needle.as_i64().is_none() {
                    return parser_error("Invalid item to find");
                }
                int_to_decimal(*n)
            },
            _ => {
                return parser_error("Invalid item to find");
            },
        };
        match &args[0] {
            JsonValue::Array(xs) => {
                let mut k: usize = 0;
                while k < xs.len()
                    invariant
                        k <= xs@.len(),
                        args@.len() >= 2,
                        *needle == args@[1],
                        args@[0] == JsonValue::Array(*xs),
                        needle is String || crate::json::i64_value(*needle) is Some,
                        forall|t: int| 0 <= t < k ==> !array_item_matches(#[trigger] xs@[t], *needle),
                    decreases xs@.len() - k,
                {
                    let m = match (needle, &xs[k]) {
                        (JsonValue::String(t), JsonValue::String(s)) => *s == *t,
                        (JsonValue::Number(n), JsonValue::Number(m)) => *m == *n,
                        _ => false,
                    };
                    if m {
                        assert(array_item_matches(xs@[k as int], args@[1]));
                        assert(array_holds_needle(xs@, args@[1]));

                        return Ok(JsonValue::Bool(true));
                    }
                    k = k + 1;
                }
                Ok(JsonValue::Bool(false))
            },
            JsonValue::Object(ms) => {
                proof { lemma_find_key(ms@, text@); }
                let found = find_member(ms, &text).is_some();
                Ok(JsonValue::Bool(found))
            },
            JsonValue::String(s) => Ok(JsonValue::Bool(bytes_find(s.as_str().as_bytes(), text.as_str().as_bytes()))),
            _ => parser_error("Invalid argument type"),
        }
    }
}

/// Whether the kind is one that `createArray` takes.
pub open spec fn array_element_kind(k: AcceptedArgKind) -> bool {
    k == AcceptedArgKind::Array || k == AcceptedArgKind::Number || k == AcceptedArgKind::Object || k == AcceptedArgKind::String
}

/// `createArray(values...)`: an array of the values, which must all be
/// arrays, all numbers, all objects or all strings.
#[derive(Debug, Default)]
pub struct CreateArray {}

impl CreateArray {
    /// What `createArray` declares about itself.
    pub fn get_metadata(&self) -> (r: FunctionMetadata)
        ensures
            r.name@ == BuiltinFunction::CreateArray.spec_name(),
            r.min_args == BuiltinFunction::CreateArray.spec_min_args(),
            r.max_args == BuiltinFunction::CreateArray.spec_max_args(),
    {
        BuiltinFunction::CreateArray.metadata()
    }

    pub open spec fn post(args: Seq<JsonValue>, r: Result<JsonValue, DscError>) -> bool {
        if forall|i: int| 0 <= i < args.len() ==> array_element_kind(kind_of(#[trigger] args[i])) && kind_of(args[i]) == kind_of(args[0]) {
            r matches Ok(JsonValue::Array(xs)) && xs@.len() == args.len() && forall|i: int| 0 <= i < args.len() ==> json_same(#[trigger] xs@[i], args[i])
        } else {
            is_parser_err(r)
        }
    }

    pub fn invoke(&self, args: &Vec<JsonValue>, _context: &Context) -> (r: Result<JsonValue, DscError>)
        ensures
            Self::post(args@, r),
    {
        let mut out: Vec<JsonValue> = Vec::new();
        let mut i: usize = 0;
        while i < args.len()
            invariant
                i <= args@.len(),
                out@.len() == i,
                forall|j: int| 0 <= j < i ==> array_element_kind(kind_of(#[trigger] args@[j])) && kind_of(args@[j]) == kind_of(args@[0]),
                forall|j: int| 0 <= j < i ==> json_same(#[trigger] out@[j], args@[j]),
            decreases args@.len() - i,
        {
            let k = value_kind(&args[i]);
            if !(k == AcceptedArgKind::Array || k == AcceptedArgKind::Number || k == AcceptedArgKind::Object || k == AcceptedArgKind::String) {
                return parser_error("Invalid argument type");
            }
            if i > 0 && k != value_kind(&args[0]) {
                return match k {
                    AcceptedArgKind::Array => parser_error("Arguments must all be arrays"),
                    AcceptedArgKind::Number => parser_error("Arguments must all be integers"),
                    AcceptedArgKind::Object => parser_error("Arguments must all be objects"),
                    _ => parser_error("Arguments must all be strings"),
                };
            }
            out.push(args[i].deep_copy());
            i = i + 1;
        }
        Ok(JsonValue::Array(out))
    }
}

/// `empty(value)`: whether an array, object or string is empty.
#[derive(Debug, Default)]
pub struct Empty {}

impl Empty {
    /// What `empty` declares about itself.
    pub fn get_metadata(&self) -> (r: FunctionMetadata)
        ensures
            r.name@ == BuiltinFunction::Empty.spec_name(),
            r.min_args == BuiltinFunction::Empty.spec_min_args(),
            r.max_args == BuiltinFunction::Empty.spec_max_args(),
    {
        BuiltinFunction::Empty.metadata()
    }

    pub open spec fn post(args: Seq<JsonValue>, r: Result<JsonValue, DscError>) -> bool {
        match args[0] {
            JsonValue::Array(xs) => ok_bool(r, xs@.len() == 0),
            JsonValue::Object(ms) => ok_bool(r, ms@.len() == 0),
            JsonValue::String(s) => ok_bool(r, s@.len() == 0),
            _ => is_parser_err(r),
        }
    }

    pub fn invoke(&self, args: &Vec<JsonValue>, _context: &Context) -> (r: Result<JsonValue, DscError>)
        requires
            args@.len() >= 1,
        ensures
            Self::post(args@, r),
    {
        match &args[0] {
            JsonValue::Array(xs) => Ok(JsonValue::Bool(xs.len() == 0)),
            JsonValue::Object(ms) => Ok(JsonValue::Bool(ms.len() == 0)),
            JsonValue::String(s) => Ok(JsonValue::Bool(s.as_str().unicode_len() == 0)),
            _ => parser_error("Invalid argument type"),
        }
    }
}

/// `first(value)`: the first item of an array or the first character of a
/// string.
#[derive(Debug, Default)]
pub struct First {}

impl First {
    /// What `first` declares about itself.
    pub fn get_metadata(&self) -> (r: FunctionMetadata)
        ensures
            r.name@ == BuiltinFunction::First.spec_name(),
            r.min_args == BuiltinFunction::First.spec_min_args(),
            r.max_args == BuiltinFunction::First.spec_max_args(),
    {
        BuiltinFunction::First.metadata()
    }

    pub open spec fn post(args: Seq<JsonValue>, r: Result<JsonValue, DscError>) -> bool {
        match args[0] {
            JsonValue::Array(xs) => if xs@.len() == 0 { is_parser_err(r) } else { ok_same(r, xs@[0]) },
            JsonValue::String(s) => if s@.len() == 0 { is_parser_err(r) } else { ok_text(r, seq![s@[0]]) },
            _ => is_parser_err(r),
        }
    }

    pub fn invoke(&self, args: &Vec<JsonValue>, _context: &Context) -> (r: Result<JsonValue, DscError>)
        requires
            args@.len() >= 1,
        ensures
            Self::post(args@, r),
    {
        match &args[0] {
            JsonValue::Array(xs) => if xs.len() == 0 {
                parser_error("Cannot get the first element of an empty array")
            } else {
                Ok(xs[0].deep_copy())
            },
            JsonValue::String(s) => if s.as_str().unicode_len() == 0 {
                parser_error("Cannot get the first character of an empty string")
            } else {
                let c = s.as_str().get_char(0);
                let mut t = String::new();
                push_char(&mut t, c);
                assert(t@ =~= seq![s@[0]]);
                Ok(JsonValue::String(t))
            },
            _ => parser_error("Invalid argument type"),
        }
    }
}

/// Whether `item` matches what `indexOf` looks for: a string, number,
/// array or object equal to it.
pub open spec fn index_item_matches(needle: JsonValue, item: JsonValue) -> bool {
    match (needle, item) {
        (JsonValue::String(a), JsonValue::String(b)) => a@ == b@,
        (JsonValue::Number(a), JsonValue::Number(b)) => a == b,
        (JsonValue::Array(_), JsonValue::Array(_)) => json_eq(needle, item),
        (JsonValue::Object(_), JsonValue::Object(_)) => json_eq(needle, item),
        _ => false,
    }
}

fn index_item_match(needle: &JsonValue, item: &JsonValue) -> (r: bool)
    ensures
        r == index_item_matches(*needle, *item),
{
    match (needle, item) {
        (JsonValue::String(a), JsonValue::String(b)) => *a == *b,
        (JsonValue::Number(a), JsonValue::Number(b)) => *a == *b,
        (JsonValue::Array(_), JsonValue::Array(_)) => json_equals(needle, item),
        (JsonValue::Object(_), JsonValue::Object(_)) => json_equals(needle, item),
        _ => false,
    }
}

/// `indexOf(array, item)`: the first index of the item, or -1.
#[derive(Debug, Default)]
pub struct IndexOf {}

impl IndexOf {
    /// What `indexOf` declares about itself.
    pub fn get_metadata(&self) -> (r: FunctionMetadata)
        ensures
            r.name@ == BuiltinFunction::IndexOf.spec_name(),
            r.min_args == BuiltinFunction::IndexOf.spec_min_args(),
            r.max_args == BuiltinFunction::IndexOf.spec_max_args(),
    {
        BuiltinFunction::IndexOf.metadata()
    }

    pub open spec fn post(args: Seq<JsonValue>, r: Result<JsonValue, DscError>) -> bool {
        match args[0] {
            JsonValue::Array(xs) => r matches Ok(JsonValue::Number(x)) && (
                (x == -1 && forall|k: int| 0 <= k < xs@.len() ==> !index_item_matches(args[1], #[trigger] xs@[k]))
                || (0 <= x < xs@.len() && index_item_matches(args[1], xs@[x as int])
                    && forall|k: int| 0 <= k < x ==> !index_item_matches(args[1], #[trigger] xs@[k]))),
            _ => is_parser_err(r),
        }
    }

    pub fn invoke(&self, args: &Vec<JsonValue>, _context: &Context) -> (r: Result<JsonValue, DscError>)
        requires
            args@.len() >= 2,
        ensures
            Self::post(args@, r),
    {
        match &args[0] {
            JsonValue::Array(xs) => {
                let mut k: usize = 0;
                while k < xs.len()
                    invariant
                        k <= xs@.len(),
                        args@.len() >= 2,
                        args@[0] == JsonValue::Array(*xs),
                        forall|t: int| 0 <= t < k ==> !index_item_matches(args@[1], #[trigger] xs@[t]),
                    decreases xs@.len() - k,
                {
                    if index_item_match(&args[1], &xs[k]) {
                        return Ok(JsonValue::Number(k as i128));
                    }
                    k = k + 1;
                }
                Ok(JsonValue::Number(-1))
            },
            _ => parser_error("Invalid array argument"),
        }
    }
}

/// `lastIndexOf(array, item)`: the last index of an item equal to the
/// given one, or -1.
#[derive(Debug, Default)]
pub struct LastIndexOf {}

impl LastIndexOf {
    /// What `lastIndexOf` declares about itself.
    pub fn get_metadata(&self) -> (r: FunctionMetadata)
        ensures
            r.name@ == BuiltinFunction::LastIndexOf.spec_name(),
            r.min_args == BuiltinFunction::LastIndexOf.spec_min_args(),
            r.max_args == BuiltinFunction::LastIndexOf.spec_max_args(),
    {
        BuiltinFunction::LastIndexOf.metadata()
    }

    pub open spec fn post(args: Seq<JsonValue>, r: Result<JsonValue, DscError>) -> bool {
        match args[0] {
            JsonValue::Array(xs) => r matches Ok(JsonValue::Number(x)) && (
                (x == -1 && forall|k: int| 0 <= k < xs@.len() ==> !json_eq(#[trigger] xs@[k], args[1]))
                || (0 <= x < xs@.len() && json_eq(xs@[x as int], args[1])
                    && forall|k: int| x < k < xs@.len() ==> !json_eq(#[trigger] xs@[k], args[1]))),
            _ => is_parser_err(r),
        }
    }

    pub fn invoke(&self, args: &Vec<JsonValue>, _context: &Context) -> (r: Result<JsonValue, DscError>)
        requires
            args@.len() >= 2,
        ensures
            Self::post(args@, r),
    {
        match &args[0] {
            JsonValue::Array(xs) => {
                let mut k: usize = xs.len();
                while k > 0
                    invariant
                        k <= xs@.len(),
                        args@.len() >= 2,
                        args@[0] == JsonValue::Array(*xs),
                        forall|t: int| k <= t < xs@.len() ==> !json_eq(#[trigger] xs@[t], args@[1]),
                    decreases k,
                {
                    if json_equals(&xs[k - 1], &args[1]) {
                        return Ok(JsonValue::Number((k - 1) as i128));
                    }
                    k = k - 1;
                }
                Ok(JsonValue::Number(-1))
            },
            _ => parser_error("Invalid array argument"),
        }
    }
}

/// `length(value)`: the number of items of an array, of members of an
/// object, or of UTF-8 bytes of a string.
#[derive(Debug, Default)]
pub struct Length {}

impl Length {
    /// What `length` declares about itself.
    pub fn get_metadata(&self) -> (r: FunctionMetadata)
        ensures
            r.name@ == BuiltinFunction::Length.spec_name(),
            r.min_args == BuiltinFunction::Length.spec_min_args(),
            r.max_args == BuiltinFunction::Length.spec_max_args(),
    {
        BuiltinFunction::Length.metadata()
    }

    pub open spec fn post(args: Seq<JsonValue>, r: Result<JsonValue, DscError>) -> bool {
        match args[0] {
            JsonValue::Array(xs) => ok_num(r, xs@.len() as int),
            JsonValue::Object(ms) => ok_num(r, ms@.len() as int),
            JsonValue::String(s) => ok_num(r, encode_utf8(s@).len() as int),
            _ => is_parser_err(r),
        }
    }

    pub fn invoke(&self, args: &Vec<JsonValue>, _context: &Context) -> (r: Result<JsonValue, DscError>)
        requires
            args@.len() >= 1,
        ensures
            Self::post(args@, r),
    {
        match &args[0] {
            JsonValue::Array(xs) => Ok(JsonValue::Number(xs.len() as i128)),
            JsonValue::Object(ms) => Ok(JsonValue::Number(ms.len() as i128)),
            JsonValue::String(s) => Ok(JsonValue::Number(s.as_str().as_bytes().len() as i128)),
            _ => parser_error("Invalid argument type"),
        }
    }
}

/// Whether an array holds a value equal to `x`.
pub open spec fn array_has(xs: Seq<JsonValue>, x: JsonValue) -> bool {
    exists|k: int| 0 <= k < xs.len() && json_eq(#[trigger] xs[k], x)
}

fn array_holds(xs: &Vec<JsonValue>, x: &JsonValue) -> (r: bool)
    ensures
        r == array_has(xs@, *x),
{
    let mut k: usize = 0;
    while k < xs.len()
        invariant
            k <= xs@.len(),
            forall|t: int| 0 <= t < k ==> !json_eq(#[trigger] xs@[t], *x),
        decreases xs@.len() - k,
    {
        if json_equals(&xs[k], x) {
            return true;
        }
        k = k + 1;
    }
    false
}

/// Whether every other argument is an array holding `x`.
#[verifier::opaque]
pub open spec fn in_all_arrays(x: JsonValue, rest: Seq<JsonValue>) -> bool {
    forall|l: int| 0 <= l < rest.len() ==> holds_item(#[trigger] rest[l], x)
}

/// Whether looking for `x` through the other arguments meets a value that
/// is not an array before an array that lacks `x`.
#[verifier::opaque]
pub open spec fn array_scan_fails(x: JsonValue, rest: Seq<JsonValue>) -> bool {
    exists|j: int| 0 <= j < rest.len() && !((#[trigger] rest[j]) is Array) && forall|l: int| 0 <= l < j ==> holds_item(#[trigger] rest[l], x)
}

/// The positions of the items of `items` that every other argument holds,
/// each kept only when no equal item was kept before it.
#[verifier::opaque]
pub open spec fn common_items(items: Seq<JsonValue>, rest: Seq<JsonValue>) -> Seq<int>
    decreases items.len(),
{
    if items.len() == 0 {
        Seq::empty()
    } else {
        let acc = common_items(items.drop_last(), rest);
        let x = items.last();
        if in_all_arrays(x, rest) && !(exists|t: int| 0 <= t < acc.len() && json_eq(items[#[trigger] acc[t]], x)) {
            acc.push(items.len() - 1)
        } else {
            acc
        }
    }
}

/// Whether the member `key` of every other argument, all objects, equals
/// `value`.
#[verifier::opaque]
pub open spec fn in_all_objects(key: Seq<char>, value: JsonValue, rest: Seq<JsonValue>) -> bool {
    forall|l: int| 0 <= l < rest.len() ==> shares_member(#[trigger] rest[l], key, value)
}

/// Whether `ms` has a member `key` equal to `value`.
pub open spec fn member_equals(ms: Seq<(String, JsonValue)>, key: Seq<char>, value: JsonValue) -> bool {
    let j = find_key(ms, key);
    0 <= j < ms.len() && json_eq(ms[j].1, value)
}

/// Whether looking for a member through the other arguments meets a value
/// that is not an object before an object that lacks it.
#[verifier::opaque]
pub open spec fn object_scan_fails(key: Seq<char>, value: JsonValue, rest: Seq<JsonValue>) -> bool {
    exists|j: int| 0 <= j < rest.len() && !((#[trigger] rest[j]) is Object) && forall|l: int| 0 <= l < j ==> shares_member(#[trigger] rest[l], key, value)
}

/// The positions of the members of `ms` that every other argument shares.
#[verifier::opaque]
pub open spec fn common_members(ms: Seq<(String, JsonValue)>, rest: Seq<JsonValue>) -> Seq<int>
    decreases ms.len(),
{
    if ms.len() == 0 {
        Seq::empty()
    } else {
        let acc = common_members(ms.drop_last(), rest);
        if in_all_objects(ms.last().0@, ms.last().1, rest) {
            acc.push(ms.len() - 1)
        } else {
            acc
        }
    }
}

fn scan_arrays(x: &JsonValue, args: &Vec<JsonValue>) -> (r: Option<bool>)
    requires
        args@.len() >= 1,
    ensures
        match r {
            None => array_scan_fails(*x, args@.skip(1)),
            Some(b) => !array_scan_fails(*x, args@.skip(1)) && b == in_all_arrays(*x, args@.skip(1)),
        },
{
    proof { reveal(array_scan_fails); reveal(in_all_arrays); }
    let ghost rest = args@.skip(1);
    let mut j: usize = 1;
    while j < args.len()
        invariant
            1 <= j <= args@.len(),
            rest == args@.skip(1),
            forall|l: int| 0 <= l < j - 1 ==> holds_item(#[trigger] rest[l], *x),
        decreases args@.len() - j,
    {
        proof { reveal(array_scan_fails); reveal(in_all_arrays); }
        assert(rest[j - 1] == args@[j as int]);
        match &args[j] {
            JsonValue::Array(ys) => {
                if !array_holds(ys, x) {
                    assert(!holds_item(rest[j - 1], *x));
                    assert forall|jj: int| 0 <= jj < rest.len() && !((#[trigger] rest[jj]) is Array) implies
                        !(forall|l: int| 0 <= l < jj ==> holds_item(#[trigger] rest[l], *x)) by {
                        if jj < j - 1 {
                            assert(holds_item(rest[jj], *x));
                        }
                        assert(!holds_item(rest[j - 1], *x));
                    }
                    return Some(false);
                }
            },
            _ => {
                assert(!(rest[j - 1] is Array));
                return None;
            },
        }
        j = j + 1;
    }
    assert forall|jj: int| 0 <= jj < rest.len() implies (#[trigger] rest[jj]) is Array by {
        assert(holds_item(rest[jj], *x));
    }
    Some(true)
}

fn scan_objects(key: &String, value: &JsonValue, args: &Vec<JsonValue>) -> (r: Option<bool>)
    requires
        args@.len() >= 1,
    ensures
        match r {
            None => object_scan_fails(key@, *value, args@.skip(1)),
            Some(b) => !object_scan_fails(key@, *value, args@.skip(1)) && b == in_all_objects(key@, *value, args@.skip(1)),
        },
{
    proof { reveal(object_scan_fails); reveal(in_all_objects); }
    let ghost rest = args@.skip(1);
    let mut j: usize = 1;
    while j < args.len()
        invariant
            1 <= j <= args@.len(),
            rest == args@.skip(1),
            forall|l: int| 0 <= l < j - 1 ==> shares_member(#[trigger] rest[l], key@, *value),
        decreases args@.len() - j,
    {
        proof { reveal(object_scan_fails); reveal(in_all_objects); }
        assert(rest[j - 1] == args@[j as int]);
        match &args[j] {
            JsonValue::Object(os) => {
                proof { lemma_find_key(os@, key@); }
                let same = match find_member(os, key) {
                    Some(p) => json_equals(&os[p].1, value),
                    None => false,
                };
                if !same {
                    assert(!shares_member(rest[j - 1], key@, *value));
                    assert forall|jj: int| 0 <= jj < rest.len() && !((#[trigger] rest[jj]) is Object) implies
                        !(forall|l: int| 0 <= l < jj ==> shares_member(#[trigger] rest[l], key@, *value)) by {
                        if jj < j - 1 {
                            assert(shares_member(rest[jj], key@, *value));
                        }
                        assert(!shares_member(rest[j - 1], key@, *value));
                    }
                    return Some(false);
                }
            },
            _ => {
                assert(!(rest[j - 1] is Object));
                return None;
            },
        }
        j = j + 1;
    }
    assert forall|jj: int| 0 <= jj < rest.len() implies (#[trigger] rest[jj]) is Object by {
        assert(shares_member(rest[jj], key@, *value));
    }
    Some(true)
}

proof fn lemma_common_items_step(xs: Seq<JsonValue>, rest: Seq<JsonValue>, i: int, chosen: Seq<usize>, found: bool, dup: bool)
    requires
        0 <= i < xs.len(),
        i <= usize::MAX,
        chosen.len() == common_items(xs.take(i), rest).len(),
        forall|t: int| 0 <= t < chosen.len() ==> chosen[t] as int == #[trigger] common_items(xs.take(i), rest)[t],
        forall|t: int| 0 <= t < chosen.len() ==> #[trigger] chosen[t] < i,
        found == in_all_arrays(xs[i], rest),
        found ==> dup == exists|u: int| 0 <= u < chosen.len() && json_eq(xs[#[trigger] chosen[u] as int], xs[i]),
    ensures
        ({
            let c2 = if found && !dup { chosen.push(i as usize) } else { chosen };
            &&& c2.len() == common_items(xs.take(i + 1), rest).len()
            &&& forall|t: int| 0 <= t < c2.len() ==> c2[t] as int == #[trigger] common_items(xs.take(i + 1), rest)[t]
            &&& forall|t: int| 0 <= t < c2.len() ==> #[trigger] c2[t] < i + 1
        }),
{
    reveal(common_items);
    let ti = xs.take(i + 1);
    assert(ti.drop_last() =~= xs.take(i));
    assert(ti.last() == xs[i]);
    let acc = common_items(xs.take(i), rest);
    assert(in_all_arrays(ti.last(), rest) == found);
    if found {
        if dup {
            let u = choose|u: int| 0 <= u < chosen.len() && json_eq(xs[#[trigger] chosen[u] as int], xs[i]);
            assert(acc[u] == chosen[u] as int);
            assert(ti[acc[u]] == xs[acc[u]]);
            assert(json_eq(ti[acc[u]], ti.last()));
            assert(common_items(ti, rest) == acc);
        } else {
            assert forall|t: int| 0 <= t < acc.len() implies !json_eq(ti[#[trigger] acc[t]], ti.last()) by {
                assert(acc[t] == chosen[t] as int);
                assert(chosen[t] < i);
                assert(ti[acc[t]] == xs[acc[t]]);
            }
            assert(common_items(ti, rest) == acc.push(i));
            let c2 = chosen.push(i as usize);
            assert forall|t: int| 0 <= t < c2.len() implies c2[t] as int == #[trigger] common_items(ti, rest)[t] by {
                if t < chosen.len() {
                    assert(c2[t] == chosen[t]);
                    assert(acc.push(i)[t] == acc[t]);
                } else {
                    assert(t == chosen.len());
                    assert(acc.push(i)[t] == i);
                }
            }
        }
    } else {
        assert(common_items(ti, rest) == acc);
    }
}

proof fn lemma_common_members_step(ms: Seq<(String, JsonValue)>, rest: Seq<JsonValue>, i: int)
    requires
        0 <= i < ms.len(),
    ensures
        common_members(ms.take(i + 1), rest) == if in_all_objects(ms[i].0@, ms[i].1, rest) {
            common_members(ms.take(i), rest).push(i)
        } else {
            common_members(ms.take(i), rest)
        },
{
    reveal(common_members);
    let ti = ms.take(i + 1);
    assert(ti.drop_last() =~= ms.take(i));
    assert(ti.last() == ms[i]);
}

fn has_equal_chosen(xs: &Vec<JsonValue>, chosen: &Vec<usize>, i: usize) -> (r: bool)
    requires
        i < xs@.len(),
        forall|u: int| 0 <= u < chosen@.len() ==> chosen@[u] < xs@.len(),
    ensures
        r == exists|u: int| 0 <= u < chosen@.len() && json_eq(xs@[#[trigger] chosen@[u] as int], xs@[i as int]),
{
    let mut t: usize = 0;
    while t < chosen.len()
        invariant
            t <= chosen@.len(),
            i < xs@.len(),
            forall|u: int| 0 <= u < chosen@.len() ==> chosen@[u] < xs@.len(),
            forall|u: int| 0 <= u < t ==> !json_eq(xs@[#[trigger] chosen@[u] as int], xs@[i as int]),
        decreases chosen@.len() - t,
    {
        if json_equals(&xs[chosen[t]], &xs[i]) {
            return true;
        }
        t = t + 1;
    }
    false
}

/// `intersection(a, b, ...)`: the items of the first array that all the
/// other arrays hold, without repeats, or the members of the first object
/// that all the other objects share.
#[derive(Debug, Default)]
pub struct Intersection {}

impl Intersection {
    /// What `intersection` declares about itself.
    pub fn get_metadata(&self) -> (r: FunctionMetadata)
        ensures
            r.name@ == BuiltinFunction::Intersection.spec_name(),
            r.min_args == BuiltinFunction::Intersection.spec_min_args(),
            r.max_args == BuiltinFunction::Intersection.spec_max_args(),
    {
        BuiltinFunction::Intersection.metadata()
    }

    pub open spec fn post(args: Seq<JsonValue>, r: Result<JsonValue, DscError>) -> bool {
        let rest = args.skip(1);
        match args[0] {
            JsonValue::Array(xs) => if exists|i: int| 0 <= i < xs@.len() && array_scan_fails(#[trigger] xs@[i], rest) {
                is_parser_err(r)
            } else {
                let idx = common_items(xs@, rest);
                r matches Ok(JsonValue::Array(out)) && out@.len() == idx.len() && forall|k: int| 0 <= k < idx.len() ==> json_same(#[trigger] out@[k], xs@[idx[k]])
            },
            JsonValue::Object(ms) => if exists|i: int| 0 <= i < ms@.len() && object_scan_fails((#[trigger] ms@[i]).0@, ms@[i].1, rest) {
                is_parser_err(r)
            } else {
                let idx = common_members(ms@, rest);
                r matches Ok(JsonValue::Object(out)) && out@.len() == idx.len() && forall|k: int| 0 <= k < idx.len() ==> (#[trigger] out@[k]).0@ == ms@[idx[k]].0@ && json_same(out@[k].1, ms@[idx[k]].1)
            },
            _ => is_parser_err(r),
        }
    }

    fn common_array(xs: &Vec<JsonValue>, args: &Vec<JsonValue>) -> (r: Option<Vec<JsonValue>>)
        requires
            args@.len() >= 1,
        ensures
            match r {
                None => exists|i: int| 0 <= i < xs@.len() && array_scan_fails(#[trigger] xs@[i], args@.skip(1)),
                Some(out) => {
                    let idx = common_items(xs@, args@.skip(1));
                    &&& !exists|i: int| 0 <= i < xs@.len() && array_scan_fails(#[trigger] xs@[i], args@.skip(1))
                    &&& out@.len() == idx.len()
                    &&& forall|k: int| 0 <= k < idx.len() ==> json_same(#[trigger] out@[k], xs@[idx[k]])
                },
            },
    {
        let ghost rest = args@.skip(1);
        proof {
            reveal(common_items);
            assert(xs@.take(0).len() == 0);
        }
        let mut chosen: Vec<usize> = Vec::new();
        let mut i: usize = 0;
        while i < xs.len()
            invariant
                i <= xs@.len(),
                args@.len() >= 1,
                rest == args@.skip(1),
                forall|t: int| 0 <= t < i ==> !array_scan_fails(#[trigger] xs@[t], rest),
                chosen@.len() == common_items(xs@.take(i as int), rest).len(),
                forall|t: int| 0 <= t < chosen@.len() ==> chosen@[t] as int == #[trigger] common_items(xs@.take(i as int), rest)[t],
                forall|t: int| 0 <= t < chosen@.len() ==> #[trigger] chosen@[t] < i,
            decreases xs@.len() - i,
        {
            match scan_arrays(&xs[i], args) {
                None => {
                    assert(array_scan_fails(xs@[i as int], rest));
                    return None;
                },
                Some(found) => {
                    let dup = if found { has_equal_chosen(xs, &chosen, i) } else { false };
                    proof { lemma_common_items_step(xs@, rest, i as int, chosen@, found, dup); }
                    if found && !dup {
                        chosen.push(i);
                    }
                },
            }
            i = i + 1;
        }
        assert(xs@.take(xs@.len() as int) =~= xs@);
        let mut out: Vec<JsonValue> = Vec::new();
        let mut k: usize = 0;
        while k < chosen.len()
            invariant
                k <= chosen@.len(),
                out@.len() == k,
                forall|t: int| 0 <= t < chosen@.len() ==> #[trigger] chosen@[t] < xs@.len(),
                forall|t: int| 0 <= t < k ==> json_same(#[trigger] out@[t], xs@[chosen@[t] as int]),
            decreases chosen@.len() - k,
        {
            out.push(xs[chosen[k]].deep_copy());
            k = k + 1;
        }
        Some(out)
    }

    fn common_object(ms: &Vec<(String, JsonValue)>, args: &Vec<JsonValue>) -> (r: Option<Vec<(String, JsonValue)>>)
        requires
            args@.len() >= 1,
        ensures
            match r {
                None => exists|i: int| 0 <= i < ms@.len() && object_scan_fails((#[trigger] ms@[i]).0@, ms@[i].1, args@.skip(1)),
                Some(out) => {
                    let idx = common_members(ms@, args@.skip(1));
                    &&& !exists|i: int| 0 <= i < ms@.len() && object_scan_fails((#[trigger] ms@[i]).0@, ms@[i].1, args@.skip(1))
                    &&& out@.len() == idx.len()
                    &&& forall|k: int| 0 <= k < idx.len() ==> (#[trigger] out@[k]).0@ == ms@[idx[k]].0@ && json_same(out@[k].1, ms@[idx[k]].1)
                },
            },
    {
        let ghost rest = args@.skip(1);
        let mut out: Vec<(String, JsonValue)> = Vec::new();
        let ghost mut idx: Seq<int> = Seq::empty();
        proof {
            reveal(common_members);
            assert(ms@.take(0).len() == 0);
            assert(idx =~= common_members(ms@.take(0), rest));
        }
        let mut i: usize = 0;
        while i < ms.len()
            invariant
                i <= ms@.len(),
                args@.len() >= 1,
                rest == args@.skip(1),
                forall|t: int| 0 <= t < i ==> !object_scan_fails((#[trigger] ms@[t]).0@, ms@[t].1, rest),
                idx == common_members(ms@.take(i as int), rest),
                out@.len() == idx.len(),
                forall|t: int| 0 <= t < idx.len() ==> 0 <= #[trigger] idx[t] < i,
                forall|t: int| 0 <= t < idx.len() ==> (#[trigger] out@[t]).0@ == ms@[idx[t]].0@ && json_same(out@[t].1, ms@[idx[t]].1),
            decreases ms@.len() - i,
        {
            match scan_objects(&ms[i].0, &ms[i].1, args) {
                None => {
                    assert(object_scan_fails(ms@[i as int].0@, ms@[i as int].1, rest));
                    return None;
                },
                Some(found) => {
                    proof { lemma_common_members_step(ms@, rest, i as int); }
                    if found {
                        let ghost before = out@;
                        out.push((ms[i].0.clone(), ms[i].1.deep_copy()));
                        proof {
                            idx = idx.push(i as int);
                            assert forall|t: int| 0 <= t < idx.len() implies (#[trigger] out@[t]).0@ == ms@[idx[t]].0@ && json_same(out@[t].1, ms@[idx[t]].1) by {
                                if t < before.len() {
                                    assert(out@[t] == before[t]);
                                }
                            }
                        }
                    }
                },
            }
            i = i + 1;
        }
        assert(ms@.take(ms@.len() as int) =~= ms@);
        Some(out)
    }

    pub fn invoke(&self, args: &Vec<JsonValue>, _context: &Context) -> (r: Result<JsonValue, DscError>)
        requires
            args@.len() >= 1,
        ensures
            Self::post(args@, r),
    {
        match &args[0] {
            JsonValue::Array(xs) => match Self::common_array(xs, args) {
                Some(out) => Ok(JsonValue::Array(out)),
                None => parser_error("Arguments must all be arrays or all be objects"),
            },
            JsonValue::Object(ms) => match Self::common_object(ms, args) {
                Some(out) => Ok(JsonValue::Object(out)),
                None => parser_error("Arguments must all be arrays or all be objects"),
            },
            _ => parser_error("Arguments must all be arrays or all be objects"),
        }
    }
}

/// The text `join` writes for an item: a string, an integer's digits, or
/// `true`/`false`.
pub open spec fn item_text(v: JsonValue) -> Seq<char> {
    match v {
        JsonValue::String(s) => s@,
        JsonValue::Number(n) => decimal(n as int),
        JsonValue::Bool(b) => if b { "true"@ } else { "false"@ },
        _ => Seq::empty(),
    }
}

/// Whether `join` can write the item.
pub open spec fn joinable(v: JsonValue) -> bool {
    v is String || v is Number || v is Bool
}

/// The texts of the items with `delim` between each two.
pub open spec fn joined(items: Seq<JsonValue>, delim: Seq<char>) -> Seq<char>
    decreases items.len(),
{
    if items.len() == 0 {
        Seq::empty()
    } else if items.len() == 1 {
        item_text(items[0])
    } else {
        joined(items.drop_last(), delim) + delim + item_text(items.last())
    }
}

/// `join(array, delimiter)`: the texts of the items with the delimiter
/// between them; items that are null, arrays or objects are refused.
#[derive(Debug, Default)]
pub struct Join {}

impl Join {
    /// What `join` declares about itself.
    pub fn get_metadata(&self) -> (r: FunctionMetadata)
        ensures
            r.name@ == BuiltinFunction::Join.spec_name(),
            r.min_args == BuiltinFunction::Join.spec_min_args(),
            r.max_args == BuiltinFunction::Join.spec_max_args(),
    {
        BuiltinFunction::Join.metadata()
    }

    pub open spec fn post(args: Seq<JsonValue>, r: Result<JsonValue, DscError>) -> bool {
        match args[0] {
            JsonValue::Array(xs) => if forall|k: int| 0 <= k < xs@.len() ==> joinable(#[trigger] xs@[k]) {
                ok_text(r, joined(xs@, args[1]->String_0@))
            } else {
                is_parser_err(r)
            },
            _ => is_parser_err(r),
        }
    }

    pub fn invoke(&self, args: &Vec<JsonValue>, _context: &Context) -> (r: Result<JsonValue, DscError>)
        requires
            args@.len() >= 2,
            args@[1] is String,
        ensures
            Self::post(args@, r),
    {
        let delim = match &args[1] {
            JsonValue::String(d) => d,
            _ => {
                return parser_error("Invalid delimiter");
            },
        };
        match &args[0] {
            JsonValue::Array(xs) => {
                let mut text = String::new();
                let mut k: usize = 0;
                while k < xs.len()
                    invariant
                        k <= xs@.len(),
                        args@.len() >= 2,
                        args@[0] == JsonValue::Array(*xs),
                        args@[1] == JsonValue::String(*delim),
                        forall|t: int| 0 <= t < k ==> joinable(#[trigger] xs@[t]),
                        text@ == joined(xs@.take(k as int), delim@),
                    decreases xs@.len() - k,
                {
                    assert(xs@.take(k + 1).drop_last() =~= xs@.take(k as int));
                    if k > 0 {
                        text.append(delim.as_str());
                    }
                    match &xs[k] {
                        JsonValue::String(s) => text.append(s.as_str()),
                        JsonValue::Number(n) => {
                            let d = int_to_decimal(*n);
                            text.append(d.as_str());
                        },
                        JsonValue::Bool(b) => if *b {
                            text.append("true");
                        } else {
                            text.append("false");
                        },
                        JsonValue::Null => {
                            return parser_error("Array elements cannot be null");
                        },
                        JsonValue::Array(_) => {
                            return parser_error("Array elements cannot be arrays");
                        },
                        JsonValue::Object(_) => {
                            return parser_error("Array elements cannot be objects");
                        },
                    }
                    proof {
                        if k == 0 {
                            assert(text@ =~= item_text(xs@[0]));
                        }
                    }
                    k = k + 1;
                }
                assert(xs@.take(xs@.len() as int) =~= xs@);
                Ok(JsonValue::String(text))
            },
            _ => parser_error("Invalid array argument"),
        }
    }
}

} // verus!
