//! Logical and comparison functions.

use vstd::prelude::*;
use vstd::string::StringExecFns;
use vstd::utf8::encode_utf8;

use crate::configure::context::Context;
use crate::dscerror::DscError;
use crate::functions::{BuiltinFunction, FunctionMetadata, is_parser_err, ok_bool, ok_same, parser_error};
use crate::json::{i64_value, json_eq, json_equals, JsonValue};
use crate::strings::{bytes_less, bytes_lt, lowercase, str_equal, to_lowercase};

verus! {

/// `bool(value)`: a string `true` or `false` in any case, or an integer
/// (non-zero is true), as a boolean.
#[derive(Debug, Default)]
pub struct Bool {}

impl Bool {
    /// What `bool` declares about itself.
    pub fn get_metadata(&self) -> (r: FunctionMetadata)
        ensures
            r.name@ == BuiltinFunction::Bool.spec_name(),
            r.min_args == BuiltinFunction::Bool.spec_min_args(),
            r.max_args == BuiltinFunction::Bool.spec_max_args(),
    {
        BuiltinFunction::Bool.metadata()
    }

    pub open spec fn post(args: Seq<JsonValue>, r: Result<JsonValue, DscError>) -> bool {
        match args[0] {
            JsonValue::String(s) => Self::from_lowercase_post(lowercase(s@), r),
            v => match i64_value(v) {
                Some(n) => ok_bool(r, n != 0),
                None => is_parser_err(r),
            },
        }
    }

    /// What the text of the argument, once lower-cased, gives.
    pub open spec fn from_lowercase_post(lowered: Seq<char>, r: Result<JsonValue, DscError>) -> bool {
        if lowered == "true"@ {
            ok_bool(r, true)
        } else if lowered == "false"@ {
            ok_bool(r, false)
        } else {
            is_parser_err(r)
        }
    }

    /// The boolean that lower-cased text names.
    pub fn from_lowercase(lowered: &String) -> (r: Result<JsonValue, DscError>)
        ensures
            Self::from_lowercase_post(lowered@, r),
    {
        if str_equal(lowered.as_str(), "true") {
            Ok(JsonValue::Bool(true))
        } else if str_equal(lowered.as_str(), "false") {
            Ok(JsonValue::Bool(false))
        } else {
            parser_error("Invalid arguments")
        }
    }

    pub fn invoke(&self, args: &Vec<JsonValue>, _context: &Context) -> (r: Result<JsonValue, DscError>)
        requires
            args@.len() >= 1,
        ensures
            Self::post(args@, r),
    {
        match &args[0] {
            JsonValue::String(s) => {
                let lowered = to_lowercase(s.as_str());
                Self::from_lowercase(&lowered)
            },
            v => match v.as_i64() {
                Some(n) => Ok(JsonValue::Bool(n != 0)),
                None => parser_error("Invalid arguments"),
            },
        }
    }
}

/// `equals(a, b)`: whether two values are equal.
#[derive(Debug, Default)]
pub struct Equals {}

impl Equals {
    /// What `equals` declares about itself.
    pub fn get_metadata(&self) -> (r: FunctionMetadata)
        ensures
            r.name@ == BuiltinFunction::Equals.spec_name(),
            r.min_args == BuiltinFunction::Equals.spec_min_args(),
            r.max_args == BuiltinFunction::Equals.spec_max_args(),
    {
        BuiltinFunction::Equals.metadata()
    }

    pub open spec fn post(args: Seq<JsonValue>, r: Result<JsonValue, DscError>) -> bool {
        ok_bool(r, json_eq(args[0], args[1]))
    }

    pub fn invoke(&self, args: &Vec<JsonValue>, _context: &Context) -> (r: Result<JsonValue, DscError>)
        requires
            args@.len() >= 2,
        ensures
            Self::post(args@, r),
    {
        Ok(JsonValue::Bool(json_equals(&args[0], &args[1])))
    }
}

/// `false()`.
#[derive(Debug, Default)]
pub struct False {}

impl False {
    /// What `false` declares about itself.
    pub fn get_metadata(&self) -> (r: FunctionMetadata)
        ensures
            r.name@ == BuiltinFunction::False.spec_name(),
            r.min_args == BuiltinFunction::False.spec_min_args(),
            r.max_args == BuiltinFunction::False.spec_max_args(),
    {
        BuiltinFunction::False.metadata()
    }

    pub open spec fn post(args: Seq<JsonValue>, r: Result<JsonValue, DscError>) -> bool {
        ok_bool(r, false)
    }

    pub fn invoke(&self, _args: &Vec<JsonValue>, _context: &Context) -> (r: Result<JsonValue, DscError>)
        ensures
            Self::post(_args@, r),
    {
        Ok(JsonValue::Bool(false))
    }
}

/// `null()`.
#[derive(Debug, Default)]
pub struct Null {}

impl Null {
    /// What `null` declares about itself.
    pub fn get_metadata(&self) -> (r: FunctionMetadata)
        ensures
            r.name@ == BuiltinFunction::Null.spec_name(),
            r.min_args == BuiltinFunction::Null.spec_min_args(),
            r.max_args == BuiltinFunction::Null.spec_max_args(),
    {
        BuiltinFunction::Null.metadata()
    }

    pub open spec fn post(args: Seq<JsonValue>, r: Result<JsonValue, DscError>) -> bool {
        r == Ok::<JsonValue, DscError>(JsonValue::Null)
    }

    pub fn invoke(&self, _args: &Vec<JsonValue>, _context: &Context) -> (r: Result<JsonValue, DscError>)
        ensures
            Self::post(_args@, r),
    {
        Ok(JsonValue::Null)
    }
}

/// The two arguments compared: as integers when both are integers that
/// fit in an `i64`, else as strings in byte order when both are strings.
pub open spec fn compare_post(args: Seq<JsonValue>, r: Result<JsonValue, DscError>, greater: bool) -> bool {
    match (i64_value(args[0]), i64_value(args[1])) {
        (Some(x), Some(y)) => ok_bool(r, if greater { x > y } else { x < y }),
        _ => match (args[0], args[1]) {
            (JsonValue::String(a), JsonValue::String(b)) => ok_bool(
                r,
                if greater { bytes_lt(encode_utf8(b@), encode_utf8(a@)) } else { bytes_lt(encode_utf8(a@), encode_utf8(b@)) },
            ),
            _ => is_parser_err(r),
        },
    }
}

fn compare(args: &Vec<JsonValue>, greater: bool) -> (r: Result<JsonValue, DscError>)
    requires
        args@.len() >= 2,
    ensures
        compare_post(args@, r, greater),
{
    if let (Some(x), Some(y)) = (args[0].as_i64(), args[1].as_i64()) {
        return Ok(JsonValue::Bool(if greater { x > y } else { x < y }));
    }
    match (&args[0], &args[1]) {
        (JsonValue::String(a), JsonValue::String(b)) => {
            let ab = a.as_str().as_bytes();
            let bb = b.as_str().as_bytes();
            let lt = if greater { bytes_less(bb, ab) } else { bytes_less(ab, bb) };
            Ok(JsonValue::Bool(lt))
        },
        _ => parser_error("Arguments must be of the same type (both numbers or strings)"),
    }
}

/// `greater(a, b)`: whether `a > b`.
#[derive(Debug, Default)]
pub struct Greater {}

impl Greater {
    /// What `greater` declares about itself.
    pub fn get_metadata(&self) -> (r: FunctionMetadata)
        ensures
            r.name@ == BuiltinFunction::Greater.spec_name(),
            r.min_args == BuiltinFunction::Greater.spec_min_args(),
            r.max_args == BuiltinFunction::Greater.spec_max_args(),
    {
        BuiltinFunction::Greater.metadata()
    }

    pub open spec fn post(args: Seq<JsonValue>, r: Result<JsonValue, DscError>) -> bool {
        compare_post(args, r, true)
    }

    pub fn invoke(&self, args: &Vec<JsonValue>, _context: &Context) -> (r: Result<JsonValue, DscError>)
        requires
            args@.len() >= 2,
        ensures
            Self::post(args@, r),
    {
        compare(args, true)
    }
}

/// `less(a, b)`: whether `a < b`.
#[derive(Debug, Default)]
pub struct Less {}

impl Less {
    /// What `less` declares about itself.
    pub fn get_metadata(&self) -> (r: FunctionMetadata)
        ensures
            r.name@ == BuiltinFunction::Less.spec_name(),
            r.min_args == BuiltinFunction::Less.spec_min_args(),
            r.max_args == BuiltinFunction::Less.spec_max_args(),
    {
        BuiltinFunction::Less.metadata()
    }

    pub open spec fn post(args: Seq<JsonValue>, r: Result<JsonValue, DscError>) -> bool {
        compare_post(args, r, false)
    }

    pub fn invoke(&self, args: &Vec<JsonValue>, _context: &Context) -> (r: Result<JsonValue, DscError>)
        requires
            args@.len() >= 2,
        ensures
            Self::post(args@, r),
    {
        compare(args, false)
    }
}

/// `lessOrEquals(a, b)`: whether the number `a` is at most the number `b`.
#[derive(Debug, Default)]
pub struct LessOrEquals {}

impl LessOrEquals {
    /// What `lessOrEquals` declares about itself.
    pub fn get_metadata(&self) -> (r: FunctionMetadata)
        ensures
            r.name@ == BuiltinFunction::LessOrEquals.spec_name(),
            r.min_args == BuiltinFunction::LessOrEquals.spec_min_args(),
            r.max_args == BuiltinFunction::LessOrEquals.spec_max_args(),
    {
        BuiltinFunction::LessOrEquals.metadata()
    }

    pub open spec fn post(args: Seq<JsonValue>, r: Result<JsonValue, DscError>) -> bool {
        match (args[0], args[1]) {
            (JsonValue::Number(x), JsonValue::Number(y)) => ok_bool(r, x <= y),
            _ => is_parser_err(r),
        }
    }

    pub fn invoke(&self, args: &Vec<JsonValue>, _context: &Context) -> (r: Result<JsonValue, DscError>)
        requires
            args@.len() >= 2,
        ensures
            Self::post(args@, r),
    {
        match (&args[0], &args[1]) {
            (JsonValue::Number(x), JsonValue::Number(y)) => Ok(JsonValue::Bool(*x <= *y)),
            _ => parser_error("Invalid arguments"),
        }
    }
}

/// `if(condition, whenTrue, whenFalse)`.
#[derive(Debug, Default)]
pub struct If {}

impl If {
    /// What `if` declares about itself.
    pub fn get_metadata(&self) -> (r: FunctionMetadata)
        ensures
            r.name@ == BuiltinFunction::If.spec_name(),
            r.min_args == BuiltinFunction::If.spec_min_args(),
            r.max_args == BuiltinFunction::If.spec_max_args(),
    {
        BuiltinFunction::If.metadata()
    }

    pub open spec fn post(args: Seq<JsonValue>, r: Result<JsonValue, DscError>) -> bool {
        match args[0] {
            JsonValue::Bool(c) => ok_same(r, if c { args[1] } else { args[2] }),
            _ => r matches Err(DscError::Function(n, _)) && n@ == "if"@,
        }
    }

    pub fn invoke(&self, args: &Vec<JsonValue>, _context: &Context) -> (r: Result<JsonValue, DscError>)
        requires
            args@.len() >= 3,
        ensures
            Self::post(args@, r),
    {
        match &args[0] {
            JsonValue::Bool(c) => if *c {
                Ok(args[1].deep_copy())
            } else {
                Ok(args[2].deep_copy())
            },
            _ => Err(DscError::Function(String::from_str("if"), String::from_str("Condition is not a boolean"))),
        }
    }
}

/// `not(value)`: the negation of a boolean.
#[derive(Debug, Default)]
pub struct Not {}

impl Not {
    /// What `not` declares about itself.
    pub fn get_metadata(&self) -> (r: FunctionMetadata)
        ensures
            r.name@ == BuiltinFunction::Not.spec_name(),
            r.min_args == BuiltinFunction::Not.spec_min_args(),
            r.max_args == BuiltinFunction::Not.spec_max_args(),
    {
        BuiltinFunction::Not.metadata()
    }

    pub open spec fn post(args: Seq<JsonValue>, r: Result<JsonValue, DscError>) -> bool {
        match args[0] {
            JsonValue::Bool(b) => ok_bool(r, !b),
            _ => is_parser_err(r),
        }
    }

    pub fn invoke(&self, args: &Vec<JsonValue>, _context: &Context) -> (r: Result<JsonValue, DscError>)
        requires
            args@.len() >= 1,
        ensures
            Self::post(args@, r),
    {
        match &args[0] {
            JsonValue::Bool(b) => Ok(JsonValue::Bool(!*b)),
            _ => parser_error("Invalid arguments"),
        }
    }
}

/// What `or` gives for `args` read from the left: `true` at the first
/// `true`, an error at a value that is not a boolean before it, else `false`.
pub open spec fn or_result(args: Seq<JsonValue>) -> Option<bool>
    decreases args.len(),
{
    if args.len() == 0 {
        Some(false)
    } else {
        match args[0] {
            JsonValue::Bool(true) => Some(true),
            JsonValue::Bool(false) => or_result(args.drop_first()),
            _ => None,
        }
    }
}

/// `or(a, b, ...)`: whether any of the booleans is true.
#[derive(Debug, Default)]
pub struct Or {}

impl Or {
    /// What `or` declares about itself.
    pub fn get_metadata(&self) -> (r: FunctionMetadata)
        ensures
            r.name@ == BuiltinFunction::Or.spec_name(),
            r.min_args == BuiltinFunction::Or.spec_min_args(),
            r.max_args == BuiltinFunction::Or.spec_max_args(),
    {
        BuiltinFunction::Or.metadata()
    }

    pub open spec fn post(args: Seq<JsonValue>, r: Result<JsonValue, DscError>) -> bool {
        match or_result(args) {
            Some(b) => ok_bool(r, b),
            None => is_parser_err(r),
        }
    }

    pub fn invoke(&self, args: &Vec<JsonValue>, _context: &Context) -> (r: Result<JsonValue, DscError>)
        ensures
            Self::post(args@, r),
    {
        let mut i: usize = 0;
        assert(args@.skip(0) =~= args@);
        while i < args.len()
            invariant
                i <= args@.len(),
                or_result(args@) == or_result(args@.skip(i as int)),
            decreases args@.len() - i,
        {
            assert(args@.skip(i as int).drop_first() =~= args@.skip(i + 1));
            assert(args@.skip(i as int)[0] == args@[i as int]);
            match &args[i] {
                JsonValue::Bool(true) => {
                    return Ok(JsonValue::Bool(true));
                },
                JsonValue::Bool(false) => {},
                _ => {
                    return parser_error("Invalid arguments");
                },
            }
            i = i + 1;
        }
        Ok(JsonValue::Bool(false))
    }
}

} // verus!
