//! Numeric functions.

use vstd::prelude::*;

use crate::configure::context::{Context, ProcessMode};
use crate::dscerror::DscError;
use crate::functions::{BuiltinFunction, FunctionMetadata, is_parser_err, ok_num, parser_error};
use crate::json::{find_key, find_member, i64_value, JsonValue};

verus! {

/// `div(a, b)`: integer division, truncated toward zero.
#[derive(Debug, Default)]
pub struct Div {}

impl Div {
    /// What `div` declares about itself.
    pub fn get_metadata(&self) -> (r: FunctionMetadata)
        ensures
            r.name@ == BuiltinFunction::Div.spec_name(),
            r.min_args == BuiltinFunction::Div.spec_min_args(),
            r.max_args == BuiltinFunction::Div.spec_max_args(),
    {
        BuiltinFunction::Div.metadata()
    }

    /// Both operands are integers that fit in an `i64`.
    pub open spec fn admits(args: Seq<JsonValue>) -> bool {
        i64_value(args[0]) is Some && i64_value(args[1]) is Some
    }

    pub open spec fn post(args: Seq<JsonValue>, r: Result<JsonValue, DscError>) -> bool {
        let x = i64_value(args[0])->Some_0;
        let y = i64_value(args[1])->Some_0;
        match x.checked_div(y) {
            Some(q) => ok_num(r, q as int),
            None => is_parser_err(r),
        }
    }

    pub fn invoke(&self, args: &Vec<JsonValue>, _context: &Context) -> (r: Result<JsonValue, DscError>)
        requires
            args@.len() >= 2,
            Self::admits(args@),
        ensures
            Self::post(args@, r),
    {
        let x = args[0].as_i64().unwrap();
        let y = args[1].as_i64().unwrap();
        match x.checked_div(y) {
            Some(q) => Ok(JsonValue::Number(q as i128)),
            None => parser_error("Cannot divide by zero"),
        }
    }
}

/// `mod(a, b)`: the remainder of integer division, with the sign of `a`.
#[derive(Debug, Default)]
pub struct Mod {}

impl Mod {
    /// What `mod` declares about itself.
    pub fn get_metadata(&self) -> (r: FunctionMetadata)
        ensures
            r.name@ == BuiltinFunction::Mod.spec_name(),
            r.min_args == BuiltinFunction::Mod.spec_min_args(),
            r.max_args == BuiltinFunction::Mod.spec_max_args(),
    {
        BuiltinFunction::Mod.metadata()
    }

    /// The remainder is not that of `i64::MIN` by `-1`, which overflows.
    pub open spec fn admits(args: Seq<JsonValue>) -> bool {
        !(i64_value(args[0]) == Some(i64::MIN) && i64_value(args[1]) == Some(-1i64))
    }

    pub open spec fn post(args: Seq<JsonValue>, r: Result<JsonValue, DscError>) -> bool {
        match (i64_value(args[0]), i64_value(args[1])) {
            (Some(x), Some(y)) => if y == 0 {
                is_parser_err(r)
            } else {
                x.checked_rem(y) matches Some(m) && ok_num(r, m as int)
            },
            _ => is_parser_err(r),
        }
    }

    pub fn invoke(&self, args: &Vec<JsonValue>, _context: &Context) -> (r: Result<JsonValue, DscError>)
        requires
            args@.len() >= 2,
            Self::admits(args@),
        ensures
            Self::post(args@, r),
    {
        match (args[0].as_i64(), args[1].as_i64()) {
            (Some(x), Some(y)) => {
                if y == 0 {
                    return parser_error("Cannot divide by zero");
                }
                match x.checked_rem(y) {
                    Some(m) => Ok(JsonValue::Number(m as i128)),
                    None => parser_error("Invalid arguments"),
                }
            },
            _ => parser_error("Invalid arguments"),
        }
    }
}

/// The integer that `mul` takes for an argument: its value, or 0 when it is
/// not an integer that fits in an `i64`.
pub open spec fn factor(v: JsonValue) -> int {
    match i64_value(v) {
        Some(n) => n as int,
        None => 0,
    }
}

/// `mul(a, b)`: the product of two integers.
#[derive(Debug, Default)]
pub struct Mul {}

impl Mul {
    /// What `mul` declares about itself.
    pub fn get_metadata(&self) -> (r: FunctionMetadata)
        ensures
            r.name@ == BuiltinFunction::Mul.spec_name(),
            r.min_args == BuiltinFunction::Mul.spec_min_args(),
            r.max_args == BuiltinFunction::Mul.spec_max_args(),
    {
        BuiltinFunction::Mul.metadata()
    }

    /// The product fits in an `i64`.
    pub open spec fn admits(args: Seq<JsonValue>) -> bool {
        i64::MIN <= factor(args[0]) * factor(args[1]) <= i64::MAX
    }

    pub open spec fn post(args: Seq<JsonValue>, r: Result<JsonValue, DscError>) -> bool {
        ok_num(r, factor(args[0]) * factor(args[1]))
    }

    pub fn invoke(&self, args: &Vec<JsonValue>, _context: &Context) -> (r: Result<JsonValue, DscError>)
        requires
            args@.len() >= 2,
            Self::admits(args@),
        ensures
            Self::post(args@, r),
    {
        let x: i64 = match args[0].as_i64() {
            Some(n) => n,
            None => 0,
        };
        let y: i64 = match args[1].as_i64() {
            Some(n) => n,
            None => 0,
        };
        let p = (x as i128) * (y as i128);
        Ok(JsonValue::Number(p))
    }
}

/// Whether every value is an integer that fits in an `i64`.
pub open spec fn all_i64(vals: Seq<JsonValue>) -> bool {
    forall|i: int| 0 <= i < vals.len() ==> (#[trigger] i64_value(vals[i])) is Some
}

/// The integer at position `i`.
pub open spec fn int_at(vals: Seq<JsonValue>, i: int) -> int {
    i64_value(vals[i])->Some_0 as int
}

/// The largest (`largest`) or smallest integer of `vals`; an error when one
/// of them is not an integer or there are none.
pub open spec fn extreme_post(vals: Seq<JsonValue>, r: Result<JsonValue, DscError>, largest: bool) -> bool {
    if !all_i64(vals) || vals.len() == 0 {
        is_parser_err(r)
    } else {
        r matches Ok(JsonValue::Number(m)) && (exists|i: int| 0 <= i < vals.len() && int_at(vals, i) == m) && (
        forall|i: int| 0 <= i < vals.len() ==> if largest { int_at(vals, i) <= m } else { m <= int_at(vals, i) })
    }
}

fn find_extreme(vals: &Vec<JsonValue>, largest: bool) -> (r: Result<JsonValue, DscError>)
    ensures
        extreme_post(vals@, r, largest),
{
    let mut i: usize = 0;
    while i < vals.len()
        invariant
            i <= vals@.len(),
            forall|j: int| 0 <= j < i ==> (#[trigger] i64_value(vals@[j])) is Some,
        decreases vals@.len() - i,
    {
        if vals[i].as_i64().is_none() {
            return parser_error("Input must only contain integers");
        }
        i = i + 1;
    }
    if vals.len() == 0 {
        return parser_error("Unable to find the value");
    }
    let mut best: i64 = vals[0].as_i64().unwrap();
    let mut at: usize = 0;
    let mut k: usize = 1;
    while k < vals.len()
        invariant
            1 <= k <= vals@.len(),
            all_i64(vals@),
            at < k,
            best == int_at(vals@, at as int),
            forall|j: int| 0 <= j < k ==> if largest { int_at(vals@, j) <= best } else { best <= int_at(vals@, j) },
        decreases vals@.len() - k,
    {
        assert(i64_value(vals@[k as int]) is Some);
        let v = vals[k].as_i64().unwrap();
        if (largest && v > best) || (!largest && v < best) {
            best = v;
            at = k;
        }
        k = k + 1;
    }
    assert(int_at(vals@, at as int) == best);
    Ok(JsonValue::Number(best as i128))
}

/// `max(a, b, ...)` or `max(array)`: the largest integer.
#[derive(Debug, Default)]
pub struct Max {}

impl Max {
    /// What `max` declares about itself.
    pub fn get_metadata(&self) -> (r: FunctionMetadata)
        ensures
            r.name@ == BuiltinFunction::Max.spec_name(),
            r.min_args == BuiltinFunction::Max.spec_min_args(),
            r.max_args == BuiltinFunction::Max.spec_max_args(),
    {
        BuiltinFunction::Max.metadata()
    }

    pub open spec fn post(args: Seq<JsonValue>, r: Result<JsonValue, DscError>) -> bool {
        if args.len() == 1 {
            match args[0] {
                JsonValue::Array(xs) => extreme_post(xs@, r, true),
                _ => is_parser_err(r),
            }
        } else {
            extreme_post(args, r, true)
        }
    }

    pub fn invoke(&self, args: &Vec<JsonValue>, _context: &Context) -> (r: Result<JsonValue, DscError>)
        ensures
            Self::post(args@, r),
    {
        if args.len() == 1 {
            match &args[0] {
                JsonValue::Array(xs) => find_extreme(xs, true),
                _ => parser_error("Array cannot be empty"),
            }
        } else {
            find_extreme(args, true)
        }
    }
}

/// `min(a, b, ...)` or `min(array)`: the smallest integer; an array must
/// hold more than one.
#[derive(Debug, Default)]
pub struct Min {}

impl Min {
    /// What `min` declares about itself.
    pub fn get_metadata(&self) -> (r: FunctionMetadata)
        ensures
            r.name@ == BuiltinFunction::Min.spec_name(),
            r.min_args == BuiltinFunction::Min.spec_min_args(),
            r.max_args == BuiltinFunction::Min.spec_max_args(),
    {
        BuiltinFunction::Min.metadata()
    }

    pub open spec fn post(args: Seq<JsonValue>, r: Result<JsonValue, DscError>) -> bool {
        if args.len() == 1 {
            match args[0] {
                JsonValue::Array(xs) => if xs@.len() > 1 {
                    extreme_post(xs@, r, false)
                } else {
                    is_parser_err(r)
                },
                _ => is_parser_err(r),
            }
        } else {
            extreme_post(args, r, false)
        }
    }

    pub fn invoke(&self, args: &Vec<JsonValue>, _context: &Context) -> (r: Result<JsonValue, DscError>)
        ensures
            Self::post(args@, r),
    {
        if args.len() == 1 {
            match &args[0] {
                JsonValue::Array(xs) => if xs.len() > 1 {
                    find_extreme(xs, false)
                } else {
                    parser_error("Array must contain more than 1 integer")
                },
                _ => parser_error("Array cannot be empty"),
            }
        } else {
            find_extreme(args, false)
        }
    }
}

/// The index of the copy loop named `name`.
pub open spec fn loop_index(copy: Seq<(String, i64)>, name: Seq<char>) -> Option<i64> {
    let j = find_key(copy, name);
    if 0 <= j < copy.len() { Some(copy[j].1) } else { None }
}

fn find_loop(copy: &Vec<(String, i64)>, name: &String) -> (r: Option<i64>)
    ensures
        r == loop_index(copy@, name@),
{
    proof { crate::json::lemma_find_key(copy@, name@); }
    match find_member(copy, name) {
        Some(j) => Some(copy[j].1),
        None => None,
    }
}

/// `copyIndex()`, `copyIndex(offset)`, `copyIndex(loopName)` or
/// `copyIndex(loopName, offset)`: the index of a copy loop.
#[derive(Debug, Default)]
pub struct CopyIndex {}

impl CopyIndex {
    /// What `copyIndex` declares about itself.
    pub fn get_metadata(&self) -> (r: FunctionMetadata)
        ensures
            r.name@ == BuiltinFunction::CopyIndex.spec_name(),
            r.min_args == BuiltinFunction::CopyIndex.spec_min_args(),
            r.max_args == BuiltinFunction::CopyIndex.spec_max_args(),
    {
        BuiltinFunction::CopyIndex.metadata()
    }

    /// Adding the offset to the loop index stays within `i64`.
    pub open spec fn admits(args: Seq<JsonValue>, ctx: Context) -> bool {
        &&& (args.len() == 1 ==> match (i64_value(args[0]), loop_index(ctx.copy@, ctx.copy_current_loop_name@)) {
            (Some(off), Some(i)) => off < 0 || i + off <= i64::MAX,
            _ => true,
        })
        &&& (args.len() == 2 ==> match args[0] {
            JsonValue::String(name) => match (loop_index(ctx.copy@, name@), i64_value(args[1])) {
                (Some(i), Some(off)) => i64::MIN <= i + off <= i64::MAX,
                _ => true,
            },
            _ => true,
        })
    }

    pub open spec fn post(args: Seq<JsonValue>, ctx: Context, r: Result<JsonValue, DscError>) -> bool {
        let current = loop_index(ctx.copy@, ctx.copy_current_loop_name@);
        if ctx.process_mode != ProcessMode::Copy {
            is_parser_err(r)
        } else if args.len() == 0 {
            match current {
                Some(i) => ok_num(r, i as int),
                None => is_parser_err(r),
            }
        } else if args.len() == 1 {
            match i64_value(args[0]) {
                Some(off) => if off < 0 {
                    is_parser_err(r)
                } else {
                    match current {
                        Some(i) => ok_num(r, i + off),
                        None => is_parser_err(r),
                    }
                },
                None => match args[0] {
                    JsonValue::String(name) => match loop_index(ctx.copy@, name@) {
                        Some(i) => ok_num(r, i as int),
                        None => is_parser_err(r),
                    },
                    _ => is_parser_err(r),
                },
            }
        } else if args.len() == 2 {
            match args[0] {
                JsonValue::String(name) => match loop_index(ctx.copy@, name@) {
                    Some(i) => match i64_value(args[1]) {
                        Some(off) => ok_num(r, i + off),
                        None => is_parser_err(r),
                    },
                    None => is_parser_err(r),
                },
                _ => is_parser_err(r),
            }
        } else {
            is_parser_err(r)
        }
    }

    pub fn invoke(&self, args: &Vec<JsonValue>, context: &Context) -> (r: Result<JsonValue, DscError>)
        requires
            Self::admits(args@, *context),
        ensures
            Self::post(args@, *context, r),
    {
        if context.process_mode != ProcessMode::Copy {
            return parser_error("The copyIndex function can only be used within a copy loop");
        }
        if args.len() == 0 {
            match find_loop(&context.copy, &context.copy_current_loop_name) {
                Some(i) => Ok(JsonValue::Number(i as i128)),
                None => parser_error("There is no current copy loop"),
            }
        } else if args.len() == 1 {
            match args[0].as_i64() {
                Some(off) => {
                    if off < 0 {
                        return parser_error("The offset cannot be negative");
                    }
                    match find_loop(&context.copy, &context.copy_current_loop_name) {
                        Some(i) => Ok(JsonValue::Number(i as i128 + off as i128)),
                        None => parser_error("There is no current copy loop"),
                    }
                },
                None => match &args[0] {
                    JsonValue::String(name) => match find_loop(&context.copy, name) {
                        Some(i) => Ok(JsonValue::Number(i as i128)),
                        None => parser_error("The copy loop was not found"),
                    },
                    _ => parser_error("Invalid arguments"),
                },
            }
        } else if args.len() == 2 {
            match &args[0] {
                JsonValue::String(name) => match find_loop(&context.copy, name) {
                    Some(i) => match args[1].as_i64() {
                        Some(off) => Ok(JsonValue::Number(i as i128 + off as i128)),
                        None => parser_error("Invalid arguments"),
                    },
                    None => parser_error("The copy loop was not found"),
                },
                _ => parser_error("Invalid arguments"),
            }
        } else {
            parser_error("Invalid arguments")
        }
    }
}

} // verus!
