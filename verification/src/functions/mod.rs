//! The built-in functions of configuration expressions, and the dispatcher
//! that checks the arguments of a call before it invokes one.

use vstd::prelude::*;
use vstd::string::StringExecFns;

use crate::configure::context::Context;
use crate::dscerror::DscError;
use crate::json::{find_key, find_member, json_same, lemma_find_key, JsonValue};

pub mod array;
pub mod laws;
pub mod logical;
pub mod numeric;
pub mod string;

use crate::functions::array::{
    Array, Coalesce, Concat, Contains, CreateArray, Empty, First, IndexOf, Intersection, Join,
    LastIndexOf, Length,
};
use crate::functions::logical::{Bool, Equals, False, Greater, If, Less, LessOrEquals, Not, Null, Or};
use crate::functions::numeric::{CopyIndex, Div, Max, Min, Mod, Mul};
use crate::functions::string::{Base64, EndsWith, Envvar, Format, FormatRequest, MountedPath};

verus! {

/// The kind of a JSON value, as the functions' argument rules name it.
#[derive(Debug, Clone, Copy, PartialEq, Eq, Structural)]
pub enum AcceptedArgKind {
    Array,
    Boolean,
    Null,
    Number,
    Object,
    String,
}

/// The kind of a JSON value.
pub open spec fn kind_of(v: JsonValue) -> AcceptedArgKind {
    match v {
        JsonValue::Null => AcceptedArgKind::Null,
        JsonValue::Bool(_) => AcceptedArgKind::Boolean,
        JsonValue::Number(_) => AcceptedArgKind::Number,
        JsonValue::String(_) => AcceptedArgKind::String,
        JsonValue::Array(_) => AcceptedArgKind::Array,
        JsonValue::Object(_) => AcceptedArgKind::Object,
    }
}

/// The kind of a JSON value.
pub fn value_kind(v: &JsonValue) -> (r: AcceptedArgKind)
    ensures
        r == kind_of(*v),
{
    match v {
        JsonValue::Null => AcceptedArgKind::Null,
        JsonValue::Bool(_) => AcceptedArgKind::Boolean,
        JsonValue::Number(_) => AcceptedArgKind::Number,
        JsonValue::String(_) => AcceptedArgKind::String,
        JsonValue::Array(_) => AcceptedArgKind::Array,
        JsonValue::Object(_) => AcceptedArgKind::Object,
    }
}

/// An error from the expression parser.
pub open spec fn is_parser_err(r: Result<JsonValue, DscError>) -> bool {
    r matches Err(DscError::Parser(_))
}

/// The boolean `b`.
pub open spec fn ok_bool(r: Result<JsonValue, DscError>, b: bool) -> bool {
    r == Ok::<JsonValue, DscError>(JsonValue::Bool(b))
}

/// The number `n`.
pub open spec fn ok_num(r: Result<JsonValue, DscError>, n: int) -> bool {
    r matches Ok(JsonValue::Number(x)) && x == n
}

/// The string `s`.
pub open spec fn ok_text(r: Result<JsonValue, DscError>, s: Seq<char>) -> bool {
    r matches Ok(JsonValue::String(x)) && x@ == s
}

/// A copy of `v`.
pub open spec fn ok_same(r: Result<JsonValue, DscError>, v: JsonValue) -> bool {
    r matches Ok(x) && json_same(x, v)
}

pub(crate) fn parser_error(msg: &str) -> (r: Result<JsonValue, DscError>)
    ensures
        is_parser_err(r),
{
    Err(DscError::Parser(String::from_str(msg)))
}

/// The category a function is listed under.
#[derive(Debug, Clone, Copy, PartialEq, Eq, Structural)]
pub enum FunctionCategory {
    Array,
    Comparison,
    Date,
    Deployment,
    Lambda,
    Logical,
    Numeric,
    Object,
    Resource,
    String,
    System,
}

impl FunctionCategory {
    /// The category's name.
    pub fn name(&self) -> (r: String)
        ensures
            r@ == self.spec_name(),
    {
        match self {
            FunctionCategory::Array => String::from_str("Array"),
            FunctionCategory::Comparison => String::from_str("Comparison"),
            FunctionCategory::Date => String::from_str("Date"),
            FunctionCategory::Deployment => String::from_str("Deployment"),
            FunctionCategory::Lambda => String::from_str("Lambda"),
            FunctionCategory::Logical => String::from_str("Logical"),
            FunctionCategory::Numeric => String::from_str("Numeric"),
            FunctionCategory::Object => String::from_str("Object"),
            FunctionCategory::Resource => String::from_str("Resource"),
            FunctionCategory::String => String::from_str("String"),
            FunctionCategory::System => String::from_str("System"),
        }
    }

    /// The category's name.
    pub open spec fn spec_name(self) -> Seq<char> {
        match self {
            FunctionCategory::Array => "Array"@,
            FunctionCategory::Comparison => "Comparison"@,
            FunctionCategory::Date => "Date"@,
            FunctionCategory::Deployment => "Deployment"@,
            FunctionCategory::Lambda => "Lambda"@,
            FunctionCategory::Logical => "Logical"@,
            FunctionCategory::Numeric => "Numeric"@,
            FunctionCategory::Object => "Object"@,
            FunctionCategory::Resource => "Resource"@,
            FunctionCategory::String => "String"@,
            FunctionCategory::System => "System"@,
        }
    }
}

/// What a function declares about itself: its name, its arguments and what
/// it returns.
#[derive(Debug)]
pub struct FunctionMetadata {
    pub name: String,
    pub description: String,
    pub category: Vec<FunctionCategory>,
    pub min_args: usize,
    pub max_args: usize,
    /// The kinds accepted at each of the first positions.
    pub accepted_arg_ordered_types: Vec<Vec<AcceptedArgKind>>,
    /// The kinds accepted at every later position, if more are allowed.
    pub remaining_arg_accepted_types: Option<Vec<AcceptedArgKind>>,
    pub return_types: Vec<AcceptedArgKind>,
}

/// An entry of the list of functions.
#[derive(Debug)]
pub struct FunctionDefinition {
    pub category: Vec<FunctionCategory>,
    pub name: String,
    pub description: String,
    pub min_args: usize,
    pub max_args: usize,
    pub accepted_arg_ordered_types: Vec<Vec<AcceptedArgKind>>,
    pub remaining_arg_accepted_types: Option<Vec<AcceptedArgKind>>,
    pub return_types: Vec<AcceptedArgKind>,
}

/// The built-in functions.
#[derive(Debug, Clone, Copy, PartialEq, Eq, Structural)]
pub enum BuiltinFunction {
    Array,
    Base64,
    Bool,
    Coalesce,
    Concat,
    Contains,
    CopyIndex,
    CreateArray,
    Div,
    Empty,
    EndsWith,
    Envvar,
    Equals,
    False,
    First,
    Format,
    Greater,
    If,
    IndexOf,
    Intersection,
    Join,
    LastIndexOf,
    Length,
    Less,
    LessOrEquals,
    Max,
    Min,
    Mod,
    MountedPath,
    Mul,
    Not,
    Null,
    Or,
}

/// The result of invoking a function: a value, or for `format` the
/// request to format that the caller completes.
#[derive(Debug)]
pub enum Invocation {
    Value(JsonValue),
    Format(FormatRequest),
}

pub open spec fn kinds1(a: AcceptedArgKind) -> Seq<AcceptedArgKind> {
    seq![a]
}

pub open spec fn any_kind() -> Seq<AcceptedArgKind> {
    seq![
        AcceptedArgKind::Array,
        AcceptedArgKind::Boolean,
        AcceptedArgKind::Null,
        AcceptedArgKind::Number,
        AcceptedArgKind::Object,
        AcceptedArgKind::String,
    ]
}

impl BuiltinFunction {
    /// The name under which the function is called.
    pub open spec fn spec_name(self) -> Seq<char> {
        match self {
            BuiltinFunction::Array => "array"@,
            BuiltinFunction::Base64 => "base64"@,
            BuiltinFunction::Bool => "bool"@,
            BuiltinFunction::Coalesce => "coalesce"@,
            BuiltinFunction::Concat => "concat"@,
            BuiltinFunction::Contains => "contains"@,
            BuiltinFunction::CopyIndex => "copyIndex"@,
            BuiltinFunction::CreateArray => "createArray"@,
            BuiltinFunction::Div => "div"@,
            BuiltinFunction::Empty => "empty"@,
            BuiltinFunction::EndsWith => "endsWith"@,
            BuiltinFunction::Envvar => "envvar"@,
            BuiltinFunction::Equals => "equals"@,
            BuiltinFunction::False => "false"@,
            BuiltinFunction::First => "first"@,
            BuiltinFunction::Format => "format"@,
            BuiltinFunction::Greater => "greater"@,
            BuiltinFunction::If => "if"@,
            BuiltinFunction::IndexOf => "indexOf"@,
            BuiltinFunction::Intersection => "intersection"@,
            BuiltinFunction::Join => "join"@,
            BuiltinFunction::LastIndexOf => "lastIndexOf"@,
            BuiltinFunction::Length => "length"@,
            BuiltinFunction::Less => "less"@,
            BuiltinFunction::LessOrEquals => "lessOrEquals"@,
            BuiltinFunction::Max => "max"@,
            BuiltinFunction::Min => "min"@,
            BuiltinFunction::Mod => "mod"@,
            BuiltinFunction::MountedPath => "mountedpath"@,
            BuiltinFunction::Mul => "mul"@,
            BuiltinFunction::Not => "not"@,
            BuiltinFunction::Null => "null"@,
            BuiltinFunction::Or => "or"@,
        }
    }

    /// The name under which the function is called.
    pub fn name(&self) -> (r: String)
        ensures
            r@ == self.spec_name(),
    {
        match self {
            BuiltinFunction::Array => String::from_str("array"),
            BuiltinFunction::Base64 => String::from_str("base64"),
            BuiltinFunction::Bool => String::from_str("bool"),
            BuiltinFunction::Coalesce => String::from_str("coalesce"),
            BuiltinFunction::Concat => String::from_str("concat"),
            BuiltinFunction::Contains => String::from_str("contains"),
            BuiltinFunction::CopyIndex => String::from_str("copyIndex"),
            BuiltinFunction::CreateArray => String::from_str("createArray"),
            BuiltinFunction::Div => String::from_str("div"),
            BuiltinFunction::Empty => String::from_str("empty"),
            BuiltinFunction::EndsWith => String::from_str("endsWith"),
            BuiltinFunction::Envvar => String::from_str("envvar"),
            BuiltinFunction::Equals => String::from_str("equals"),
            BuiltinFunction::False => String::from_str("false"),
            BuiltinFunction::First => String::from_str("first"),
            BuiltinFunction::Format => String::from_str("format"),
            BuiltinFunction::Greater => String::from_str("greater"),
            BuiltinFunction::If => String::from_str("if"),
            BuiltinFunction::IndexOf => String::from_str("indexOf"),
            BuiltinFunction::Intersection => String::from_str("intersection"),
            BuiltinFunction::Join => String::from_str("join"),
            BuiltinFunction::LastIndexOf => String::from_str("lastIndexOf"),
            BuiltinFunction::Length => String::from_str("length"),
            BuiltinFunction::Less => String::from_str("less"),
            BuiltinFunction::LessOrEquals => String::from_str("lessOrEquals"),
            BuiltinFunction::Max => String::from_str("max"),
            BuiltinFunction::Min => String::from_str("min"),
            BuiltinFunction::Mod => String::from_str("mod"),
            BuiltinFunction::MountedPath => String::from_str("mountedpath"),
            BuiltinFunction::Mul => String::from_str("mul"),
            BuiltinFunction::Not => String::from_str("not"),
            BuiltinFunction::Null => String::from_str("null"),
            BuiltinFunction::Or => String::from_str("or"),
        }
    }

    /// The fewest arguments the function takes.
    pub open spec fn spec_min_args(self) -> usize {
        match self {
            BuiltinFunction::CopyIndex | BuiltinFunction::CreateArray | BuiltinFunction::False
            | BuiltinFunction::MountedPath | BuiltinFunction::Null => 0,
            BuiltinFunction::Array | BuiltinFunction::Base64 | BuiltinFunction::Bool
            | BuiltinFunction::Coalesce | BuiltinFunction::Empty | BuiltinFunction::Envvar
            | BuiltinFunction::First | BuiltinFunction::Length | BuiltinFunction::Max
            | BuiltinFunction::Min | BuiltinFunction::Not => 1,
            BuiltinFunction::If => 3,
            _ => 2,
        }
    }

    /// The most arguments the function takes.
    pub open spec fn spec_max_args(self) -> usize {
        match self {
            BuiltinFunction::False | BuiltinFunction::Null => 0,
            BuiltinFunction::Array | BuiltinFunction::Base64 | BuiltinFunction::Bool
            | BuiltinFunction::Empty | BuiltinFunction::Envvar | BuiltinFunction::First
            | BuiltinFunction::Length | BuiltinFunction::MountedPath | BuiltinFunction::Not => 1,
            BuiltinFunction::If => 3,
            BuiltinFunction::Coalesce | BuiltinFunction::Concat | BuiltinFunction::CreateArray
            | BuiltinFunction::Format | BuiltinFunction::Intersection | BuiltinFunction::Max
            | BuiltinFunction::Min | BuiltinFunction::Or => usize::MAX,
            _ => 2,
        }
    }

    /// The kinds accepted at each of the first argument positions.
    pub open spec fn ordered_kinds(self) -> Seq<Seq<AcceptedArgKind>> {
        match self {
            BuiltinFunction::Array => seq![seq![AcceptedArgKind::String, AcceptedArgKind::Number, AcceptedArgKind::Object, AcceptedArgKind::Array]],
            BuiltinFunction::Base64 | BuiltinFunction::Envvar => seq![kinds1(AcceptedArgKind::String)],
            BuiltinFunction::Bool => seq![seq![AcceptedArgKind::String, AcceptedArgKind::Number]],
            BuiltinFunction::Coalesce => seq![any_kind()],
            BuiltinFunction::Concat => seq![seq![AcceptedArgKind::String, AcceptedArgKind::Array], seq![AcceptedArgKind::String, AcceptedArgKind::Array]],
            BuiltinFunction::Contains => seq![
                seq![AcceptedArgKind::Array, AcceptedArgKind::Object, AcceptedArgKind::String],
                seq![AcceptedArgKind::String, AcceptedArgKind::Number],
            ],
            BuiltinFunction::CopyIndex => seq![seq![AcceptedArgKind::String, AcceptedArgKind::Number], kinds1(AcceptedArgKind::Number)],
            BuiltinFunction::Empty | BuiltinFunction::Length => seq![seq![AcceptedArgKind::Array, AcceptedArgKind::Object, AcceptedArgKind::String]],
            BuiltinFunction::EndsWith => seq![kinds1(AcceptedArgKind::String), kinds1(AcceptedArgKind::String)],
            BuiltinFunction::First => seq![seq![AcceptedArgKind::Array, AcceptedArgKind::String]],
            BuiltinFunction::Format => seq![kinds1(AcceptedArgKind::String)],
            BuiltinFunction::IndexOf | BuiltinFunction::LastIndexOf => seq![
                kinds1(AcceptedArgKind::Array),
                seq![AcceptedArgKind::String, AcceptedArgKind::Number, AcceptedArgKind::Array, AcceptedArgKind::Object],
            ],
            BuiltinFunction::Intersection => seq![seq![AcceptedArgKind::Array, AcceptedArgKind::Object], seq![AcceptedArgKind::Array, AcceptedArgKind::Object]],
            BuiltinFunction::Join => seq![kinds1(AcceptedArgKind::Array), kinds1(AcceptedArgKind::String)],
            BuiltinFunction::Less => seq![seq![AcceptedArgKind::Number, AcceptedArgKind::String], seq![AcceptedArgKind::Number, AcceptedArgKind::String]],
            BuiltinFunction::Max => seq![seq![AcceptedArgKind::Number, AcceptedArgKind::Array]],
            BuiltinFunction::Not => seq![kinds1(AcceptedArgKind::Boolean)],
            _ => seq![],
        }
    }

    /// The kinds accepted at every position after the ordered ones, when
    /// more arguments are allowed there.
    pub open spec fn remaining_kinds(self) -> Option<Seq<AcceptedArgKind>> {
        match self {
            BuiltinFunction::Coalesce => Some(any_kind()),
            BuiltinFunction::Concat => Some(seq![AcceptedArgKind::String, AcceptedArgKind::Array]),
            BuiltinFunction::CreateArray => Some(seq![AcceptedArgKind::String, AcceptedArgKind::Number, AcceptedArgKind::Object, AcceptedArgKind::Array]),
            BuiltinFunction::Div | BuiltinFunction::Mod | BuiltinFunction::Mul => Some(kinds1(AcceptedArgKind::Number)),
            BuiltinFunction::Equals => Some(seq![AcceptedArgKind::Number, AcceptedArgKind::String, AcceptedArgKind::Array, AcceptedArgKind::Object]),
            BuiltinFunction::Format => Some(seq![AcceptedArgKind::Boolean, AcceptedArgKind::Number, AcceptedArgKind::String]),
            BuiltinFunction::Greater => Some(seq![AcceptedArgKind::Number, AcceptedArgKind::String]),
            BuiltinFunction::If => Some(seq![AcceptedArgKind::Boolean, AcceptedArgKind::String, AcceptedArgKind::Number, AcceptedArgKind::Array, AcceptedArgKind::Object]),
            BuiltinFunction::Intersection => Some(seq![AcceptedArgKind::Array, AcceptedArgKind::Object]),
            BuiltinFunction::LessOrEquals => Some(kinds1(AcceptedArgKind::Number)),
            BuiltinFunction::Max | BuiltinFunction::Min => Some(seq![AcceptedArgKind::Number, AcceptedArgKind::Array]),
            BuiltinFunction::MountedPath => Some(kinds1(AcceptedArgKind::String)),
            BuiltinFunction::Or => Some(kinds1(AcceptedArgKind::Boolean)),
            _ => None,
        }
    }

    /// Whether an argument of kind `k` is accepted at position `i`.
    pub open spec fn accepts(self, i: int, k: AcceptedArgKind) -> bool {
        if i < self.ordered_kinds().len() {
            self.ordered_kinds()[i].contains(k)
        } else {
            self.remaining_kinds() matches Some(ks) && ks.contains(k)
        }
    }

    /// Whether `args` has an admissible count and an accepted kind at each
    /// position.
    pub open spec fn args_valid(self, args: Seq<JsonValue>) -> bool {
        &&& self.spec_min_args() <= args.len() <= self.spec_max_args()
        &&& forall|i: int| 0 <= i < args.len() ==> self.accepts(i, kind_of(#[trigger] args[i]))
    }

    /// The inputs on which the function itself would fail unrecoverably
    /// (an unchecked unwrap or an integer overflow); they are excluded.
    pub open spec fn admits(self, args: Seq<JsonValue>, ctx: Context) -> bool {
        match self {
            BuiltinFunction::CopyIndex => CopyIndex::admits(args, ctx),
            BuiltinFunction::Div => Div::admits(args),
            BuiltinFunction::Mod => Mod::admits(args),
            BuiltinFunction::Mul => Mul::admits(args),
            _ => true,
        }
    }

    /// What invoking the function on valid arguments gives.
    pub open spec fn post(self, args: Seq<JsonValue>, ctx: Context, r: Result<Invocation, DscError>) -> bool {
        match self {
            BuiltinFunction::Format => Format::post(args, r),
            _ => match r {
                Ok(Invocation::Value(v)) => self.value_post(args, ctx, Ok(v)),
                Ok(Invocation::Format(_)) => false,
                Err(e) => self.value_post(args, ctx, Err(e)),
            },
        }
    }

    /// What invoking a value-returning function gives.
    pub open spec fn value_post(self, args: Seq<JsonValue>, ctx: Context, r: Result<JsonValue, DscError>) -> bool {
        match self {
            BuiltinFunction::Array => Array::post(args, r),
            BuiltinFunction::Base64 => Base64::post(args, r),
            BuiltinFunction::Bool => Bool::post(args, r),
            BuiltinFunction::Coalesce => Coalesce::post(args, r),
            BuiltinFunction::Concat => Concat::post(args, r),
            BuiltinFunction::Contains => Contains::post(args, r),
            BuiltinFunction::CopyIndex => CopyIndex::post(args, ctx, r),
            BuiltinFunction::CreateArray => CreateArray::post(args, r),
            BuiltinFunction::Div => Div::post(args, r),
            BuiltinFunction::Empty => Empty::post(args, r),
            BuiltinFunction::EndsWith => EndsWith::post(args, r),
            BuiltinFunction::Envvar => Envvar::post(args, ctx, r),
            BuiltinFunction::Equals => Equals::post(args, r),
            BuiltinFunction::False => False::post(args, r),
            BuiltinFunction::First => First::post(args, r),
            BuiltinFunction::Format => false,
            BuiltinFunction::Greater => Greater::post(args, r),
            BuiltinFunction::If => If::post(args, r),
            BuiltinFunction::IndexOf => IndexOf::post(args, r),
            BuiltinFunction::Intersection => Intersection::post(args, r),
            BuiltinFunction::Join => Join::post(args, r),
            BuiltinFunction::LastIndexOf => LastIndexOf::post(args, r),
            BuiltinFunction::Length => Length::post(args, r),
            BuiltinFunction::Less => Less::post(args, r),
            BuiltinFunction::LessOrEquals => LessOrEquals::post(args, r),
            BuiltinFunction::Max => Max::post(args, r),
            BuiltinFunction::Min => Min::post(args, r),
            BuiltinFunction::Mod => Mod::post(args, r),
            BuiltinFunction::MountedPath => MountedPath::post(args, ctx, r),
            BuiltinFunction::Mul => Mul::post(args, r),
            BuiltinFunction::Not => Not::post(args, r),
            BuiltinFunction::Null => Null::post(args, r),
            BuiltinFunction::Or => Or::post(args, r),
        }
    }

    /// Whether an argument of kind `k` is accepted at position `i`.
    pub fn accepts_kind(&self, i: usize, k: AcceptedArgKind) -> (r: bool)
        ensures
            r == self.accepts(i as int, k),
    {
        let ordered = self.ordered_kind_list();
        if i < ordered.len() {
            contains_kind(&ordered[i], k)
        } else {
            match self.remaining_kind_list() {
                Some(ks) => contains_kind(&ks, k),
                None => false,
            }
        }
    }

    fn ordered_kind_list(&self) -> (r: Vec<Vec<AcceptedArgKind>>)
        ensures
            r@.len() == self.ordered_kinds().len(),
            forall|i: int| 0 <= i < r@.len() ==> (#[trigger] r@[i])@ == self.ordered_kinds()[i],
    {
        let r = match self {
            BuiltinFunction::Array => vec![vec![AcceptedArgKind::String, AcceptedArgKind::Number, AcceptedArgKind::Object, AcceptedArgKind::Array]],
            BuiltinFunction::Base64 | BuiltinFunction::Envvar => vec![vec![AcceptedArgKind::String]],
            BuiltinFunction::Bool => vec![vec![AcceptedArgKind::String, AcceptedArgKind::Number]],
            BuiltinFunction::Coalesce => vec![any_kind_list()],
            BuiltinFunction::Concat => vec![vec![AcceptedArgKind::String, AcceptedArgKind::Array], vec![AcceptedArgKind::String, AcceptedArgKind::Array]],
            BuiltinFunction::Contains => vec![
                vec![AcceptedArgKind::Array, AcceptedArgKind::Object, AcceptedArgKind::String],
                vec![AcceptedArgKind::String, AcceptedArgKind::Number],
            ],
            BuiltinFunction::CopyIndex => vec![vec![AcceptedArgKind::String, AcceptedArgKind::Number], vec![AcceptedArgKind::Number]],
            BuiltinFunction::Empty | BuiltinFunction::Length => vec![vec![AcceptedArgKind::Array, AcceptedArgKind::Object, AcceptedArgKind::String]],
            BuiltinFunction::EndsWith => vec![vec![AcceptedArgKind::String], vec![AcceptedArgKind::String]],
            BuiltinFunction::First => vec![vec![AcceptedArgKind::Array, AcceptedArgKind::String]],
            BuiltinFunction::Format => vec![vec![AcceptedArgKind::String]],
            BuiltinFunction::IndexOf | BuiltinFunction::LastIndexOf => vec![
                vec![AcceptedArgKind::Array],
                vec![AcceptedArgKind::String, AcceptedArgKind::Number, AcceptedArgKind::Array, AcceptedArgKind::Object],
            ],
            BuiltinFunction::Intersection => vec![vec![AcceptedArgKind::Array, AcceptedArgKind::Object], vec![AcceptedArgKind::Array, AcceptedArgKind::Object]],
            BuiltinFunction::Join => vec![vec![AcceptedArgKind::Array], vec![AcceptedArgKind::String]],
            BuiltinFunction::Less => vec![vec![AcceptedArgKind::Number, AcceptedArgKind::String], vec![AcceptedArgKind::Number, AcceptedArgKind::String]],
            BuiltinFunction::Max => vec![vec![AcceptedArgKind::Number, AcceptedArgKind::Array]],
            BuiltinFunction::Not => vec![vec![AcceptedArgKind::Boolean]],
            _ => Vec::new(),
        };
        r
    }

    fn remaining_kind_list(&self) -> (r: Option<Vec<AcceptedArgKind>>)
        ensures
            match (r, self.remaining_kinds()) {
                (Some(v), Some(ks)) => v@ == ks,
                (None, None) => true,
                _ => false,
            },
    {
        match self {
            BuiltinFunction::Coalesce => Some(any_kind_list()),
            BuiltinFunction::Concat => Some(vec![AcceptedArgKind::String, AcceptedArgKind::Array]),
            BuiltinFunction::CreateArray => Some(vec![AcceptedArgKind::String, AcceptedArgKind::Number, AcceptedArgKind::Object, AcceptedArgKind::Array]),
            BuiltinFunction::Div | BuiltinFunction::Mod | BuiltinFunction::Mul => Some(vec![AcceptedArgKind::Number]),
            BuiltinFunction::Equals => Some(vec![AcceptedArgKind::Number, AcceptedArgKind::String, AcceptedArgKind::Array, AcceptedArgKind::Object]),
            BuiltinFunction::Format => Some(vec![AcceptedArgKind::Boolean, AcceptedArgKind::Number, AcceptedArgKind::String]),
            BuiltinFunction::Greater => Some(vec![AcceptedArgKind::Number, AcceptedArgKind::String]),
            BuiltinFunction::If => Some(vec![AcceptedArgKind::Boolean, AcceptedArgKind::String, AcceptedArgKind::Number, AcceptedArgKind::Array, AcceptedArgKind::Object]),
            BuiltinFunction::Intersection => Some(vec![AcceptedArgKind::Array, AcceptedArgKind::Object]),
            BuiltinFunction::LessOrEquals => Some(vec![AcceptedArgKind::Number]),
            BuiltinFunction::Max | BuiltinFunction::Min => Some(vec![AcceptedArgKind::Number, AcceptedArgKind::Array]),
            BuiltinFunction::MountedPath => Some(vec![AcceptedArgKind::String]),
            BuiltinFunction::Or => Some(vec![AcceptedArgKind::Boolean]),
            _ => None,
        }
    }
}

fn any_kind_list() -> (r: Vec<AcceptedArgKind>)
    ensures
        r@ == any_kind(),
{
    vec![
        AcceptedArgKind::Array,
        AcceptedArgKind::Boolean,
        AcceptedArgKind::Null,
        AcceptedArgKind::Number,
        AcceptedArgKind::Object,
        AcceptedArgKind::String,
    ]
}

fn contains_kind(ks: &Vec<AcceptedArgKind>, k: AcceptedArgKind) -> (r: bool)
    ensures
        r == ks@.contains(k),
{
    let mut i: usize = 0;
    while i < ks.len()
        invariant
            i <= ks@.len(),
            forall|j: int| 0 <= j < i ==> ks@[j] != k,
        decreases ks@.len() - i,
    {
        if ks[i] == k {
            return true;
        }
        i = i + 1;
    }
    false
}

impl BuiltinFunction {
    /// Every built-in function.
    pub fn all() -> (r: Vec<BuiltinFunction>)
        ensures
            r@.len() == 33,
            forall|b: BuiltinFunction| #[trigger] r@.contains(b),
    {
        let r = vec![BuiltinFunction::Array, BuiltinFunction::Base64, BuiltinFunction::Bool, BuiltinFunction::Coalesce, BuiltinFunction::Concat, BuiltinFunction::Contains, BuiltinFunction::CopyIndex, BuiltinFunction::CreateArray, BuiltinFunction::Div, BuiltinFunction::Empty, BuiltinFunction::EndsWith, BuiltinFunction::Envvar, BuiltinFunction::Equals, BuiltinFunction::False, BuiltinFunction::First, BuiltinFunction::Format, BuiltinFunction::Greater, BuiltinFunction::If, BuiltinFunction::IndexOf, BuiltinFunction::Intersection, BuiltinFunction::Join, BuiltinFunction::LastIndexOf, BuiltinFunction::Length, BuiltinFunction::Less, BuiltinFunction::LessOrEquals, BuiltinFunction::Max, BuiltinFunction::Min, BuiltinFunction::Mod, BuiltinFunction::MountedPath, BuiltinFunction::Mul, BuiltinFunction::Not, BuiltinFunction::Null, BuiltinFunction::Or];
        proof {
            assert forall|b: BuiltinFunction| #[trigger] r@.contains(b) by {
                match b {
                    BuiltinFunction::Array => assert(r@[0] == BuiltinFunction::Array),
                    BuiltinFunction::Base64 => assert(r@[1] == BuiltinFunction::Base64),
                    BuiltinFunction::Bool => assert(r@[2] == BuiltinFunction::Bool),
                    BuiltinFunction::Coalesce => assert(r@[3] == BuiltinFunction::Coalesce),
                    BuiltinFunction::Concat => assert(r@[4] == BuiltinFunction::Concat),
                    BuiltinFunction::Contains => assert(r@[5] == BuiltinFunction::Contains),
                    BuiltinFunction::CopyIndex => assert(r@[6] == BuiltinFunction::CopyIndex),
                    BuiltinFunction::CreateArray => assert(r@[7] == BuiltinFunction::CreateArray),
                    BuiltinFunction::Div => assert(r@[8] == BuiltinFunction::Div),
                    BuiltinFunction::Empty => assert(r@[9] == BuiltinFunction::Empty),
                    BuiltinFunction::EndsWith => assert(r@[10] == BuiltinFunction::EndsWith),
                    BuiltinFunction::Envvar => assert(r@[11] == BuiltinFunction::Envvar),
                    BuiltinFunction::Equals => assert(r@[12] == BuiltinFunction::Equals),
                    BuiltinFunction::False => assert(r@[13] == BuiltinFunction::False),
                    BuiltinFunction::First => assert(r@[14] == BuiltinFunction::First),
                    BuiltinFunction::Format => assert(r@[15] == BuiltinFunction::Format),
                    BuiltinFunction::Greater => assert(r@[16] == BuiltinFunction::Greater),
                    BuiltinFunction::If => assert(r@[17] == BuiltinFunction::If),
                    BuiltinFunction::IndexOf => assert(r@[18] == BuiltinFunction::IndexOf),
                    BuiltinFunction::Intersection => assert(r@[19] == BuiltinFunction::Intersection),
                    BuiltinFunction::Join => assert(r@[20] == BuiltinFunction::Join),
                    BuiltinFunction::LastIndexOf => assert(r@[21] == BuiltinFunction::LastIndexOf),
                    BuiltinFunction::Length => assert(r@[22] == BuiltinFunction::Length),
                    BuiltinFunction::Less => assert(r@[23] == BuiltinFunction::Less),
                    BuiltinFunction::LessOrEquals => assert(r@[24] == BuiltinFunction::LessOrEquals),
                    BuiltinFunction::Max => assert(r@[25] == BuiltinFunction::Max),
                    BuiltinFunction::Min => assert(r@[26] == BuiltinFunction::Min),
                    BuiltinFunction::Mod => assert(r@[27] == BuiltinFunction::Mod),
                    BuiltinFunction::MountedPath => assert(r@[28] == BuiltinFunction::MountedPath),
                    BuiltinFunction::Mul => assert(r@[29] == BuiltinFunction::Mul),
                    BuiltinFunction::Not => assert(r@[30] == BuiltinFunction::Not),
                    BuiltinFunction::Null => assert(r@[31] == BuiltinFunction::Null),
                    BuiltinFunction::Or => assert(r@[32] == BuiltinFunction::Or),
                }
            }
        }
        r
    }

    pub fn min_args(&self) -> (r: usize)
        ensures
            r == self.spec_min_args(),
    {
        match self {
            BuiltinFunction::CopyIndex | BuiltinFunction::CreateArray | BuiltinFunction::False
            | BuiltinFunction::MountedPath | BuiltinFunction::Null => 0,
            BuiltinFunction::Array | BuiltinFunction::Base64 | BuiltinFunction::Bool
            | BuiltinFunction::Coalesce | BuiltinFunction::Empty | BuiltinFunction::Envvar
            | BuiltinFunction::First | BuiltinFunction::Length | BuiltinFunction::Max
            | BuiltinFunction::Min | BuiltinFunction::Not => 1,
            BuiltinFunction::If => 3,
            _ => 2,
        }
    }

    pub fn max_args(&self) -> (r: usize)
        ensures
            r == self.spec_max_args(),
    {
        match self {
            BuiltinFunction::False | BuiltinFunction::Null => 0,
            BuiltinFunction::Array | BuiltinFunction::Base64 | BuiltinFunction::Bool
            | BuiltinFunction::Empty | BuiltinFunction::Envvar | BuiltinFunction::First
            | BuiltinFunction::Length | BuiltinFunction::MountedPath | BuiltinFunction::Not => 1,
            BuiltinFunction::If => 3,
            BuiltinFunction::Coalesce | BuiltinFunction::Concat | BuiltinFunction::CreateArray
            | BuiltinFunction::Format | BuiltinFunction::Intersection | BuiltinFunction::Max
            | BuiltinFunction::Min | BuiltinFunction::Or => usize::MAX,
            _ => 2,
        }
    }

    /// The one-line description of the function.
    pub open spec fn description_text(self) -> Seq<char> {
        match self {
            BuiltinFunction::Array => ("Returns an array holding the value.")@,
            BuiltinFunction::Base64 => ("Returns the base64 encoding of a string.")@,
            BuiltinFunction::Bool => ("Converts a string or a number to a boolean.")@,
            BuiltinFunction::Coalesce => ("Returns the first argument that is not null.")@,
            BuiltinFunction::Concat => ("Concatenates strings or arrays of strings.")@,
            BuiltinFunction::Contains => ("Checks whether an array, object or string contains a value.")@,
            BuiltinFunction::CopyIndex => ("Returns the index of a copy loop.")@,
            BuiltinFunction::CreateArray => ("Creates an array from the arguments.")@,
            BuiltinFunction::Div => ("Divides the first integer by the second.")@,
            BuiltinFunction::Empty => ("Checks whether an array, object or string is empty.")@,
            BuiltinFunction::EndsWith => ("Checks whether a string ends with another.")@,
            BuiltinFunction::Envvar => ("Returns the value of an environment variable.")@,
            BuiltinFunction::Equals => ("Checks whether two values are equal.")@,
            BuiltinFunction::False => ("Returns false.")@,
            BuiltinFunction::First => ("Returns the first element of an array or the first character of a string.")@,
            BuiltinFunction::Format => ("Formats a string with the given arguments.")@,
            BuiltinFunction::Greater => ("Checks whether the first value is greater than the second.")@,
            BuiltinFunction::If => ("Returns one of two values depending on a condition.")@,
            BuiltinFunction::IndexOf => ("Returns the first index of a value in an array.")@,
            BuiltinFunction::Intersection => ("Returns the elements common to all arrays or the members common to all objects.")@,
            BuiltinFunction::Join => ("Joins the elements of an array into a string.")@,
            BuiltinFunction::LastIndexOf => ("Returns the last index of a value in an array.")@,
            BuiltinFunction::Length => ("Returns the length of an array, object or string.")@,
            BuiltinFunction::Less => ("Checks whether the first value is less than the second.")@,
            BuiltinFunction::LessOrEquals => ("Checks whether the first number is less than or equal to the second.")@,
            BuiltinFunction::Max => ("Returns the largest integer.")@,
            BuiltinFunction::Min => ("Returns the smallest integer.")@,
            BuiltinFunction::Mod => ("Returns the remainder of dividing the first integer by the second.")@,
            BuiltinFunction::MountedPath => ("Returns the mounted path, or a path under it.")@,
            BuiltinFunction::Mul => ("Multiplies two integers.")@,
            BuiltinFunction::Not => ("Negates a boolean.")@,
            BuiltinFunction::Null => ("Returns null.")@,
            BuiltinFunction::Or => ("Returns true when any argument is true.")@,
        }
    }

    /// A one-line description of the function.
    pub fn description(&self) -> (r: String)
        ensures
            r@ == self.description_text(),
    {
        match self {

            BuiltinFunction::Array => String::from_str("Returns an array holding the value."),
            BuiltinFunction::Base64 => String::from_str("Returns the base64 encoding of a string."),
            BuiltinFunction::Bool => String::from_str("Converts a string or a number to a boolean."),
            BuiltinFunction::Coalesce => String::from_str("Returns the first argument that is not null."),
            BuiltinFunction::Concat => String::from_str("Concatenates strings or arrays of strings."),
            BuiltinFunction::Contains => String::from_str("Checks whether an array, object or string contains a value."),
            BuiltinFunction::CopyIndex => String::from_str("Returns the index of a copy loop."),
            BuiltinFunction::CreateArray => String::from_str("Creates an array from the arguments."),
            BuiltinFunction::Div => String::from_str("Divides the first integer by the second."),
            BuiltinFunction::Empty => String::from_str("Checks whether an array, object or string is empty."),
            BuiltinFunction::EndsWith => String::from_str("Checks whether a string ends with another."),
            BuiltinFunction::Envvar => String::from_str("Returns the value of an environment variable."),
            BuiltinFunction::Equals => String::from_str("Checks whether two values are equal."),
            BuiltinFunction::False => String::from_str("Returns false."),
            BuiltinFunction::First => String::from_str("Returns the first element of an array or the first character of a string."),
            BuiltinFunction::Format => String::from_str("Formats a string with the given arguments."),
            BuiltinFunction::Greater => String::from_str("Checks whether the first value is greater than the second."),
            BuiltinFunction::If => String::from_str("Returns one of two values depending on a condition."),
            BuiltinFunction::IndexOf => String::from_str("Returns the first index of a value in an array."),
            BuiltinFunction::Intersection => String::from_str("Returns the elements common to all arrays or the members common to all objects."),
            BuiltinFunction::Join => String::from_str("Joins the elements of an array into a string."),
            BuiltinFunction::LastIndexOf => String::from_str("Returns the last index of a value in an array."),
            BuiltinFunction::Length => String::from_str("Returns the length of an array, object or string."),
            BuiltinFunction::Less => String::from_str("Checks whether the first value is less than the second."),
            BuiltinFunction::LessOrEquals => String::from_str("Checks whether the first number is less than or equal to the second."),
            BuiltinFunction::Max => String::from_str("Returns the largest integer."),
            BuiltinFunction::Min => String::from_str("Returns the smallest integer."),
            BuiltinFunction::Mod => String::from_str("Returns the remainder of dividing the first integer by the second."),
            BuiltinFunction::MountedPath => String::from_str("Returns the mounted path, or a path under it."),
            BuiltinFunction::Mul => String::from_str("Multiplies two integers."),
            BuiltinFunction::Not => String::from_str("Negates a boolean."),
            BuiltinFunction::Null => String::from_str("Returns null."),
            BuiltinFunction::Or => String::from_str("Returns true when any argument is true."),
        }
    }

    /// The categories the function is listed under.
    pub open spec fn category_list(self) -> Seq<FunctionCategory> {
        match self {
            BuiltinFunction::Array => seq![FunctionCategory::Array],
            BuiltinFunction::Base64 => seq![FunctionCategory::String],
            BuiltinFunction::Bool => seq![FunctionCategory::Logical],
            BuiltinFunction::Coalesce => seq![FunctionCategory::Logical],
            BuiltinFunction::Concat => seq![FunctionCategory::Array, FunctionCategory::String],
            BuiltinFunction::Contains => seq![FunctionCategory::Array],
            BuiltinFunction::CopyIndex => seq![FunctionCategory::Numeric],
            BuiltinFunction::CreateArray => seq![FunctionCategory::Array],
            BuiltinFunction::Div => seq![FunctionCategory::Numeric],
            BuiltinFunction::Empty => seq![FunctionCategory::String, FunctionCategory::Array, FunctionCategory::Object],
            BuiltinFunction::EndsWith => seq![FunctionCategory::String],
            BuiltinFunction::Envvar => seq![FunctionCategory::System],
            BuiltinFunction::Equals => seq![FunctionCategory::Comparison],
            BuiltinFunction::False => seq![FunctionCategory::Logical],
            BuiltinFunction::First => seq![FunctionCategory::Array, FunctionCategory::String],
            BuiltinFunction::Format => seq![FunctionCategory::String],
            BuiltinFunction::Greater => seq![FunctionCategory::Comparison],
            BuiltinFunction::If => seq![FunctionCategory::Comparison],
            BuiltinFunction::IndexOf => seq![FunctionCategory::Array],
            BuiltinFunction::Intersection => seq![FunctionCategory::Array, FunctionCategory::Object],
            BuiltinFunction::Join => seq![FunctionCategory::String],
            BuiltinFunction::LastIndexOf => seq![FunctionCategory::String],
            BuiltinFunction::Length => seq![FunctionCategory::Array],
            BuiltinFunction::Less => seq![FunctionCategory::Comparison],
            BuiltinFunction::LessOrEquals => seq![FunctionCategory::Comparison],
            BuiltinFunction::Max => seq![FunctionCategory::Numeric],
            BuiltinFunction::Min => seq![FunctionCategory::Numeric],
            BuiltinFunction::Mod => seq![FunctionCategory::Numeric],
            BuiltinFunction::MountedPath => seq![FunctionCategory::System],
            BuiltinFunction::Mul => seq![FunctionCategory::Numeric],
            BuiltinFunction::Not => seq![FunctionCategory::Logical],
            BuiltinFunction::Null => seq![FunctionCategory::Logical],
            BuiltinFunction::Or => seq![FunctionCategory::Logical],
        }
    }

    /// The categories the function is listed under.
    pub fn categories(&self) -> (r: Vec<FunctionCategory>)
        ensures
            r@ == self.category_list(),
    {
        match self {
            BuiltinFunction::Array => vec![FunctionCategory::Array],
            BuiltinFunction::Base64 => vec![FunctionCategory::String],
            BuiltinFunction::Bool => vec![FunctionCategory::Logical],
            BuiltinFunction::Coalesce => vec![FunctionCategory::Logical],
            BuiltinFunction::Concat => vec![FunctionCategory::Array, FunctionCategory::String],
            BuiltinFunction::Contains => vec![FunctionCategory::Array],
            BuiltinFunction::CopyIndex => vec![FunctionCategory::Numeric],
            BuiltinFunction::CreateArray => vec![FunctionCategory::Array],
            BuiltinFunction::Div => vec![FunctionCategory::Numeric],
            BuiltinFunction::Empty => vec![FunctionCategory::String, FunctionCategory::Array, FunctionCategory::Object],
            BuiltinFunction::EndsWith => vec![FunctionCategory::String],
            BuiltinFunction::Envvar => vec![FunctionCategory::System],
            BuiltinFunction::Equals => vec![FunctionCategory::Comparison],
            BuiltinFunction::False => vec![FunctionCategory::Logical],
            BuiltinFunction::First => vec![FunctionCategory::Array, FunctionCategory::String],
            BuiltinFunction::Format => vec![FunctionCategory::String],
            BuiltinFunction::Greater => vec![FunctionCategory::Comparison],
            BuiltinFunction::If => vec![FunctionCategory::Comparison],
            BuiltinFunction::IndexOf => vec![FunctionCategory::Array],
            BuiltinFunction::Intersection => vec![FunctionCategory::Array, FunctionCategory::Object],
            BuiltinFunction::Join => vec![FunctionCategory::String],
            BuiltinFunction::LastIndexOf => vec![FunctionCategory::String],
            BuiltinFunction::Length => vec![FunctionCategory::Array],
            BuiltinFunction::Less => vec![FunctionCategory::Comparison],
            BuiltinFunction::LessOrEquals => vec![FunctionCategory::Comparison],
            BuiltinFunction::Max => vec![FunctionCategory::Numeric],
            BuiltinFunction::Min => vec![FunctionCategory::Numeric],
            BuiltinFunction::Mod => vec![FunctionCategory::Numeric],
            BuiltinFunction::MountedPath => vec![FunctionCategory::System],
            BuiltinFunction::Mul => vec![FunctionCategory::Numeric],
            BuiltinFunction::Not => vec![FunctionCategory::Logical],
            BuiltinFunction::Null => vec![FunctionCategory::Logical],
            BuiltinFunction::Or => vec![FunctionCategory::Logical],
        }
    }

    /// The kinds of value the function returns.
    pub open spec fn return_kind_list(self) -> Seq<AcceptedArgKind> {
        match self {
            BuiltinFunction::Array => seq![AcceptedArgKind::Array],
            BuiltinFunction::Base64 => seq![AcceptedArgKind::String],
            BuiltinFunction::Bool => seq![AcceptedArgKind::Boolean],
            BuiltinFunction::Coalesce => seq![AcceptedArgKind::Array, AcceptedArgKind::Boolean, AcceptedArgKind::Null, AcceptedArgKind::Number, AcceptedArgKind::Object, AcceptedArgKind::String],
            BuiltinFunction::Concat => seq![AcceptedArgKind::String, AcceptedArgKind::Array],
            BuiltinFunction::Contains => seq![AcceptedArgKind::Boolean],
            BuiltinFunction::CopyIndex => seq![AcceptedArgKind::Number],
            BuiltinFunction::CreateArray => seq![AcceptedArgKind::Array],
            BuiltinFunction::Div => seq![AcceptedArgKind::Number],
            BuiltinFunction::Empty => seq![AcceptedArgKind::Boolean],
            BuiltinFunction::EndsWith => seq![AcceptedArgKind::Boolean],
            BuiltinFunction::Envvar => seq![AcceptedArgKind::String],
            BuiltinFunction::Equals => seq![AcceptedArgKind::Boolean],
            BuiltinFunction::False => seq![AcceptedArgKind::Boolean],
            BuiltinFunction::First => seq![AcceptedArgKind::String, AcceptedArgKind::Number, AcceptedArgKind::Array, AcceptedArgKind::Object],
            BuiltinFunction::Format => seq![AcceptedArgKind::String],
            BuiltinFunction::Greater => seq![AcceptedArgKind::Boolean],
            BuiltinFunction::If => seq![AcceptedArgKind::Boolean, AcceptedArgKind::String, AcceptedArgKind::Number, AcceptedArgKind::Array, AcceptedArgKind::Object],
            BuiltinFunction::IndexOf => seq![AcceptedArgKind::Number],
            BuiltinFunction::Intersection => seq![AcceptedArgKind::Array, AcceptedArgKind::Object],
            BuiltinFunction::Join => seq![AcceptedArgKind::String],
            BuiltinFunction::LastIndexOf => seq![AcceptedArgKind::Number],
            BuiltinFunction::Length => seq![AcceptedArgKind::Number],
            BuiltinFunction::Less => seq![AcceptedArgKind::Boolean],
            BuiltinFunction::LessOrEquals => seq![AcceptedArgKind::Boolean],
            BuiltinFunction::Max => seq![AcceptedArgKind::Number],
            BuiltinFunction::Min => seq![AcceptedArgKind::Number],
            BuiltinFunction::Mod => seq![AcceptedArgKind::Number],
            BuiltinFunction::MountedPath => seq![AcceptedArgKind::String],
            BuiltinFunction::Mul => seq![AcceptedArgKind::Number],
            BuiltinFunction::Not => seq![AcceptedArgKind::Boolean],
            BuiltinFunction::Null => seq![AcceptedArgKind::Null],
            BuiltinFunction::Or => seq![AcceptedArgKind::Boolean],
        }
    }

    /// The kinds of value the function returns.
    pub fn return_kinds(&self) -> (r: Vec<AcceptedArgKind>)
        ensures
            r@ == self.return_kind_list(),
    {
        match self {
            BuiltinFunction::Array => vec![AcceptedArgKind::Array],
            BuiltinFunction::Base64 => vec![AcceptedArgKind::String],
            BuiltinFunction::Bool => vec![AcceptedArgKind::Boolean],
            BuiltinFunction::Coalesce => vec![AcceptedArgKind::Array, AcceptedArgKind::Boolean, AcceptedArgKind::Null, AcceptedArgKind::Number, AcceptedArgKind::Object, AcceptedArgKind::String],
            BuiltinFunction::Concat => vec![AcceptedArgKind::String, AcceptedArgKind::Array],
            BuiltinFunction::Contains => vec![AcceptedArgKind::Boolean],
            BuiltinFunction::CopyIndex => vec![AcceptedArgKind::Number],
            BuiltinFunction::CreateArray => vec![AcceptedArgKind::Array],
            BuiltinFunction::Div => vec![AcceptedArgKind::Number],
            BuiltinFunction::Empty => vec![AcceptedArgKind::Boolean],
            BuiltinFunction::EndsWith => vec![AcceptedArgKind::Boolean],
            BuiltinFunction::Envvar => vec![AcceptedArgKind::String],
            BuiltinFunction::Equals => vec![AcceptedArgKind::Boolean],
            BuiltinFunction::False => vec![AcceptedArgKind::Boolean],
            BuiltinFunction::First => vec![AcceptedArgKind::String, AcceptedArgKind::Number, AcceptedArgKind::Array, AcceptedArgKind::Object],
            BuiltinFunction::Format => vec![AcceptedArgKind::String],
            BuiltinFunction::Greater => vec![AcceptedArgKind::Boolean],
            BuiltinFunction::If => vec![AcceptedArgKind::Boolean, AcceptedArgKind::String, AcceptedArgKind::Number, AcceptedArgKind::Array, AcceptedArgKind::Object],
            BuiltinFunction::IndexOf => vec![AcceptedArgKind::Number],
            BuiltinFunction::Intersection => vec![AcceptedArgKind::Array, AcceptedArgKind::Object],
            BuiltinFunction::Join => vec![AcceptedArgKind::String],
            BuiltinFunction::LastIndexOf => vec![AcceptedArgKind::Number],
            BuiltinFunction::Length => vec![AcceptedArgKind::Number],
            BuiltinFunction::Less => vec![AcceptedArgKind::Boolean],
            BuiltinFunction::LessOrEquals => vec![AcceptedArgKind::Boolean],
            BuiltinFunction::Max => vec![AcceptedArgKind::Number],
            BuiltinFunction::Min => vec![AcceptedArgKind::Number],
            BuiltinFunction::Mod => vec![AcceptedArgKind::Number],
            BuiltinFunction::MountedPath => vec![AcceptedArgKind::String],
            BuiltinFunction::Mul => vec![AcceptedArgKind::Number],
            BuiltinFunction::Not => vec![AcceptedArgKind::Boolean],
            BuiltinFunction::Null => vec![AcceptedArgKind::Null],
            BuiltinFunction::Or => vec![AcceptedArgKind::Boolean],
        }
    }

    /// What the function declares about itself.
    pub fn metadata(&self) -> (r: FunctionMetadata)
        ensures
            r.name@ == self.spec_name(),
            r.min_args == self.spec_min_args(),
            r.max_args == self.spec_max_args(),
            r.accepted_arg_ordered_types@.len() == self.ordered_kinds().len(),
            forall|i: int| 0 <= i < r.accepted_arg_ordered_types@.len() ==> (#[trigger] r.accepted_arg_ordered_types@[i])@ == self.ordered_kinds()[i],
            match (r.remaining_arg_accepted_types, self.remaining_kinds()) {
                (Some(v), Some(ks)) => v@ == ks,
                (None, None) => true,
                _ => false,
            },
    {
        FunctionMetadata {
            name: self.name(),
            description: self.description(),
            category: self.categories(),
            min_args: self.min_args(),
            max_args: self.max_args(),
            accepted_arg_ordered_types: self.ordered_kind_list(),
            remaining_arg_accepted_types: self.remaining_kind_list(),
            return_types: self.return_kinds(),
        }
    }
}

impl BuiltinFunction {
    /// Invokes the function on arguments it accepts.
    pub fn invoke(&self, args: &Vec<JsonValue>, context: &Context) -> (r: Result<Invocation, DscError>)
        requires
            self.args_valid(args@),
            self.admits(args@, *context),
        ensures
            self.post(args@, *context, r),
    {
        proof {
            if *self == BuiltinFunction::Join {
                assert(self.accepts(1, kind_of(args@[1])));
                assert(self.ordered_kinds()[1] == seq![AcceptedArgKind::String]);
                assert(args@[1] is String);
            }
        }
        match self {
            BuiltinFunction::Format => Format {}.invoke(args, context),
            _ => {
                let v = match self {
                    BuiltinFunction::Array => Array {}.invoke(args, context),
                    BuiltinFunction::Base64 => Base64 {}.invoke(args, context),
                    BuiltinFunction::Bool => Bool {}.invoke(args, context),
                    BuiltinFunction::Coalesce => Coalesce {}.invoke(args, context),
                    BuiltinFunction::Concat => Concat {}.invoke(args, context),
                    BuiltinFunction::Contains => Contains {}.invoke(args, context),
                    BuiltinFunction::CopyIndex => CopyIndex {}.invoke(args, context),
                    BuiltinFunction::CreateArray => CreateArray {}.invoke(args, context),
                    BuiltinFunction::Div => Div {}.invoke(args, context),
                    BuiltinFunction::Empty => Empty {}.invoke(args, context),
                    BuiltinFunction::EndsWith => EndsWith {}.invoke(args, context),
                    BuiltinFunction::Envvar => Envvar {}.invoke(args, context),
                    BuiltinFunction::Equals => Equals {}.invoke(args, context),
                    BuiltinFunction::False => False {}.invoke(args, context),
                    BuiltinFunction::First => First {}.invoke(args, context),
                    BuiltinFunction::Greater => Greater {}.invoke(args, context),
                    BuiltinFunction::If => If {}.invoke(args, context),
                    BuiltinFunction::IndexOf => IndexOf {}.invoke(args, context),
                    BuiltinFunction::Intersection => Intersection {}.invoke(args, context),
                    BuiltinFunction::Join => Join {}.invoke(args, context),
                    BuiltinFunction::LastIndexOf => LastIndexOf {}.invoke(args, context),
                    BuiltinFunction::Length => Length {}.invoke(args, context),
                    BuiltinFunction::Less => Less {}.invoke(args, context),
                    BuiltinFunction::LessOrEquals => LessOrEquals {}.invoke(args, context),
                    BuiltinFunction::Max => Max {}.invoke(args, context),
                    BuiltinFunction::Min => Min {}.invoke(args, context),
                    BuiltinFunction::Mod => Mod {}.invoke(args, context),
                    BuiltinFunction::MountedPath => MountedPath {}.invoke(args, context),
                    BuiltinFunction::Mul => Mul {}.invoke(args, context),
                    BuiltinFunction::Not => Not {}.invoke(args, context),
                    BuiltinFunction::Null => Null {}.invoke(args, context),
                    BuiltinFunction::Or => Or {}.invoke(args, context),
                    BuiltinFunction::Format => parser_error("Invalid function"),
                };
                match v {
                    Ok(x) => Ok(Invocation::Value(x)),
                    Err(e) => Err(e),
                }
            },
        }
    }
}

/// What the dispatcher gives for a call of `b` on `args`: an error when the
/// number of arguments is outside what `b` takes or one of them is of a kind
/// `b` does not accept at its position, else what `b` gives.
pub open spec fn dispatch_post(b: BuiltinFunction, args: Seq<JsonValue>, ctx: Context, r: Result<Invocation, DscError>) -> bool {
    if !(b.spec_min_args() <= args.len() <= b.spec_max_args()) {
        r matches Err(DscError::Parser(_))
    } else if !b.args_valid(args) {
        r matches Err(DscError::Parser(_))
    } else {
        b.post(args, ctx, r)
    }
}

/// Whether `d` gives the name and the argument counts of `b`.
pub open spec fn describes(d: FunctionDefinition, b: BuiltinFunction) -> bool {
    d.name@ == b.spec_name() && d.min_args == b.spec_min_args() && d.max_args == b.spec_max_args()
}

/// Whether `d` is the definition of a built-in function.
pub open spec fn defines_builtin(d: FunctionDefinition) -> bool {
    exists|b: BuiltinFunction| #[trigger] describes(d, b)
}

/// Finds functions by name and checks their arguments before invoking them.
pub struct FunctionDispatcher {
    functions: Vec<(String, BuiltinFunction)>,
}

fn call_error(name: &String, text: &str) -> (r: Result<Invocation, DscError>)
    ensures
        r matches Err(DscError::Parser(_)),
{
    let mut m = String::from_str("Function '");
    m.append(name.as_str());
    m.append("' ");
    m.append(text);
    Err(DscError::Parser(m))
}

fn count_error(name: &String, min: usize, max: usize) -> (r: Result<Invocation, DscError>)
    ensures
        r matches Err(DscError::Parser(_)),
{
    let mut m = String::from_str("Function '");
    m.append(name.as_str());
    if max == 0 {
        m.append("' does not accept arguments");
    } else if min == max {
        m.append("' requires exactly ");
        let n = crate::strings::int_to_decimal(min as i128);
        m.append(n.as_str());
        m.append(" arguments");
    } else if max == usize::MAX {
        m.append("' requires at least ");
        let n = crate::strings::int_to_decimal(min as i128);
        m.append(n.as_str());
        m.append(" arguments");
    } else {
        m.append("' requires between ");
        let n = crate::strings::int_to_decimal(min as i128);
        m.append(n.as_str());
        m.append(" and ");
        let x = crate::strings::int_to_decimal(max as i128);
        m.append(x.as_str());
        m.append(" arguments");
    }
    Err(DscError::Parser(m))
}

fn kind_name(k: AcceptedArgKind) -> (r: &'static str)
    ensures
        r@ == match k {
            AcceptedArgKind::Array => "array"@,
            AcceptedArgKind::Boolean => "boolean"@,
            AcceptedArgKind::Null => "null"@,
            AcceptedArgKind::Number => "number"@,
            AcceptedArgKind::Object => "object"@,
            AcceptedArgKind::String => "string"@,
        },
{
    match k {
        AcceptedArgKind::Array => "array",
        AcceptedArgKind::Boolean => "boolean",
        AcceptedArgKind::Null => "null",
        AcceptedArgKind::Number => "number",
        AcceptedArgKind::Object => "object",
        AcceptedArgKind::String => "string",
    }
}

impl FunctionDispatcher {
    /// The function registered under `name`, if any.
    pub closed spec fn lookup(&self, name: Seq<char>) -> Option<BuiltinFunction> {
        let j = find_key(self.functions@, name);
        if 0 <= j < self.functions@.len() { Some(self.functions@[j].1) } else { None }
    }

    /// Each function is registered under its own name.
    pub closed spec fn wf(&self) -> bool {
        forall|i: int| 0 <= i < self.functions@.len() ==> (#[trigger] self.functions@[i]).0@ == self.functions@[i].1.spec_name()
    }

    /// The number of registered functions.
    pub closed spec fn count(&self) -> nat {
        self.functions@.len()
    }

    /// A dispatcher with every built-in function registered under its name.
    pub fn new() -> (r: Self)
        ensures
            r.wf(),
            r.count() == 33,
            forall|b: BuiltinFunction| r.lookup(#[trigger] b.spec_name()) matches Some(c) && c.spec_name() == b.spec_name(),
            forall|n: Seq<char>| #[trigger] r.lookup(n) matches Some(c) ==> c.spec_name() == n,
    {
        let all = BuiltinFunction::all();
        let mut functions: Vec<(String, BuiltinFunction)> = Vec::new();
        let mut i: usize = 0;
        while i < all.len()
            invariant
                i <= all@.len(),
                functions@.len() == i,
                forall|k: int| 0 <= k < i ==> (#[trigger] functions@[k]).0@ == functions@[k].1.spec_name() && functions@[k].1 == all@[k],
            decreases all@.len() - i,
        {
            let b = all[i];
            functions.push((b.name(), b));
            i = i + 1;
        }
        let r = FunctionDispatcher { functions };
        assert forall|b: BuiltinFunction| r.lookup(#[trigger] b.spec_name()) matches Some(c) && c.spec_name() == b.spec_name() by {
            assert(all@.contains(b));
            let k = choose|k: int| 0 <= k < all@.len() && all@[k] == b;
            assert(r.functions@[k].0@ == b.spec_name());
            lemma_find_key(r.functions@, b.spec_name());
        }
        assert forall|n: Seq<char>| (#[trigger] r.lookup(n) matches Some(c) ==> c.spec_name() == n) by {
            lemma_find_key(r.functions@, n);
        }
        r
    }

    /// Invokes the function called `name` after checking the number and the
    /// kinds of the arguments.
    pub fn invoke(&self, name: &String, args: &Vec<JsonValue>, context: &Context) -> (r: Result<Invocation, DscError>)
        requires
            self.wf(),
            forall|b: BuiltinFunction| b.spec_name() == name@ && #[trigger] b.args_valid(args@) ==> b.admits(args@, *context),
        ensures
            match self.lookup(name@) {
                None => r matches Err(DscError::Parser(_)),
                Some(b) => b.spec_name() == name@ && dispatch_post(b, args@, *context, r),
            },
    {
        proof { lemma_find_key(self.functions@, name@); }
        let b = match find_member(&self.functions, name) {
            Some(j) => self.functions[j].1,
            None => {
                let mut m = String::from_str("Unknown function '");
                m.append(name.as_str());
                m.append("'");
                return Err(DscError::Parser(m));
            },
        };
        assert(self.lookup(name@) == Some(b));
        assert(b.spec_name() == name@);
        let min = b.min_args();
        let max = b.max_args();
        if args.len() < min || args.len() > max {
            return count_error(name, min, max);
        }
        let mut i: usize = 0;
        while i < args.len()
            invariant
                i <= args@.len(),
                self.lookup(name@) == Some(b),
                b.spec_name() == name@,
                b.spec_min_args() <= args@.len() <= b.spec_max_args(),
                forall|k: int| 0 <= k < i ==> b.accepts(k, kind_of(#[trigger] args@[k])),
            decreases args@.len() - i,
        {
            let k = value_kind(&args[i]);
            if !b.accepts_kind(i, k) {
                assert(!b.args_valid(args@));
                let mut t = String::from_str("does not accept ");
                t.append(kind_name(k));
                t.append(" arguments");
                return call_error(name, t.as_str());
            }
            i = i + 1;
        }
        assert(b.args_valid(args@));
        b.invoke(args, context)
    }

    /// The definitions of the registered functions.
    pub fn list(&self) -> (r: Vec<FunctionDefinition>)
        requires
            self.wf(),
        ensures
            r@.len() == self.count(),
            forall|i: int| 0 <= i < r@.len() ==> defines_builtin(#[trigger] r@[i]),
    {
        let mut out: Vec<FunctionDefinition> = Vec::new();
        let mut i: usize = 0;
        while i < self.functions.len()
            invariant
                i <= self.functions@.len(),
                self.wf(),
                out@.len() == i,
                forall|k: int| 0 <= k < i ==> defines_builtin(#[trigger] out@[k]),
            decreases self.functions@.len() - i,
        {
            let b = self.functions[i].1;
            let m = b.metadata();
            let ghost bb = b;
            out.push(FunctionDefinition {
                category: m.category,
                name: m.name,
                description: m.description,
                min_args: m.min_args,
                max_args: m.max_args,
                accepted_arg_ordered_types: m.accepted_arg_ordered_types,
                remaining_arg_accepted_types: m.remaining_arg_accepted_types,
                return_types: m.return_types,
            });
            assert(describes(out@[i as int], bb));
            i = i + 1;
        }
        out
    }
}

} // verus!
