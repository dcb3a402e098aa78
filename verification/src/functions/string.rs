//! String and system functions.

use vstd::prelude::*;
use vstd::string::StringExecFns;
use vstd::utf8::encode_utf8;

use crate::configure::context::Context;
use crate::dscerror::DscError;
use crate::functions::{BuiltinFunction, FunctionMetadata, is_parser_err, ok_bool, ok_text, parser_error, Invocation};
use crate::json::{find_key, find_member, JsonValue};
use crate::strings::{base64_encode, base64_standard, bytes_end_with, push_char};

verus! {

/// The text of a string argument, or the empty text for any other value.
pub open spec fn text_or_empty(v: JsonValue) -> Seq<char> {
    match v {
        JsonValue::String(s) => s@,
        _ => Seq::empty(),
    }
}

fn string_or_empty(v: &JsonValue) -> (r: String)
    ensures
        r@ == text_or_empty(*v),
{
    match v {
        JsonValue::String(s) => s.clone(),
        _ => String::new(),
    }
}

/// `base64(text)`: the standard base64 encoding of the UTF-8 bytes of a
/// string.
#[derive(Debug, Default)]
pub struct Base64 {}

impl Base64 {
    /// What `base64` declares about itself.
    pub fn get_metadata(&self) -> (r: FunctionMetadata)
        ensures
            r.name@ == BuiltinFunction::Base64.spec_name(),
            r.min_args == BuiltinFunction::Base64.spec_min_args(),
            r.max_args == BuiltinFunction::Base64.spec_max_args(),
    {
        BuiltinFunction::Base64.metadata()
    }

    pub open spec fn post(args: Seq<JsonValue>, r: Result<JsonValue, DscError>) -> bool {
        ok_text(r, base64_standard(encode_utf8(text_or_empty(args[0]))))
    }

    pub fn invoke(&self, args: &Vec<JsonValue>, _context: &Context) -> (r: Result<JsonValue, DscError>)
        requires
            args@.len() >= 1,
        ensures
            Self::post(args@, r),
    {
        let text = string_or_empty(&args[0]);
        Ok(JsonValue::String(base64_encode(text.as_str().as_bytes())))
    }
}

/// `endsWith(text, suffix)`.
#[derive(Debug, Default)]
pub struct EndsWith {}

impl EndsWith {
    /// What `endsWith` declares about itself.
    pub fn get_metadata(&self) -> (r: FunctionMetadata)
        ensures
            r.name@ == BuiltinFunction::EndsWith.spec_name(),
            r.min_args == BuiltinFunction::EndsWith.spec_min_args(),
            r.max_args == BuiltinFunction::EndsWith.spec_max_args(),
    {
        BuiltinFunction::EndsWith.metadata()
    }

    pub open spec fn post(args: Seq<JsonValue>, r: Result<JsonValue, DscError>) -> bool {
        match (args[0], args[1]) {
            (JsonValue::String(a), JsonValue::String(b)) => ok_bool(r, encode_utf8(b@).is_suffix_of(encode_utf8(a@))),
            _ => is_parser_err(r),
        }
    }

    pub fn invoke(&self, args: &Vec<JsonValue>, _context: &Context) -> (r: Result<JsonValue, DscError>)
        requires
            args@.len() >= 2,
        ensures
            Self::post(args@, r),
    {
        match (&args[0], &args[1]) {
            (JsonValue::String(a), JsonValue::String(b)) => Ok(JsonValue::Bool(bytes_end_with(a.as_str().as_bytes(), b.as_str().as_bytes()))),
            _ => parser_error("Invalid arguments"),
        }
    }
}

/// The value of the environment variable `name`, if it is set.
pub open spec fn env_value(env: Seq<(String, String)>, name: Seq<char>) -> Option<Seq<char>> {
    let j = find_key(env, name);
    if 0 <= j < env.len() { Some(env[j].1@) } else { None }
}

/// `envvar(name)`: the value of an environment variable.
#[derive(Debug, Default)]
pub struct Envvar {}

impl Envvar {
    /// What `envvar` declares about itself.
    pub fn get_metadata(&self) -> (r: FunctionMetadata)
        ensures
            r.name@ == BuiltinFunction::Envvar.spec_name(),
            r.min_args == BuiltinFunction::Envvar.spec_min_args(),
            r.max_args == BuiltinFunction::Envvar.spec_max_args(),
    {
        BuiltinFunction::Envvar.metadata()
    }

    pub open spec fn post(args: Seq<JsonValue>, ctx: Context, r: Result<JsonValue, DscError>) -> bool {
        match env_value(ctx.environment@, text_or_empty(args[0])) {
            Some(v) => ok_text(r, v),
            None => r matches Err(DscError::Function(n, _)) && n@ == "envvar"@,
        }
    }

    pub fn invoke(&self, args: &Vec<JsonValue>, context: &Context) -> (r: Result<JsonValue, DscError>)
        requires
            args@.len() >= 1,
        ensures
            Self::post(args@, *context, r),
    {
        let name = string_or_empty(&args[0]);
        proof { crate::json::lemma_find_key(context.environment@, name@); }
        match find_member(&context.environment, &name) {
            Some(j) => Ok(JsonValue::String(context.environment[j].1.clone())),
            None => Err(DscError::Function(String::from_str("envvar"), String::from_str("Environment variable not found"))),
        }
    }
}

/// The platform's path separator (`std::path::MAIN_SEPARATOR`): `/` or `\`.
#[verifier::external_body]
fn main_separator() -> (c: char)
    ensures
        c == '/' || c == '\\',
{
    std::path::MAIN_SEPARATOR
}

/// `mountedpath()` or `mountedpath(path)`: the mounted path, or a path under
/// it.
#[derive(Debug, Default)]
pub struct MountedPath {}

impl MountedPath {
    /// What `mountedpath` declares about itself.
    pub fn get_metadata(&self) -> (r: FunctionMetadata)
        ensures
            r.name@ == BuiltinFunction::MountedPath.spec_name(),
            r.min_args == BuiltinFunction::MountedPath.spec_min_args(),
            r.max_args == BuiltinFunction::MountedPath.spec_max_args(),
    {
        BuiltinFunction::MountedPath.metadata()
    }

    pub open spec fn post(args: Seq<JsonValue>, ctx: Context, r: Result<JsonValue, DscError>) -> bool {
        if args.len() == 1 {
            match args[0] {
                JsonValue::String(p) => exists|sep: char| (sep == '/' || sep == '\\') && #[trigger] Self::joined_post(ctx.mounted_path@, sep, p@, r),
                _ => is_parser_err(r),
            }
        } else {
            ok_text(r, ctx.mounted_path@)
        }
    }

    /// `path` under `mounted`, joined by `sep`.
    pub open spec fn joined_post(mounted: Seq<char>, sep: char, path: Seq<char>, r: Result<JsonValue, DscError>) -> bool {
        ok_text(r, mounted.push(sep) + path)
    }

    /// `path` under `mounted`, joined by `sep`.
    pub fn join(mounted: &String, sep: char, path: &String) -> (r: Result<JsonValue, DscError>)
        ensures
            Self::joined_post(mounted@, sep, path@, r),
    {
        let mut s = mounted.clone();
        push_char(&mut s, sep);
        s.append(path.as_str());
        Ok(JsonValue::String(s))
    }

    pub fn invoke(&self, args: &Vec<JsonValue>, context: &Context) -> (r: Result<JsonValue, DscError>)
        ensures
            Self::post(args@, *context, r),
    {
        if args.len() == 1 {
            match &args[0] {
                JsonValue::String(p) => {
                    let sep = main_separator();
                    let r = Self::join(&context.mounted_path, sep, p);
                    assert(Self::joined_post(context.mounted_path@, sep, p@, r));
                    r
                },
                _ => parser_error("Invalid argument"),
            }
        } else {
            Ok(JsonValue::String(context.mounted_path.clone()))
        }
    }
}

/// A value to format.
#[derive(Debug)]
pub enum FormatArg {
    Boolean(bool),
    Number(i64),
    String(String),
}

/// A format string and the values it is applied to, in order.
#[derive(Debug)]
pub struct FormatRequest {
    pub format: String,
    pub args: Vec<FormatArg>,
}

/// Whether `a` is the format value of the argument `v`.
pub open spec fn format_arg_of(a: FormatArg, v: JsonValue) -> bool {
    match (a, v) {
        (FormatArg::Boolean(x), JsonValue::Bool(y)) => x == y,
        (FormatArg::Number(x), JsonValue::Number(y)) => x == y,
        (FormatArg::String(x), JsonValue::String(y)) => x@ == y@,
        _ => false,
    }
}

/// Whether the argument can be formatted: a boolean, a string, or an
/// integer that fits in an `i64`.
pub open spec fn formattable(v: JsonValue) -> bool {
    match v {
        JsonValue::Bool(_) | JsonValue::String(_) => true,
        JsonValue::Number(n) => i64::MIN <= n <= i64::MAX,
        _ => false,
    }
}

/// `format(formatString, values...)`: the format string and the values to
/// apply it to; the caller does the formatting.
#[derive(Debug, Default)]
pub struct Format {}

impl Format {
    /// What `format` declares about itself.
    pub fn get_metadata(&self) -> (r: FunctionMetadata)
        ensures
            r.name@ == BuiltinFunction::Format.spec_name(),
            r.min_args == BuiltinFunction::Format.spec_min_args(),
            r.max_args == BuiltinFunction::Format.spec_max_args(),
    {
        BuiltinFunction::Format.metadata()
    }

    pub open spec fn post(args: Seq<JsonValue>, r: Result<Invocation, DscError>) -> bool {
        match args[0] {
            JsonValue::String(f) => if forall|i: int| 1 <= i < args.len() ==> formattable(#[trigger] args[i]) {
                r matches Ok(Invocation::Format(req)) && req.format@ == f@ && req.args@.len() == args.len() - 1
                    && forall|i: int| 0 <= i < req.args@.len() ==> format_arg_of(#[trigger] req.args@[i], args[i + 1])
            } else {
                r matches Err(DscError::Parser(_))
            },
            _ => r matches Err(DscError::Parser(_)),
        }
    }

    pub fn invoke(&self, args: &Vec<JsonValue>, _context: &Context) -> (r: Result<Invocation, DscError>)
        requires
            args@.len() >= 1,
        ensures
            Self::post(args@, r),
    {
        let format = match &args[0] {
            JsonValue::String(f) => f.clone(),
            _ => {
                return Err(DscError::Parser(String::from_str("The format string is not valid")));
            },
        };
        let mut out: Vec<FormatArg> = Vec::new();
        let mut i: usize = 1;
        while i < args.len()
            invariant
                1 <= i <= args@.len(),
                out@.len() == i - 1,
                forall|k: int| 1 <= k < i ==> formattable(#[trigger] args@[k]),
                forall|k: int| 0 <= k < out@.len() ==> format_arg_of(#[trigger] out@[k], args@[k + 1]),
            decreases args@.len() - i,
        {
            let a = match &args[i] {
                JsonValue::Bool(b) => FormatArg::Boolean(*b),
                JsonValue::Number(n) => match args[i].as_i64() {
                    Some(x) => FormatArg::Number(x),
                    None => {
                        return Err(DscError::Parser(String::from_str("The number is too large to format")));
                    },
                },
                JsonValue::String(s) => FormatArg::String(s.clone()),
                _ => {
                    return Err(DscError::Parser(String::from_str("The argument cannot be formatted")));
                },
            };
            out.push(a);
            i = i + 1;
        }
        Ok(Invocation::Format(FormatRequest { format, args: out }))
    }
}

} // verus!
