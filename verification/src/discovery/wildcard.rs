//! Filters on type names written with wildcards: `*` for any run of
//! characters, `?` for any one; matched without regard to case through a
//! regular expression of `regex`.

use regex::{Regex, RegexBuilder};
use vstd::prelude::*;
use vstd::string::{StrSliceExecFns, StringExecFns};

use crate::dscerror::DscError;
use crate::strings::push_char;

verus! {

#[verifier::external_type_specification]
#[verifier::external_body]
pub struct ExRegex(Regex);

/// How one character of a wildcard filter is written in the regular
/// expression: `.` escaped, `?` as any character, `*` as the shortest run
/// of characters, every other character as itself.
pub open spec fn wildcard_char(c: char) -> Seq<char> {
    if c == '.' {
        seq!['\\', '.']
    } else if c == '?' {
        seq!['.']
    } else if c == '*' {
        seq!['.', '*', '?']
    } else {
        seq![c]
    }
}

/// The characters of a filter, each written as in the regular expression.
pub open spec fn wildcard_body(w: Seq<char>) -> Seq<char>
    decreases w.len(),
{
    if w.len() == 0 {
        Seq::empty()
    } else {
        wildcard_body(w.drop_last()) + wildcard_char(w.last())
    }
}

/// The regular expression of a wildcard filter, anchored at both ends.
pub open spec fn wildcard_regex(w: Seq<char>) -> Seq<char> {
    seq!['^'] + wildcard_body(w) + seq!['$']
}

/// The regular expression of a wildcard filter (see `wildcard_regex`).
pub fn convert_wildcard_to_regex(filter: &str) -> (r: String)
    ensures
        r@ == wildcard_regex(filter@),
{
    let mut out = String::new();
    push_char(&mut out, '^');
    let n = filter.unicode_len();
    let mut i: usize = 0;
    while i < n
        invariant
            n == filter@.len(),
            i <= n,
            out@ == seq!['^'] + wildcard_body(filter@.take(i as int)),
        decreases n - i,
    {
        let c = filter.get_char(i);
        let ghost before = out@;
        if c == '.' {
            push_char(&mut out, '\\');
            push_char(&mut out, '.');
        } else if c == '?' {
            push_char(&mut out, '.');
        } else if c == '*' {
            push_char(&mut out, '.');
            push_char(&mut out, '*');
            push_char(&mut out, '?');
        } else {
            push_char(&mut out, c);
        }
        proof {
            assert(filter@.take(i + 1).drop_last() =~= filter@.take(i as int));
            assert(filter@.take(i + 1).last() == c);
            assert(out@ =~= before + wildcard_char(c));
        }
        i = i + 1;
    }
    proof {
        assert(filter@.take(n as int) =~= filter@);
    }
    push_char(&mut out, '$');
    out
}

/// Whether `regex` compiles the pattern, matching without regard to case.
pub uninterp spec fn regex_compiles(pattern: Seq<char>) -> bool;

/// Whether the pattern, compiled without regard to case, matches somewhere
/// in the text.
pub uninterp spec fn regex_ci_matches(pattern: Seq<char>, text: Seq<char>) -> bool;

/// A pattern with the regular expression `regex` compiled from it; only
/// `compile_ci` makes one.
pub struct CompiledRegex {
    pattern: String,
    regex: Regex,
}

impl CompiledRegex {
    /// The pattern the expression was compiled from.
    pub closed spec fn pattern(self) -> Seq<char> {
        self.pattern@
    }
}

/// `RegexBuilder::build` with `case_insensitive(true)`: whether it succeeds
/// depends on the pattern alone (with the default size limits).
#[verifier::external_body]
pub(crate) fn compile_ci(pattern: &str) -> (r: Option<CompiledRegex>)
    ensures
        r is Some <==> regex_compiles(pattern@),
        r matches Some(c) ==> c.pattern() == pattern@,
{
    match RegexBuilder::new(pattern).case_insensitive(true).build() {
        Ok(regex) => Some(CompiledRegex { pattern: pattern.to_string(), regex }),
        Err(_) => None,
    }
}

/// `Regex::is_match`: whether the expression matches somewhere in the text.
#[verifier::external_body]
pub(crate) fn is_match_ci(compiled: &CompiledRegex, text: &str) -> (r: bool)
    ensures
        r == regex_ci_matches(compiled.pattern(), text@),
{
    compiled.regex.is_match(text)
}

/// Whether the pattern, compiled without regard to case, matches the text;
/// an operation error when it does not compile.
pub fn regex_matches_ci(pattern: &str, text: &str) -> (r: Result<bool, DscError>)
    ensures
        regex_compiles(pattern@) ==> r == Ok::<bool, DscError>(regex_ci_matches(pattern@, text@)),
        !regex_compiles(pattern@) ==> (r matches Err(e) && e is Operation),
{
    match compile_ci(pattern) {
        Some(c) => Ok(is_match_ci(&c, text)),
        None => Err(DscError::Operation(String::from_str("Could not build Regex filter"))),
    }
}

/// Whether a type name passes a wildcard filter, without regard to case.
pub fn wildcard_matches(filter: &str, name: &str) -> (r: Result<bool, DscError>)
    ensures
        regex_compiles(wildcard_regex(filter@)) ==> r == Ok::<bool, DscError>(regex_ci_matches(wildcard_regex(filter@), name@)),
        !regex_compiles(wildcard_regex(filter@)) ==> (r matches Err(e) && e is Operation),
{
    let pattern = convert_wildcard_to_regex(filter);
    regex_matches_ci(pattern.as_str(), name)
}

} // verus!
