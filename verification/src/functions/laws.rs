//! Laws that relate the expression functions to one another.

use vstd::prelude::*;

use crate::dscerror::DscError;
use crate::functions::array::{Empty, IndexOf, LastIndexOf, Length, index_item_matches};
use crate::functions::logical::{Equals, Greater, Less, LessOrEquals, Not};
use crate::functions::{is_parser_err, ok_bool, ok_num};
use crate::functions::numeric::{Div, Max, Min, Mod, extreme_post};
use crate::json::{i64_value, json_eq, lemma_json_eq_symmetric, JsonValue};
use vstd::utf8::encode_utf8;

verus! {

/// `greater(a, b)` and `less(b, a)` give the same outcome.
pub proof fn lemma_greater_is_less_swapped(a: JsonValue, b: JsonValue, r: Result<JsonValue, DscError>)
    ensures
        Greater::post(seq![a, b], r) == Less::post(seq![b, a], r),
{
}

/// `not(not(b))` is `b`.
pub proof fn lemma_not_not(b: bool, r1: Result<JsonValue, DscError>, r2: Result<JsonValue, DscError>)
    requires
        Not::post(seq![JsonValue::Bool(b)], r1),
        r1 is Ok,
        Not::post(seq![r1->Ok_0], r2),
    ensures
        ok_bool(r2, b),
{
}

/// For two integers that fit in an `i64`, `lessOrEquals(a, b)` is the
/// negation of `greater(a, b)`.
pub proof fn lemma_less_or_equals_not_greater(x: i64, y: i64, t: bool)
    ensures
        LessOrEquals::post(seq![JsonValue::Number(x as i128), JsonValue::Number(y as i128)], Ok(JsonValue::Bool(t)))
            == Greater::post(seq![JsonValue::Number(x as i128), JsonValue::Number(y as i128)], Ok(JsonValue::Bool(!t))),
{
}

/// `equals(a, b)` and `equals(b, a)` give the same outcome.
pub proof fn lemma_equals_symmetric(a: JsonValue, b: JsonValue, r: Result<JsonValue, DscError>)
    ensures
        Equals::post(seq![a, b], r) == Equals::post(seq![b, a], r),
{
    lemma_json_eq_symmetric(a, b);
}

#[verifier::spinoff_prover]
#[verifier::rlimit(40)]
/// For integers `x` and `y`, `y` not zero and not `x = i64::MIN, y = -1`,
/// `div(x, y) * y + mod(x, y) == x`.
pub proof fn lemma_div_mod_rebuild(x: i64, y: i64, rd: Result<JsonValue, DscError>, rm: Result<JsonValue, DscError>)
    requires
        y != 0,
        !(x == i64::MIN && y == -1),
        Div::post(seq![JsonValue::Number(x as i128), JsonValue::Number(y as i128)], rd),
        Mod::post(seq![JsonValue::Number(x as i128), JsonValue::Number(y as i128)], rm),
    ensures
        rd matches Ok(JsonValue::Number(q)) && rm matches Ok(JsonValue::Number(m)) && q * y + m == x,
{
    let xi = x as int;
    let d = y as int;
    if xi > 0 && d > 0 {
        lemma_positive_division(xi, d);
        assert(x.checked_div(y) == Some((xi / d) as i64));
        assert(x.checked_rem(y) == Some((xi % d) as i64));
        assert(rd matches Ok(JsonValue::Number(q)) && q == xi / d);
        assert(rm matches Ok(JsonValue::Number(m)) && m == xi % d);
        assert((xi / d) * y + xi % d == x);
        assert(rd matches Ok(JsonValue::Number(q)) && rm matches Ok(JsonValue::Number(m)) && q * y + m == x);
    } else if xi < 0 && d < 0 {
        let a = -xi;
        let b = -d;
        lemma_positive_division(a, b);
        if x == i64::MIN {
            vstd::arithmetic::div_mod::lemma_div_is_ordered_by_denominator(a, 2, b);
            assert(a / 2 == 0x4000_0000_0000_0000);
        }
        let q = a / b;
        assert(q * d == -(q * b)) by (nonlinear_arith)
            requires
                d == -b,
        ;
        assert(rd matches Ok(JsonValue::Number(qq)) && qq == q);
        assert(rm matches Ok(JsonValue::Number(m)) && m == -(a % b));
        assert(q * y + (-(a % b)) == x);
        assert(rd matches Ok(JsonValue::Number(q)) && rm matches Ok(JsonValue::Number(m)) && q * y + m == x);
    } else if xi < 0 {
        let a = -xi;
        lemma_positive_division(a, d);
        let q = a / d;
        assert((-q) * d == -(q * d)) by (nonlinear_arith);
        assert(rd matches Ok(JsonValue::Number(qq)) && qq == -q);
        assert(rm matches Ok(JsonValue::Number(m)) && m == -(a % d));
        assert((-q) * y + (-(a % d)) == x);
        assert(rd matches Ok(JsonValue::Number(q)) && rm matches Ok(JsonValue::Number(m)) && q * y + m == x);
    } else if xi > 0 {
        let b = -d;
        lemma_positive_division(xi, b);
        let q = xi / b;
        assert((-q) * d == q * b) by (nonlinear_arith)
            requires
                d == -b,
        ;
        assert(rd matches Ok(JsonValue::Number(qq)) && qq == -q);
        assert(rm matches Ok(JsonValue::Number(m)) && m == xi % b);
        assert((-q) * y + xi % b == x);
        assert(rd matches Ok(JsonValue::Number(q)) && rm matches Ok(JsonValue::Number(m)) && q * y + m == x);
    } else {
        assert(rd matches Ok(JsonValue::Number(qq)) && qq == 0);
        assert(rm matches Ok(JsonValue::Number(m)) && m == 0);
        assert(rd matches Ok(JsonValue::Number(q)) && rm matches Ok(JsonValue::Number(m)) && q * y + m == x);
    }
}

proof fn lemma_positive_division(a: int, b: int)
    requires
        a > 0,
        b > 0,
    ensures
        (a / b) * b + a % b == a,
        0 <= a / b <= a,
        0 <= a % b < b,
        a % b <= a,
{
    vstd::arithmetic::div_mod::lemma_fundamental_div_mod(a, b);
    vstd::arithmetic::mul::lemma_mul_is_commutative(b, a / b);
    vstd::arithmetic::div_mod::lemma_mod_pos_bound(a, b);
    vstd::arithmetic::div_mod::lemma_div_pos_is_pos(a, b);
    vstd::arithmetic::div_mod::lemma_div_is_ordered_by_denominator(a, 1, b);
    vstd::arithmetic::div_mod::lemma_div_basics(a);
    assert((a / b) * b >= 0) by (nonlinear_arith)
        requires
            a / b >= 0,
            b > 0,
    ;
}

/// For the same arguments, the smallest integer that `min` finds is at most
/// the largest that `max` finds.
pub proof fn lemma_min_at_most_max(args: Seq<JsonValue>, rmin: Result<JsonValue, DscError>, rmax: Result<JsonValue, DscError>)
    requires
        args.len() >= 1,
        Min::post(args, rmin),
        Max::post(args, rmax),
        rmin is Ok,
        rmax is Ok,
    ensures
        rmin matches Ok(JsonValue::Number(a)) && rmax matches Ok(JsonValue::Number(b)) && a <= b,
{
    let vals = if args.len() == 1 { args[0]->Array_0@ } else { args };
    assert(vals.len() > 0);
    let t = crate::functions::numeric::int_at(vals, 0);
}

proof fn lemma_utf8_empty(s: Seq<char>)
    ensures
        (encode_utf8(s).len() == 0) == (s.len() == 0),
{
    if s.len() > 0 {
        let c = s[0] as u32;
        assert(vstd::utf8::encode_scalar(c).len() >= 1);
        assert(encode_utf8(s) == vstd::utf8::encode_scalar(c) + encode_utf8(s.drop_first()));
    }
}

/// `empty(v)` holds exactly when `length(v)` is zero; both refuse the same
/// values.
pub proof fn lemma_empty_is_length_zero(v: JsonValue, re: Result<JsonValue, DscError>, rl: Result<JsonValue, DscError>)
    requires
        Empty::post(seq![v], re),
        Length::post(seq![v], rl),
    ensures
        re is Ok == rl is Ok,
        re is Ok ==> (ok_bool(re, true) <==> ok_num(rl, 0)),
{
    if let JsonValue::String(s) = v {
        lemma_utf8_empty(s@);
    }
}

/// Whether `indexOf` and `lastIndexOf` compare the needle the same way: a
/// string, number, array or object.
pub open spec fn comparable_needle(n: JsonValue) -> bool {
    n is String || n is Number || n is Array || n is Object
}

proof fn lemma_index_match_is_eq(n: JsonValue, item: JsonValue)
    requires
        comparable_needle(n),
    ensures
        index_item_matches(n, item) == json_eq(item, n),
{
    reveal(json_eq);
    lemma_json_eq_symmetric(n, item);
}

/// For a string, number, array or object, `indexOf` and `lastIndexOf` on
/// the same array find the item or both miss it, and the first index is at
/// most the last.
pub proof fn lemma_index_of_before_last_index_of(
    items: Vec<JsonValue>,
    n: JsonValue,
    ri: Result<JsonValue, DscError>,
    rl: Result<JsonValue, DscError>,
)
    requires
        comparable_needle(n),
        IndexOf::post(seq![JsonValue::Array(items), n], ri),
        LastIndexOf::post(seq![JsonValue::Array(items), n], rl),
    ensures
        ri matches Ok(JsonValue::Number(i)) && rl matches Ok(JsonValue::Number(l)) && (i == -1 <==> l == -1) && i <= l,
{
    assert forall|k: int| 0 <= k < items@.len() implies #[trigger] index_item_matches(n, items@[k]) == json_eq(items@[k], n) by {
        lemma_index_match_is_eq(n, items@[k]);
    }
}

} // verus!
