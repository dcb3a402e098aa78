use dsc_lib::configure::context::Context;
use dsc_lib::dscerror::DscError;
use dsc_lib::functions::array::{Coalesce, Join};
use dsc_lib::functions::logical::{LessOrEquals, Null};
use dsc_lib::functions::{FunctionDispatcher, Invocation};
use dsc_lib::json::JsonValue;

fn to_serde(v: &JsonValue) -> serde_json::Value {
    match v {
        JsonValue::Null => serde_json::Value::Null,
        JsonValue::Bool(b) => serde_json::Value::Bool(*b),
        JsonValue::Number(n) => {
            if *n < 0 {
                serde_json::Value::from(*n as i64)
            } else {
                serde_json::Value::from(*n as u64)
            }
        },
        JsonValue::String(s) => serde_json::Value::String(s.clone()),
        JsonValue::Array(xs) => serde_json::Value::Array(xs.iter().map(to_serde).collect()),
        JsonValue::Object(ms) => {
            let mut m = serde_json::Map::new();
            for (k, v) in ms {
                m.insert(k.clone(), to_serde(v));
            }
            serde_json::Value::Object(m)
        },
    }
}

fn text(v: &JsonValue) -> String {
    to_serde(v).to_string()
}

fn s(x: &str) -> JsonValue {
    JsonValue::String(x.to_string())
}

fn n(x: i128) -> JsonValue {
    JsonValue::Number(x)
}

fn b(x: bool) -> JsonValue {
    JsonValue::Bool(x)
}

fn arr(xs: Vec<JsonValue>) -> JsonValue {
    JsonValue::Array(xs)
}

fn obj(ms: Vec<(&str, JsonValue)>) -> JsonValue {
    JsonValue::Object(ms.into_iter().map(|(k, v)| (k.to_string(), v)).collect())
}

fn call_in(name: &str, args: Vec<JsonValue>, context: &Context) -> Result<JsonValue, DscError> {
    let dispatcher = FunctionDispatcher::new();
    match dispatcher.invoke(&name.to_string(), &args, context)? {
        Invocation::Value(v) => Ok(v),
        Invocation::Format(_) => panic!("not a value"),
    }
}

fn call(name: &str, args: Vec<JsonValue>) -> Result<JsonValue, DscError> {
    call_in(name, args, &Context::new())
}

fn value(name: &str, args: Vec<JsonValue>) -> JsonValue {
    call(name, args).unwrap()
}

// array

#[test]
fn single_string() {
    let result = value("array", vec![s("hello")]);
    assert_eq!(text(&result), r#"["hello"]"#);
}

#[test]
fn single_number() {
    let result = value("array", vec![n(42)]);
    assert_eq!(text(&result), "[42]");
}

#[test]
fn single_object() {
    let result = value("array", vec![obj(vec![("key", s("value"))])]);
    assert_eq!(text(&result), r#"[{"key":"value"}]"#);
}

#[test]
fn single_array() {
    let inner = value("createArray", vec![s("a"), s("b")]);
    let result = value("array", vec![inner]);
    assert_eq!(text(&result), r#"[["a","b"]]"#);
}

#[test]
fn empty_array_not_allowed() {
    assert!(call("array", vec![]).is_err());
}

#[test]
fn multiple_args_not_allowed() {
    assert!(call("array", vec![s("hello"), n(42)]).is_err());
}

#[test]
fn invalid_type_boolean() {
    assert!(call("array", vec![b(true)]).is_err());
}

#[test]
fn invalid_type_null() {
    let null = value("null", vec![]);
    assert!(call("array", vec![null]).is_err());
}

// base64

#[test]
fn base64_strings() {
    let result = value("base64", vec![s("hello world")]);
    assert_eq!(text(&result), r#""aGVsbG8gd29ybGQ=""#);
}

#[test]
fn base64_numbers() {
    assert!(call("base64", vec![n(123)]).is_err());
}

#[test]
fn base64_nested() {
    let inner = value("base64", vec![s("hello world")]);
    let result = value("base64", vec![inner]);
    assert_eq!(text(&result), r#""YUdWc2JHOGdkMjl5YkdRPQ==""#);
}

// bool

#[test]
fn true_string() {
    assert_eq!(text(&value("bool", vec![s("true")])), "true");
}

#[test]
fn false_string() {
    assert_eq!(text(&value("bool", vec![s("false")])), "false");
}

#[test]
fn number_1() {
    assert_eq!(text(&value("bool", vec![n(1)])), "true");
}

#[test]
fn number_0() {
    assert_eq!(text(&value("bool", vec![n(0)])), "false");
}

// coalesce

#[test]
fn direct_function_call_with_nulls() {
    let coalesce = Coalesce {};
    let context = Context::new();
    let result = coalesce.invoke(&vec![JsonValue::Null, JsonValue::Null, s("hello")], &context).unwrap();
    assert_eq!(text(&result), text(&s("hello")));
    let result = coalesce.invoke(&vec![JsonValue::Null, JsonValue::Null, JsonValue::Null], &context).unwrap();
    assert_eq!(text(&result), "null");
    let result = coalesce.invoke(&vec![s("first"), s("second")], &context).unwrap();
    assert_eq!(text(&result), text(&s("first")));
}

#[test]
fn direct_function_call_mixed_types() {
    let coalesce = Coalesce {};
    let context = Context::new();
    let result = coalesce.invoke(&vec![JsonValue::Null, n(42), s("fallback")], &context).unwrap();
    assert_eq!(text(&result), "42");
    let result = coalesce.invoke(&vec![JsonValue::Null, b(true)], &context).unwrap();
    assert_eq!(text(&result), "true");
}

#[test]
fn direct_function_call_with_arrays() {
    let coalesce = Coalesce {};
    let context = Context::new();
    let first_array = arr(vec![s("a"), s("b"), s("c")]);
    let second_array = arr(vec![s("x"), s("y"), s("z")]);
    let expected = text(&first_array);
    let result = coalesce.invoke(&vec![JsonValue::Null, first_array, second_array], &context).unwrap();
    assert_eq!(text(&result), expected);
    let result = coalesce.invoke(&vec![JsonValue::Null, JsonValue::Null, arr(vec![n(1), n(2), n(3)])], &context).unwrap();
    assert_eq!(text(&result), "[1,2,3]");
}

#[test]
fn direct_function_call_with_objects() {
    let coalesce = Coalesce {};
    let context = Context::new();
    let first_obj = obj(vec![("name", s("test")), ("value", n(42))]);
    let second_obj = obj(vec![("name", s("fallback")), ("value", n(0))]);
    let expected = text(&first_obj);
    let result = coalesce.invoke(&vec![JsonValue::Null, first_obj, second_obj], &context).unwrap();
    assert_eq!(text(&result), expected);
    let result = coalesce.invoke(&vec![JsonValue::Null, JsonValue::Null, obj(vec![("key", s("value"))])], &context).unwrap();
    assert_eq!(text(&result), r#"{"key":"value"}"#);
}

#[test]
fn direct_function_call_with_empty_collections() {
    let coalesce = Coalesce {};
    let context = Context::new();
    let result = coalesce.invoke(&vec![JsonValue::Null, arr(vec![]), s("fallback")], &context).unwrap();
    assert_eq!(text(&result), "[]");
    let result = coalesce.invoke(&vec![JsonValue::Null, obj(vec![]), s("fallback")], &context).unwrap();
    assert_eq!(text(&result), "{}");
}

#[test]
fn parser_with_values() {
    assert_eq!(text(&value("coalesce", vec![s("hello"), s("world")])), r#""hello""#);
    assert_eq!(text(&value("coalesce", vec![n(42), s("fallback")])), "42");
    assert_eq!(text(&value("coalesce", vec![b(true)])), "true");
}

// concat

#[test]
fn concat_strings() {
    assert_eq!(text(&value("concat", vec![s("a"), s("b")])), r#""ab""#);
}

#[test]
fn strings_with_spaces() {
    assert_eq!(text(&value("concat", vec![s("a "), s(" "), s(" b")])), r#""a   b""#);
}

#[test]
fn concat_arrays() {
    let a = value("createArray", vec![s("a"), s("b")]);
    let c = value("createArray", vec![s("c"), s("d")]);
    assert_eq!(text(&value("concat", vec![a, c])), r#"["a","b","c","d"]"#);
}

#[test]
fn concat_string_and_numbers() {
    assert!(call("concat", vec![s("a"), n(1)]).is_err());
}

#[test]
fn concat_nested() {
    let inner = value("concat", vec![s("b"), s("c")]);
    assert_eq!(text(&value("concat", vec![s("a"), inner, s("d")])), r#""abcd""#);
}

#[test]
fn concat_invalid_one_parameter() {
    assert!(call("concat", vec![s("a")]).is_err());
}

#[test]
fn string_and_array() {
    let a = value("createArray", vec![s("b"), s("c")]);
    assert!(call("concat", vec![s("a"), a]).is_err());
}

#[test]
fn array_and_string() {
    let a = value("createArray", vec![s("a"), s("b")]);
    assert!(call("concat", vec![a, s("c")]).is_err());
}

// contains

#[test]
fn string_contains_string() {
    assert_eq!(text(&value("contains", vec![s("hello"), s("lo")])), "true");
}

#[test]
fn string_does_not_contain_string() {
    assert_eq!(text(&value("contains", vec![s("hello"), s("world")])), "false");
}

#[test]
fn string_contains_number() {
    assert_eq!(text(&value("contains", vec![s("hello123"), n(123)])), "true");
}

// createArray

#[test]
fn create_array_strings() {
    assert_eq!(text(&value("createArray", vec![s("a"), s("b")])), r#"["a","b"]"#);
}

#[test]
fn integers() {
    assert_eq!(text(&value("createArray", vec![n(1), n(2), n(3)])), "[1,2,3]");
}

#[test]
fn create_array_arrays() {
    let a = value("createArray", vec![s("a"), s("b")]);
    let c = value("createArray", vec![s("c"), s("d")]);
    assert_eq!(text(&value("createArray", vec![a, c])), r#"[["a","b"],["c","d"]]"#);
}

#[test]
fn objects() {
    let result = value("createArray", vec![obj(vec![("a", n(1))]), obj(vec![("b", s("x"))])]);
    assert_eq!(text(&result), r#"[{"a":1},{"b":"x"}]"#);
}

#[test]
fn mixed_types() {
    assert!(call("createArray", vec![n(1), s("a")]).is_err());
}

#[test]
fn empty() {
    assert_eq!(text(&value("createArray", vec![])), "[]");
}

// div

#[test]
fn div_numbers() {
    assert_eq!(text(&value("div", vec![n(8), n(3)])), "2");
}

#[test]
fn div_nested() {
    let inner = value("div", vec![n(9), n(3)]);
    assert_eq!(text(&value("div", vec![n(18), inner])), "6");
}

#[test]
fn div_invalid_one_parameter() {
    assert!(call("div", vec![n(5)]).is_err());
}

#[test]
fn div_invalid_div_by_zero() {
    assert!(call("div", vec![n(5), n(0)]).is_err());
}

// empty

#[test]
fn empty_empty_string() {
    assert_eq!(text(&value("empty", vec![s("")])), "true");
}

#[test]
fn empty_not_empty_string() {
    assert_eq!(text(&value("empty", vec![s("foo")])), "false");
}

// endsWith

#[test]
fn does_ends_with() {
    assert_eq!(text(&value("endsWith", vec![s("hello"), s("lo")])), "true");
}

#[test]
fn does_not_ends_with() {
    assert_eq!(text(&value("endsWith", vec![s("hello"), s("world")])), "false");
}

// envvar

#[test]
fn valid() {
    let mut context = Context::new();
    context.environment = vec![("PATH".to_string(), "/usr/local/bin:/usr/bin".to_string())];
    let result = call_in("envvar", vec![s("PATH")], &context).unwrap();
    assert_eq!(text(&result), r#""/usr/local/bin:/usr/bin""#);
}

#[test]
fn invalid() {
    let mut context = Context::new();
    context.environment = vec![("PATH".to_string(), "/usr/bin".to_string())];
    assert!(call_in("envvar", vec![s("INVALID")], &context).is_err());
}

// equals

#[test]
fn int_equal() {
    assert_eq!(text(&value("equals", vec![n(1), n(1)])), "true");
}

#[test]
fn int_notequal() {
    assert_eq!(text(&value("equals", vec![n(1), n(2)])), "false");
}

#[test]
fn string_equal() {
    assert_eq!(text(&value("equals", vec![s("test"), s("test")])), "true");
}

#[test]
fn string_notequal() {
    assert_eq!(text(&value("equals", vec![s("test"), s("TEST")])), "false");
}

#[test]
fn different_types() {
    assert_eq!(text(&value("equals", vec![n(1), s("string")])), "false");
}

// false

#[test]
fn false_function() {
    assert_eq!(text(&value("false", vec![])), "false");
}

// first

#[test]
fn array_of_strings() {
    let a = value("createArray", vec![s("hello"), s("world")]);
    assert_eq!(text(&value("first", vec![a])), r#""hello""#);
}

#[test]
fn array_of_numbers() {
    let a = value("createArray", vec![n(1), n(2), n(3)]);
    assert_eq!(text(&value("first", vec![a])), "1");
}

#[test]
fn array_of_single_element() {
    let a = value("array", vec![s("hello")]);
    assert_eq!(text(&value("first", vec![a])), r#""hello""#);
}

#[test]
fn string_input() {
    assert_eq!(text(&value("first", vec![s("hello")])), r#""h""#);
}

#[test]
fn single_character_string() {
    assert_eq!(text(&value("first", vec![s("a")])), r#""a""#);
}

#[test]
fn first_empty_array() {
    let a = value("createArray", vec![]);
    assert!(call("first", vec![a]).is_err());
}

#[test]
fn first_empty_string() {
    assert!(call("first", vec![s("")]).is_err());
}

#[test]
fn invalid_type_object() {
    assert!(call("first", vec![obj(vec![("key", s("value"))])]).is_err());
}

#[test]
fn invalid_type_number() {
    assert!(call("first", vec![n(42)]).is_err());
}

// greater

#[test]
fn number_greater() {
    assert_eq!(text(&value("greater", vec![n(2), n(1)])), "true");
}

#[test]
fn number_not_greater() {
    assert_eq!(text(&value("greater", vec![n(1), n(2)])), "false");
}

#[test]
fn greater_number_equal() {
    assert_eq!(text(&value("greater", vec![n(1), n(1)])), "false");
}

#[test]
fn string_greater() {
    assert_eq!(text(&value("greater", vec![s("b"), s("a")])), "true");
}

#[test]
fn greater_type_mismatch_string_number() {
    let result = call("greater", vec![s("5"), n(3)]);
    assert!(result.is_err());
    assert!(result.unwrap_err().message().contains("Arguments must be of the same type"));
}

// if

#[test]
fn invalid_condition() {
    assert!(call("if", vec![s("PATH"), n(1), n(2)]).is_err());
}

#[test]
fn condition_true() {
    assert_eq!(text(&value("if", vec![b(true), s("left"), s("right")])), r#""left""#);
}

#[test]
fn condition_false() {
    assert_eq!(text(&value("if", vec![b(false), s("left"), s("right")])), r#""right""#);
}

// indexOf

#[test]
fn find_string_in_array() {
    let a = value("createArray", vec![s("apple"), s("banana"), s("cherry")]);
    assert_eq!(text(&value("indexOf", vec![a, s("banana")])), "1");
}

#[test]
fn find_number_in_array() {
    let a = value("createArray", vec![n(10), n(20), n(30)]);
    assert_eq!(text(&value("indexOf", vec![a, n(20)])), "1");
}

#[test]
fn find_first_occurrence() {
    let a = value("createArray", vec![s("a"), s("b"), s("a"), s("c")]);
    assert_eq!(text(&value("indexOf", vec![a, s("a")])), "0");
}

#[test]
fn item_not_found() {
    let a = value("createArray", vec![s("apple"), s("banana")]);
    assert_eq!(text(&value("indexOf", vec![a, s("orange")])), "-1");
}

#[test]
fn case_sensitive_string() {
    let a = value("createArray", vec![s("Apple"), s("Banana")]);
    assert_eq!(text(&value("indexOf", vec![a, s("apple")])), "-1");
}

#[test]
fn find_array_in_array() {
    let ab = value("createArray", vec![s("a"), s("b")]);
    let cd = value("createArray", vec![s("c"), s("d")]);
    let haystack = arr(vec![ab, cd]);
    let needle = value("createArray", vec![s("c"), s("d")]);
    assert_eq!(text(&value("indexOf", vec![haystack, needle])), "1");
}

#[test]
fn find_object_in_array() {
    let haystack = arr(vec![obj(vec![("name", s("John"))]), obj(vec![("name", s("Jane"))])]);
    let needle = obj(vec![("name", s("Jane"))]);
    assert_eq!(text(&value("indexOf", vec![haystack, needle])), "1");
}

#[test]
fn index_of_empty_array() {
    let a = value("createArray", vec![]);
    assert_eq!(text(&value("indexOf", vec![a, s("test")])), "-1");
}

#[test]
fn invalid_array_arg() {
    assert!(call("indexOf", vec![s("not_an_array"), s("test")]).is_err());
}

// intersection

#[test]
fn array_intersection() {
    let a = value("createArray", vec![n(1), n(2), n(3)]);
    let c = value("createArray", vec![n(2), n(3), n(4)]);
    assert_eq!(text(&value("intersection", vec![a, c])), "[2,3]");
}

#[test]
fn array_intersection_three_arrays() {
    let a = value("createArray", vec![n(1), n(2), n(3), n(4)]);
    let c = value("createArray", vec![n(2), n(3), n(4), n(5)]);
    let d = value("createArray", vec![n(3), n(4), n(5), n(6)]);
    assert_eq!(text(&value("intersection", vec![a, c, d])), "[3,4]");
}

#[test]
fn array_intersection_no_common_elements() {
    let a = value("createArray", vec![n(1), n(2)]);
    let c = value("createArray", vec![n(3), n(4)]);
    assert_eq!(text(&value("intersection", vec![a, c])), "[]");
}

#[test]
fn array_intersection_with_duplicates() {
    let a = value("createArray", vec![n(1), n(2), n(2), n(3)]);
    let c = value("createArray", vec![n(2), n(2), n(3), n(4)]);
    assert_eq!(text(&value("intersection", vec![a, c])), "[2,3]");
}

#[test]
fn object_intersection() {
    let a = obj(vec![("a", n(1)), ("b", n(2))]);
    let c = obj(vec![("b", n(2)), ("c", n(3))]);
    assert_eq!(text(&value("intersection", vec![a, c])), r#"{"b":2}"#);
}

#[test]
fn object_intersection_different_values() {
    let a = obj(vec![("a", n(1)), ("b", n(2))]);
    let c = obj(vec![("a", n(2)), ("b", n(2))]);
    assert_eq!(text(&value("intersection", vec![a, c])), r#"{"b":2}"#);
}

#[test]
fn object_intersection_no_common_keys() {
    let a = obj(vec![("a", n(1))]);
    let c = obj(vec![("b", n(2))]);
    assert_eq!(text(&value("intersection", vec![a, c])), "{}");
}

#[test]
fn mixed_types_error() {
    let a = value("createArray", vec![n(1), n(2)]);
    assert!(call("intersection", vec![a, obj(vec![("a", n(1))])]).is_err());
}

// join

#[test]
fn join_array_of_strings() {
    let a = value("createArray", vec![s("a"), s("b"), s("c")]);
    assert_eq!(text(&value("join", vec![a, s("-")])), r#""a-b-c""#);
}

#[test]
fn join_empty_array_returns_empty() {
    let a = value("createArray", vec![]);
    assert_eq!(text(&value("join", vec![a, s("-")])), r#""""#);
}

#[test]
fn join_array_of_integers() {
    let a = value("createArray", vec![n(1), n(2), n(3)]);
    assert_eq!(text(&value("join", vec![a, s(",")])), r#""1,2,3""#);
}

#[test]
fn join_array_with_null_fails() {
    let null = value("null", vec![]);
    let result = call("createArray", vec![s("a"), null]);
    assert!(result.is_err());
    assert!(result.unwrap_err().message().contains("does not accept null arguments"));
}

#[test]
fn join_array_with_array_fails() {
    let inner = value("createArray", vec![s("b")]);
    let result = call("createArray", vec![s("a"), inner]);
    assert!(result.is_err());
    let error_msg = result.unwrap_err().message();
    assert!(error_msg.contains("Arguments must all be arrays") || error_msg.contains("mixed types"));
}

#[test]
fn join_array_with_object_fails() {
    let result = call("createArray", vec![s("a"), obj(vec![("key", s("value"))])]);
    assert!(result.is_err());
    let error_msg = result.unwrap_err().message();
    assert!(error_msg.contains("Arguments must all be") || error_msg.contains("mixed types"));
}

#[test]
fn join_direct_test_with_mixed_array() {
    let join_fn = Join::default();
    let args = vec![arr(vec![s("hello"), obj(vec![("key", s("value"))])]), s(",")];
    let result = join_fn.invoke(&args, &Context::new());
    assert!(result.is_err());
    assert!(result.unwrap_err().message().contains("Array elements cannot be objects"));
}

// lastIndexOf

#[test]
fn finds_last_occurrence_string() {
    let a = value("createArray", vec![s("a"), s("b"), s("a"), s("c")]);
    assert_eq!(text(&value("lastIndexOf", vec![a, s("a")])), "2");
}

#[test]
fn finds_last_occurrence_number() {
    let a = value("createArray", vec![n(10), n(20), n(30), n(20)]);
    assert_eq!(text(&value("lastIndexOf", vec![a, n(20)])), "3");
}

#[test]
fn not_found_returns_minus_one() {
    let a = value("createArray", vec![s("x"), s("y")]);
    assert_eq!(text(&value("lastIndexOf", vec![a, s("z")])), "-1");
}

#[test]
fn finds_last_occurrence_array() {
    let ab = value("createArray", vec![s("a"), s("b")]);
    let cd = value("createArray", vec![s("c"), s("d")]);
    let ab2 = value("createArray", vec![s("a"), s("b")]);
    let haystack = value("createArray", vec![ab, cd, ab2]);
    let needle = value("createArray", vec![s("a"), s("b")]);
    assert_eq!(text(&value("lastIndexOf", vec![haystack, needle])), "2");
}

#[test]
fn finds_last_occurrence_nested_array() {
    let a = value("createArray", vec![n(1), n(2)]);
    let c = value("createArray", vec![n(3), n(4)]);
    let a2 = value("createArray", vec![n(1), n(2)]);
    let haystack = value("createArray", vec![a, c, a2]);
    let needle = value("createArray", vec![n(1), n(2)]);
    assert_eq!(text(&value("lastIndexOf", vec![haystack, needle])), "2");
}

#[test]
fn finds_last_occurrence_object() {
    let haystack = value(
        "createArray",
        vec![obj(vec![("name", s("John"))]), obj(vec![("name", s("Jane"))]), obj(vec![("name", s("John"))])],
    );
    assert_eq!(text(&value("lastIndexOf", vec![haystack, obj(vec![("name", s("John"))])])), "2");
}

#[test]
fn finds_object_regardless_of_property_order() {
    let haystack = value("createArray", vec![obj(vec![("a", n(1)), ("b", n(2))]), obj(vec![("b", n(2)), ("a", n(1))])]);
    assert_eq!(text(&value("lastIndexOf", vec![haystack, obj(vec![("a", n(1)), ("b", n(2))])])), "1");
}

#[test]
fn mismatched_types_do_not_match() {
    let a = value("createArray", vec![s("1"), s("2"), s("3")]);
    assert_eq!(text(&value("lastIndexOf", vec![a, n(1)])), "-1");
    let a = value("createArray", vec![n(1), n(2), n(3)]);
    assert_eq!(text(&value("lastIndexOf", vec![a, s("1")])), "-1");
}

// length

#[test]
fn length_empty_string() {
    assert_eq!(text(&value("length", vec![s("")])), "0");
}

#[test]
fn length_not_empty_string() {
    assert_eq!(text(&value("length", vec![s("foo")])), "3");
}

// less

#[test]
fn number_less() {
    assert_eq!(text(&value("less", vec![n(3), n(5)])), "true");
}

#[test]
fn number_not_less() {
    assert_eq!(text(&value("less", vec![n(5), n(3)])), "false");
}

#[test]
fn less_number_equal() {
    assert_eq!(text(&value("less", vec![n(5), n(5)])), "false");
}

#[test]
fn string_less() {
    assert_eq!(text(&value("less", vec![s("a"), s("b")])), "true");
}

#[test]
fn less_type_mismatch_string_number() {
    let result = call("less", vec![s("5"), n(3)]);
    assert!(result.is_err());
    assert!(result.unwrap_err().message().contains("Arguments must be of the same type"));
}

// lessOrEquals

#[test]
fn test_less_or_equals() {
    let less_or_equals = LessOrEquals {};
    let context = Context::new();
    let result = less_or_equals.invoke(&vec![n(3), n(5)], &context);
    assert!(result.is_ok());
    assert_eq!(text(&result.unwrap()), "true");
    let result = less_or_equals.invoke(&vec![n(5), n(3)], &context);
    assert!(result.is_ok());
    assert_eq!(text(&result.unwrap()), "false");
    let result = less_or_equals.invoke(&vec![n(5), n(5)], &context);
    assert!(result.is_ok());
    assert_eq!(text(&result.unwrap()), "true");
}

#[test]
fn test_invalid_args() {
    assert!(call("lessOrEquals", vec![n(5)]).is_err());
}

// max

#[test]
fn max_list() {
    assert_eq!(text(&value("max", vec![n(3), n(2), n(5), n(4)])), "5");
}

#[test]
fn max_list_with_spaces() {
    assert_eq!(text(&value("max", vec![n(3), n(2), n(5), n(4)])), "5");
}

#[test]
fn max_array() {
    let a = value("createArray", vec![n(0), n(3), n(2), n(7), n(4)]);
    assert_eq!(text(&value("max", vec![a])), "7");
}

#[test]
fn max_array_single_value() {
    let a = value("createArray", vec![n(0)]);
    assert_eq!(text(&value("max", vec![a])), "0");
}

#[test]
fn max_arrays() {
    let a = value("createArray", vec![n(0), n(3)]);
    let c = value("createArray", vec![n(2), n(5)]);
    assert!(call("max", vec![a, c]).is_err());
}

#[test]
fn max_string_and_numbers() {
    assert!(call("max", vec![s("a"), n(1)]).is_err());
}

#[test]
fn max_nested() {
    let inner = value("max", vec![n(-2), n(-9)]);
    assert_eq!(text(&value("max", vec![n(-10), inner, n(-5)])), "-2");
}

#[test]
fn max_int_and_array() {
    let a = value("createArray", vec![n(0), n(2)]);
    assert!(call("max", vec![n(1), a]).is_err());
}

#[test]
fn max_array_and_int() {
    let a = value("createArray", vec![n(0), n(2)]);
    assert!(call("max", vec![a, n(1)]).is_err());
}

// min

#[test]
fn min_list() {
    assert_eq!(text(&value("min", vec![n(3), n(2), n(5), n(4)])), "2");
}

#[test]
fn min_list_with_spaces() {
    assert_eq!(text(&value("min", vec![n(3), n(2), n(5), n(4)])), "2");
}

#[test]
fn min_array() {
    let a = value("createArray", vec![n(0), n(3), n(2), n(5), n(4)]);
    assert_eq!(text(&value("min", vec![a])), "0");
}

#[test]
fn min_array_single_value() {
    let a = value("createArray", vec![n(0)]);
    assert!(call("min", vec![a]).is_err());
}

#[test]
fn min_arrays() {
    let a = value("createArray", vec![s("0"), s("3")]);
    let c = value("createArray", vec![s("2"), s("5")]);
    assert!(call("min", vec![a, c]).is_err());
}

#[test]
fn min_string_and_numbers() {
    assert!(call("min", vec![s("a"), n(1)]).is_err());
}

#[test]
fn min_nested() {
    let inner = value("min", vec![n(2), n(5)]);
    assert_eq!(text(&value("min", vec![n(8), inner, n(3)])), "2");
}

#[test]
fn min_invalid_one_parameter() {
    let a = value("createArray", vec![n(1)]);
    assert!(call("min", vec![a]).is_err());
}

#[test]
fn min_int_and_array() {
    let a = value("createArray", vec![n(0), n(2)]);
    assert!(call("min", vec![n(1), a]).is_err());
}

#[test]
fn min_array_and_int() {
    let a = value("createArray", vec![n(0), n(2)]);
    assert!(call("min", vec![a, n(1)]).is_err());
}

// mod

#[test]
fn mod_function_numbers() {
    assert_eq!(text(&value("mod", vec![n(7), n(3)])), "1");
}

#[test]
fn mod_function_nested() {
    let inner = value("mod", vec![n(8), n(3)]);
    assert_eq!(text(&value("mod", vec![n(18), inner])), "0");
}

#[test]
fn mod_function_invalid_one_parameter() {
    assert!(call("mod", vec![n(5)]).is_err());
}

#[test]
fn mod_function_invalid_div_by_zero() {
    assert!(call("mod", vec![n(5), n(0)]).is_err());
}

// mountedpath

#[test]
fn no_arg() {
    let mut context = Context::new();
    let separator = std::path::MAIN_SEPARATOR;
    context.mounted_path = format!("{separator}mnt");
    let result = call_in("mountedpath", vec![], &context).unwrap();
    assert_eq!(text(&result), text(&s(&format!("{separator}mnt"))));
}

#[test]
fn with_arg() {
    let mut context = Context::new();
    let separator = std::path::MAIN_SEPARATOR;
    context.mounted_path = format!("{separator}mnt");
    let result = call_in("mountedpath", vec![s("foo")], &context).unwrap();
    assert_eq!(text(&result), text(&s(&format!("{separator}mnt{separator}foo"))));
}

// mul

#[test]
fn mul_numbers() {
    assert_eq!(text(&value("mul", vec![n(2), n(3)])), "6");
}

#[test]
fn mul_nested() {
    let inner = value("mul", vec![n(3), n(4)]);
    assert_eq!(text(&value("mul", vec![n(2), inner])), "24");
}

#[test]
fn mul_invalid_one_parameter() {
    assert!(call("mul", vec![n(5)]).is_err());
}

// not

#[test]
fn not_true() {
    assert_eq!(text(&value("not", vec![b(true)])), "false");
}

#[test]
fn not_false() {
    assert_eq!(text(&value("not", vec![b(false)])), "true");
}

// null

#[test]
fn direct_function_call() {
    let null_fn = Null {};
    let result = null_fn.invoke(&vec![], &Context::new()).unwrap();
    assert_eq!(text(&result), "null");
}

#[test]
fn parser_with_null() {
    assert_eq!(text(&value("null", vec![])), "null");
}

#[test]
fn null_with_coalesce() {
    let null = value("null", vec![]);
    assert_eq!(text(&value("coalesce", vec![null, s("fallback")])), r#""fallback""#);
}

#[test]
fn null_in_object() {
    let null = value("null", vec![]);
    let object = obj(vec![("key", null)]);
    assert_eq!(text(&object), r#"{"key":null}"#);
}

// or

#[test]
fn two_values() {
    assert_eq!(text(&value("or", vec![b(true), b(false)])), "true");
}

#[test]
fn multiple_values() {
    assert_eq!(text(&value("or", vec![b(true), b(false), b(true)])), "true");
}

#[test]
fn all_false() {
    assert_eq!(text(&value("or", vec![b(false), b(false)])), "false");
}
