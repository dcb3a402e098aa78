use dsc_lib::dscresources::dscresource::{get_diff, is_same_array};
use dsc_lib::json::JsonValue;

fn s(x: &str) -> JsonValue {
    JsonValue::String(x.to_string())
}

fn n(x: i128) -> JsonValue {
    JsonValue::Number(x)
}

fn obj(ms: Vec<(&str, JsonValue)>) -> JsonValue {
    JsonValue::Object(ms.into_iter().map(|(k, v)| (k.to_string(), v)).collect())
}

fn ab() -> JsonValue {
    obj(vec![("a", s("b"))])
}

fn cd() -> JsonValue {
    obj(vec![("c", s("d"))])
}

#[test]
fn same_array() {
    let array_one = vec![s("a"), n(1), ab(), JsonValue::Null];
    let array_two = vec![s("a"), n(1), ab(), JsonValue::Null];
    assert_eq!(is_same_array(&array_one, &array_two), true);
}

#[test]
fn same_array_out_of_order() {
    let array_one = vec![s("a"), JsonValue::Bool(true), ab()];
    let array_two = vec![ab(), s("a"), JsonValue::Bool(true)];
    assert_eq!(is_same_array(&array_one, &array_two), true);
}

#[test]
fn different_array() {
    let array_one = vec![s("a"), n(1), ab()];
    let array_two = vec![ab(), s("a"), n(2)];
    assert_eq!(is_same_array(&array_one, &array_two), false);
}

#[test]
fn different_array_sizes() {
    let array_one = vec![s("a"), n(1), ab()];
    let array_two = vec![ab(), s("a")];
    assert_eq!(is_same_array(&array_one, &array_two), false);
}

#[test]
fn array_with_multiple_objects_with_actual_superset() {
    let array_one = vec![s("a"), n(1), ab(), cd()];
    let array_two = vec![s("a"), n(1), obj(vec![("c", s("d")), ("a", s("b"))]), cd()];
    assert_eq!(is_same_array(&array_one, &array_two), true);
}

#[test]
fn array_with_multiple_objects_with_expected_superset() {
    let array_one = vec![s("a"), n(1), obj(vec![("a", s("b")), ("c", s("d"))]), cd()];
    let array_two = vec![s("a"), n(1), ab(), cd()];
    assert_eq!(is_same_array(&array_one, &array_two), false);
}

#[test]
fn array_with_duplicates_out_of_order() {
    let array_one = vec![s("a"), n(1), ab(), ab()];
    let array_two = vec![ab(), s("a"), n(1), ab()];
    assert_eq!(is_same_array(&array_one, &array_two), true);
}

#[test]
fn same_array_with_nested_array() {
    let array_one = vec![s("a"), n(1), ab(), JsonValue::Array(vec![s("a"), n(1)])];
    let array_two = vec![s("a"), n(1), ab(), JsonValue::Array(vec![s("a"), n(1)])];
    assert_eq!(is_same_array(&array_one, &array_two), true);
}

#[test]
fn different_array_with_nested_array() {
    let array_one = vec![s("a"), n(1), ab(), JsonValue::Array(vec![s("a"), n(1)])];
    let array_two = vec![s("a"), n(1), ab(), JsonValue::Array(vec![s("a"), n(2)])];
    assert_eq!(is_same_array(&array_one, &array_two), false);
}

#[test]
fn diff_reports_changed_and_missing_properties() {
    let expected = obj(vec![("a", n(1)), ("b", s("x")), ("$schema", s("ignored"))]);
    let actual = obj(vec![("a", n(2))]);
    assert_eq!(get_diff(&expected, &actual), vec!["a".to_string(), "b".to_string()]);
}

#[test]
fn diff_of_a_state_with_itself_is_empty() {
    let state = obj(vec![("a", n(1)), ("nested", obj(vec![("x", JsonValue::Array(vec![n(1), n(2)]))]))]);
    let copy = obj(vec![("a", n(1)), ("nested", obj(vec![("x", JsonValue::Array(vec![n(2), n(1)]))]))]);
    assert!(get_diff(&state, &copy).is_empty());
}

#[test]
fn diff_treats_missing_exist_as_true() {
    let expected = obj(vec![("_exist", JsonValue::Bool(false))]);
    let actual = obj(vec![]);
    assert_eq!(get_diff(&expected, &actual), vec!["_exist".to_string()]);
    let expected = obj(vec![("_exist", JsonValue::Bool(true))]);
    assert!(get_diff(&expected, &obj(vec![])).is_empty());
}

#[test]
fn diff_of_a_non_object_is_empty() {
    assert!(get_diff(&n(1), &n(2)).is_empty());
}

#[test]
fn arrays_with_repeated_items_must_repeat_them_equally() {
    let array_one = vec![n(1), n(1), n(2)];
    let array_two = vec![n(1), n(2), n(2)];
    assert_eq!(is_same_array(&array_one, &array_two), false);
    assert_eq!(is_same_array(&array_two, &array_one), false);
}

#[test]
fn plain_arrays_are_the_same_exactly_when_reordered() {
    let array_one = vec![s("x"), n(1), JsonValue::Null, n(1), JsonValue::Bool(false)];
    let array_two = vec![n(1), JsonValue::Bool(false), n(1), s("x"), JsonValue::Null];
    assert!(is_same_array(&array_one, &array_two));
    let array_three = vec![n(1), JsonValue::Bool(false), s("x"), s("x"), JsonValue::Null];
    assert!(!is_same_array(&array_one, &array_three));
}
