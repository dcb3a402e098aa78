use dsc_lib::configure::configurator::{add_export_instances, resource_from_export_instance};
use dsc_lib::configure::config_doc::Configuration;
use dsc_lib::configure::context::Context;
use dsc_lib::dscerror::DscError;
use dsc_lib::dscresources::dscresource::is_same_array;
use dsc_lib::functions::{FunctionDispatcher, Invocation};
use dsc_lib::json::JsonValue;

fn s(x: &str) -> JsonValue {
    JsonValue::String(x.to_string())
}

fn n(x: i128) -> JsonValue {
    JsonValue::Number(x)
}

fn obj(ms: Vec<(&str, JsonValue)>) -> JsonValue {
    JsonValue::Object(ms.into_iter().map(|(k, v)| (k.to_string(), v)).collect())
}

fn call(name: &str, args: Vec<JsonValue>) -> Result<JsonValue, DscError> {
    match FunctionDispatcher::new().invoke(&name.to_string(), &args, &Context::new())? {
        Invocation::Value(v) => Ok(v),
        Invocation::Format(_) => panic!("not a value"),
    }
}

fn boolean(v: Result<JsonValue, DscError>) -> bool {
    match v.unwrap() {
        JsonValue::Bool(b) => b,
        other => panic!("{other:?}"),
    }
}

fn number(v: Result<JsonValue, DscError>) -> i128 {
    match v.unwrap() {
        JsonValue::Number(x) => x,
        other => panic!("{other:?}"),
    }
}

#[test]
fn greater_is_less_swapped() {
    for (a, b) in [(1, 2), (2, 1), (3, 3)] {
        assert_eq!(boolean(call("greater", vec![n(a), n(b)])), boolean(call("less", vec![n(b), n(a)])));
    }
    assert_eq!(boolean(call("greater", vec![s("b"), s("a")])), boolean(call("less", vec![s("a"), s("b")])));
}

#[test]
fn not_of_not_is_the_value() {
    for b in [true, false] {
        let once = call("not", vec![JsonValue::Bool(b)]).unwrap();
        assert_eq!(boolean(call("not", vec![once])), b);
    }
}

#[test]
fn less_or_equals_is_not_greater() {
    for (a, b) in [(1, 2), (2, 1), (3, 3), (-5, 4)] {
        assert_eq!(boolean(call("lessOrEquals", vec![n(a), n(b)])), !boolean(call("greater", vec![n(a), n(b)])));
    }
}

#[test]
fn equals_is_symmetric() {
    let a = obj(vec![("x", n(1)), ("y", s("z"))]);
    let b = obj(vec![("y", s("z")), ("x", n(1))]);
    let c = obj(vec![("x", n(2))]);
    assert!(boolean(call("equals", vec![a, b])));
    let a = obj(vec![("x", n(1)), ("y", s("z"))]);
    let b = obj(vec![("y", s("z")), ("x", n(1))]);
    assert!(boolean(call("equals", vec![b, a])));
    let a = obj(vec![("x", n(1))]);
    assert_eq!(boolean(call("equals", vec![a, obj(vec![("x", n(2))])])), boolean(call("equals", vec![c, obj(vec![("x", n(1))])])));
}

#[test]
fn div_and_mod_rebuild_the_dividend() {
    for (x, y) in [(7, 3), (-7, 3), (7, -3), (-7, -3), (0, 5), (9, 9)] {
        let q = number(call("div", vec![n(x), n(y)]));
        let m = number(call("mod", vec![n(x), n(y)]));
        assert_eq!(q * y + m, x);
    }
}

#[test]
fn min_is_at_most_max() {
    let args = vec![n(4), n(-2), n(9)];
    let lo = number(call("min", args.iter().map(|v| match v { JsonValue::Number(x) => n(*x), _ => unreachable!() }).collect()));
    let hi = number(call("max", args));
    assert!(lo <= hi);
    assert_eq!((lo, hi), (-2, 9));
}

#[test]
fn empty_is_length_zero() {
    for v in [s(""), s("a"), JsonValue::Array(vec![]), JsonValue::Array(vec![n(1)]), obj(vec![]), obj(vec![("a", n(1))])] {
        let copy = match &v {
            JsonValue::String(t) => s(t),
            JsonValue::Array(xs) => JsonValue::Array(xs.iter().map(|_| n(1)).collect()),
            JsonValue::Object(ms) => obj(ms.iter().map(|(k, _)| (k.as_str(), n(1))).collect()),
            _ => unreachable!(),
        };
        assert_eq!(boolean(call("empty", vec![v])), number(call("length", vec![copy])) == 0);
    }
    assert!(call("empty", vec![n(1)]).is_err() && call("length", vec![n(1)]).is_err());
}

#[test]
fn index_of_is_at_most_last_index_of() {
    let items = || JsonValue::Array(vec![s("a"), s("b"), s("a"), s("c")]);
    for needle in ["a", "b", "c", "z"] {
        let first = number(call("indexOf", vec![items(), s(needle)]));
        let last = number(call("lastIndexOf", vec![items(), s(needle)]));
        assert_eq!(first == -1, last == -1);
        assert!(first <= last);
    }
}

#[test]
fn an_array_is_the_same_as_itself() {
    let items = vec![s("a"), n(1), obj(vec![("a", s("b"))]), JsonValue::Array(vec![n(1), obj(vec![])])];
    let copy = vec![s("a"), n(1), obj(vec![("a", s("b"))]), JsonValue::Array(vec![n(1), obj(vec![])])];
    assert!(is_same_array(&items, &copy));
}

#[test]
fn exported_instance_becomes_a_resource() {
    let instance = obj(vec![
        ("_kind", s("Group")),
        ("value", s("[not an expression]")),
        ("_metadata", obj(vec![("note", s("x")), ("Microsoft.DSC.y", n(1))])),
        ("_securityContext", s("elevated")),
    ]);
    let r = resource_from_export_instance(&"Test/Echo".to_string(), 3, instance).unwrap();
    assert_eq!(r.name, "Test/Echo-3");
    assert_eq!(r.kind.as_deref(), Some("Group"));
    let props = r.properties.unwrap();
    assert_eq!(props.len(), 1);
    assert_eq!(props[0].0, "value");
    assert!(matches!(&props[0].1, JsonValue::String(t) if t == "[[not an expression]"));
    let metadata = r.metadata.unwrap();
    assert_eq!(metadata[0].0, "Microsoft.DSC");
    assert_eq!(metadata[1].0, "note");
    assert_eq!(metadata.len(), 2);
}

#[test]
fn exported_instance_errors() {
    let t = "Test/Echo".to_string();
    assert!(matches!(resource_from_export_instance(&t, 0, obj(vec![("_name", n(1))])), Err(DscError::Parser(_))));
    assert!(matches!(resource_from_export_instance(&t, 0, obj(vec![("_kind", n(1))])), Err(DscError::Parser(_))));
    assert!(matches!(resource_from_export_instance(&t, 0, obj(vec![("_securityContext", s("root"))])), Err(DscError::Json(_))));
    assert!(matches!(resource_from_export_instance(&t, 0, n(1)), Err(DscError::Json(_))));
    let named = resource_from_export_instance(&t, 0, obj(vec![("_name", s("mine"))])).unwrap();
    assert_eq!(named.name, "mine");
    assert!(named.metadata.is_none());
}

#[test]
fn export_instances_are_added_in_order() {
    let mut conf = Configuration {
        schema: String::new(),
        content_version: None,
        parameters: None,
        variables: None,
        resources: Vec::new(),
        metadata: None,
    };
    add_export_instances(&"Test/Echo".to_string(), &mut conf, vec![obj(vec![("a", n(1))]), obj(vec![("_name", s("two"))])]).unwrap();
    assert_eq!(conf.resources.len(), 2);
    assert_eq!(conf.resources[0].name, "Test/Echo-0");
    assert_eq!(conf.resources[1].name, "two");
    assert!(add_export_instances(&"Test/Echo".to_string(), &mut conf, vec![n(1)]).is_err());
}
