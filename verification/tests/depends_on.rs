use dsc_lib::configure::config_doc::{Configuration, Resource};
use dsc_lib::configure::depends_on::{get_resource_invocation_order, parse_depends_on};

fn resource(name: &str, depends_on: &[&str]) -> Resource {
    let mut r = Resource::new();
    r.name = name.to_string();
    r.resource_type = "Test/Null".to_string();
    if !depends_on.is_empty() {
        r.depends_on = Some(depends_on.iter().map(|d| format!("[resourceId('Test/Null','{d}')]")).collect());
    }
    r
}

fn config(resources: Vec<Resource>) -> Configuration {
    Configuration {
        schema: "https://raw.githubusercontent.com/PowerShell/DSC/main/schemas/2023/08/config/document.json".to_string(),
        content_version: None,
        parameters: None,
        variables: None,
        resources,
        metadata: None,
    }
}

#[test]
fn test_simple_order() {
    let config = config(vec![resource("Second", &["First"]), resource("First", &[])]);
    let order = get_resource_invocation_order(&config).unwrap();
    assert_eq!(order[0].name, "First");
    assert_eq!(order[1].name, "Second");
}

#[test]
fn test_duplicate_name() {
    let config = config(vec![resource("First", &[]), resource("Second", &["First"]), resource("First", &[])]);
    assert!(get_resource_invocation_order(&config).is_err());
}

#[test]
fn test_missing_dependency() {
    let config = config(vec![resource("Second", &["First"])]);
    assert!(get_resource_invocation_order(&config).is_err());
}

#[test]
fn test_multiple_same_dependency() {
    let config = config(vec![resource("Second", &["First"]), resource("First", &[]), resource("Third", &["First"])]);
    let order = get_resource_invocation_order(&config).unwrap();
    assert_eq!(order[0].name, "First");
    assert_eq!(order[1].name, "Second");
    assert_eq!(order[2].name, "Third");
}

#[test]
fn test_circular_dependency() {
    let config = config(vec![resource("Second", &["First"]), resource("First", &["Second"])]);
    assert!(get_resource_invocation_order(&config).is_err());
}

#[test]
fn test_multiple_dependencies() {
    let config = config(vec![resource("Third", &["First", "Second"]), resource("First", &[]), resource("Second", &[])]);
    let order = get_resource_invocation_order(&config).unwrap();
    assert_eq!(order[0].name, "First");
    assert_eq!(order[1].name, "Second");
    assert_eq!(order[2].name, "Third");
}

#[test]
fn test_complex_circular_dependency() {
    let config = config(vec![
        resource("Third", &["First", "Second"]),
        resource("First", &["Second"]),
        resource("Second", &["Third"]),
    ]);
    assert!(get_resource_invocation_order(&config).is_err());
}

#[test]
fn test_complex_dependency() {
    let config = config(vec![
        resource("Third", &["First", "Second"]),
        resource("Second", &["First"]),
        resource("First", &[]),
        resource("Fourth", &["Third"]),
    ]);
    let order = get_resource_invocation_order(&config).unwrap();
    assert_eq!(order[0].name, "First");
    assert_eq!(order[1].name, "Second");
    assert_eq!(order[2].name, "Third");
    assert_eq!(order[3].name, "Fourth");
}

#[test]
fn every_resource_is_invoked_exactly_once() {
    let config = config(vec![
        resource("Third", &["First", "Second"]),
        resource("Second", &["First"]),
        resource("First", &[]),
        resource("Fourth", &["Third"]),
    ]);
    let order = get_resource_invocation_order(&config).unwrap();
    assert_eq!(order.len(), 4);
    let mut names: Vec<String> = order.iter().map(|r| r.name.clone()).collect();
    names.sort();
    assert_eq!(names, vec!["First", "Fourth", "Second", "Third"]);
}

#[test]
fn mismatched_dependency_type_is_refused() {
    let mut second = resource("Second", &[]);
    second.depends_on = Some(vec!["[resourceId('Other/Type','First')]".to_string()]);
    let config = config(vec![second, resource("First", &[])]);
    assert!(get_resource_invocation_order(&config).is_err());
}

#[test]
fn malformed_dependency_is_refused() {
    let mut second = resource("Second", &[]);
    second.depends_on = Some(vec!["resourceId('Test/Null','First')".to_string()]);
    let config = config(vec![second, resource("First", &[])]);
    assert!(get_resource_invocation_order(&config).is_err());
}

#[test]
fn parses_resource_id() {
    let (t, n) = parse_depends_on("[resourceId('Test/Null','First')]").unwrap();
    assert_eq!(t, "Test/Null");
    assert_eq!(n, "First");
    assert!(parse_depends_on("[resourceId('Test/Null')]").is_none());
}

#[test]
fn transitive_dependencies_come_first() {
    let config = config(vec![resource("A", &["B"]), resource("B", &["C"]), resource("C", &[])]);
    let order = get_resource_invocation_order(&config).unwrap();
    let names: Vec<&str> = order.iter().map(|r| r.name.as_str()).collect();
    assert_eq!(names, vec!["C", "B", "A"]);
}

#[test]
fn a_resource_depending_on_itself_is_circular() {
    let config = config(vec![resource("A", &["A"])]);
    assert!(get_resource_invocation_order(&config).is_err());
}

#[test]
fn independent_resources_keep_their_listing_order() {
    let plain = config(vec![resource("A", &[]), resource("B", &[]), resource("C", &[])]);
    let order = get_resource_invocation_order(&plain).unwrap();
    let names: Vec<&str> = order.iter().map(|r| r.name.as_str()).collect();
    assert_eq!(names, vec!["A", "B", "C"]);
    let with_dep = config(vec![resource("A", &[]), resource("B", &["C"]), resource("C", &[]), resource("D", &[])]);
    let order = get_resource_invocation_order(&with_dep).unwrap();
    let names: Vec<&str> = order.iter().map(|r| r.name.as_str()).collect();
    assert_eq!(names, vec!["A", "C", "B", "D"]);
}
