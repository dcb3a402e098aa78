use dsc_lib::discovery::required::{claim_resources, required_types, ResourceSearch, SearchStep};
use dsc_lib::dscresources::dscresource::DscResource;

fn resource(t: &str, version: &str) -> DscResource {
    let mut r = DscResource::new();
    r.resource_type = t.to_string();
    r.version = version.to_string();
    r
}

fn entry(name: &str, versions: &[&str]) -> (String, Vec<DscResource>) {
    (name.to_string(), versions.iter().map(|v| resource(name, v)).collect())
}

fn strings(v: &[&str]) -> Vec<String> {
    v.iter().map(|s| s.to_string()).collect()
}

#[test]
fn required_types_are_lowercased_sorted_and_unique() {
    let r = required_types(&strings(&["Test/B", "test/a", "TEST/b", "Test/A", "Other/Z"]));
    assert_eq!(r, strings(&["other/z", "test/a", "test/b"]));
    assert!(required_types(&vec![]).is_empty());
}

#[test]
fn the_first_version_of_a_discovered_resource_is_found() {
    let entries = vec![entry("Test/A", &["2.0.0", "1.0.0"]), entry("Test/Empty", &[]), entry("Test/B", &["1.0.0"])];
    let mut remaining = strings(&["test/a", "test/c", "test/empty"]);
    let mut found = vec![];
    let done = claim_resources(&entries, None, &mut remaining, &mut found);
    assert!(!done);
    assert_eq!(remaining, strings(&["test/c", "test/empty"]));
    assert_eq!(found.len(), 1);
    assert_eq!(found[0].0, "test/a");
    assert_eq!(found[0].1.version, "2.0.0");
}

#[test]
fn an_adapted_resource_brings_its_adapter() {
    let adapter = resource("Test/Adapter", "1.0.0");
    let name = "Test/Adapter".to_string();
    let adapted = vec![entry("Test/Adapted", &["1.0.0"])];
    let mut remaining = strings(&["test/adapted"]);
    let mut found = vec![];
    let done = claim_resources(&adapted, Some((&name, &adapter)), &mut remaining, &mut found);
    assert!(done);
    let names: Vec<&str> = found.iter().map(|(k, _)| k.as_str()).collect();
    assert_eq!(names, vec!["test/adapted", "test/adapter"]);
    let mut none_found = vec![];
    let mut other = strings(&["test/other"]);
    assert!(!claim_resources(&adapted, Some((&name, &adapter)), &mut other, &mut none_found));
    assert!(none_found.is_empty());
}

#[test]
fn a_search_tries_adapters_until_all_is_found() {
    let resources = vec![entry("Test/A", &["1.0.0"])];
    let adapters = vec![entry("Test/Empty", &[]), entry("Test/Adapter", &["1.0.0"])];
    let remaining = required_types(&strings(&["Test/A", "Test/Adapted"]));
    let mut search = ResourceSearch::start(remaining, &resources, &adapters, &vec![]);
    assert_eq!(search.remaining, strings(&["test/adapted"]));
    assert_eq!(search.step(), SearchStep::Skipped);
    assert_eq!(search.step(), SearchStep::ListAdapted(1));
    let adapted = vec![entry("Test/Adapted", &["1.0.0"])];
    assert!(search.adapted_listed(1, &adapted));
    assert_eq!(search.step(), SearchStep::Finished);
    let names: Vec<&str> = search.found.iter().map(|(k, _)| k.as_str()).collect();
    assert_eq!(names, vec!["test/a", "test/adapted", "test/adapter"]);
}

#[test]
fn a_search_prefers_the_adapter_the_lookup_table_names() {
    let adapters = vec![entry("Test/First", &["1.0.0"]), entry("Test/Second", &["1.0.0"])];
    let table = vec![("test/adapted".to_string(), "Test/Second".to_string())];
    let remaining = required_types(&strings(&["Test/Adapted"]));
    let mut search = ResourceSearch::start(remaining, &vec![], &adapters, &table);
    assert_eq!(search.step(), SearchStep::ListAdapted(0));
    assert_eq!(search.adapters[0].0, "Test/Second");
}

#[test]
fn an_adapter_can_itself_be_required() {
    let adapters = vec![entry("Test/Adapter", &["1.0.0"])];
    let remaining = required_types(&strings(&["Test/Adapter"]));
    let mut search = ResourceSearch::start(remaining, &vec![], &adapters, &vec![]);
    assert_eq!(search.step(), SearchStep::Finished);
    assert_eq!(search.found[0].0, "test/adapter");
}
