use dsc_lib::discovery::scan::{adapters_to_list, compile_filter, record_discovered_resource, record_found_manifest, record_listed_resource, FoundManifest, ScanFound};
use dsc_lib::dscerror::DscError;
use dsc_lib::dscresources::dscresource::DscResource;
use dsc_lib::dscresources::resource_manifest::Kind;
use dsc_lib::extensions::dscextension::DscExtension;

fn resource(t: &str, version: &str) -> DscResource {
    let mut r = DscResource::new();
    r.resource_type = t.to_string();
    r.version = version.to_string();
    r
}

fn extension(t: &str, version: &str) -> DscExtension {
    let mut e = DscExtension::new();
    e.extension_type = t.to_string();
    e.version = version.to_string();
    e
}

fn versions(table: &Vec<(String, Vec<DscResource>)>, t: &str) -> Vec<String> {
    table.iter().find(|(k, _)| k == t).map(|(_, l)| l.iter().map(|r| r.version.clone()).collect()).unwrap_or_default()
}

#[test]
fn scan_sorts_found_resources_and_adapters() {
    let filter = compile_filter("Test/*").unwrap();
    let mut scan = ScanFound::new();
    let found = FoundManifest::Resource(resource("Test/Echo", "1.0.0"), Some(Ok(None)));
    assert!(record_found_manifest(&filter, found, &mut scan).is_ok());
    let found = FoundManifest::Resource(resource("test/echo", "2.0.0"), Some(Ok(Some(Kind::Resource))));
    assert!(record_found_manifest(&filter, found, &mut scan).is_ok());
    let found = FoundManifest::Resource(resource("Test/Adapter", "1.0.0"), Some(Ok(Some(Kind::Adapter))));
    assert!(record_found_manifest(&filter, found, &mut scan).is_ok());
    let found = FoundManifest::Resource(resource("Other/Thing", "1.0.0"), Some(Ok(None)));
    assert!(record_found_manifest(&filter, found, &mut scan).is_ok());
    assert_eq!(versions(&scan.resources, "Test/Echo"), vec!["1.0.0".to_string()]);
    assert_eq!(versions(&scan.resources, "test/echo"), vec!["2.0.0".to_string()]);
    assert_eq!(versions(&scan.adapters, "Test/Adapter"), vec!["1.0.0".to_string()]);
    assert!(versions(&scan.resources, "Other/Thing").is_empty());
    assert_eq!(scan.resources.len(), 2);
}

#[test]
fn scan_skips_unreadable_and_manifestless_files() {
    let filter = compile_filter("*").unwrap();
    let mut scan = ScanFound::new();
    assert!(record_found_manifest(&filter, FoundManifest::Unreadable, &mut scan).is_ok());
    let found = FoundManifest::Resource(resource("Test/Echo", "1.0.0"), None);
    assert!(record_found_manifest(&filter, found, &mut scan).is_ok());
    assert!(scan.resources.is_empty() && scan.adapters.is_empty() && scan.extensions.is_empty());
}

#[test]
fn scan_passes_on_a_manifest_import_error() {
    let filter = compile_filter("*").unwrap();
    let mut scan = ScanFound::new();
    let found = FoundManifest::Resource(resource("Test/Echo", "1.0.0"), Some(Err(DscError::Operation("bad".to_string()))));
    assert!(matches!(record_found_manifest(&filter, found, &mut scan), Err(DscError::Operation(_))));
    assert!(scan.resources.is_empty());
}

#[test]
fn scan_keeps_the_newest_extension() {
    let filter = compile_filter("*").unwrap();
    let mut scan = ScanFound::new();
    assert!(record_found_manifest(&filter, FoundManifest::Extension(extension("Ext/A", "1.0.0")), &mut scan).is_ok());
    assert!(record_found_manifest(&filter, FoundManifest::Extension(extension("Ext/A", "1.2.0")), &mut scan).is_ok());
    assert!(record_found_manifest(&filter, FoundManifest::Extension(extension("Ext/A", "1.1.0")), &mut scan).is_ok());
    assert_eq!(scan.extensions.len(), 1);
    assert_eq!(scan.extensions[0].1.version, "1.2.0");
    let bad = record_found_manifest(&filter, FoundManifest::Extension(extension("Ext/A", "one")), &mut scan);
    assert!(matches!(bad, Err(DscError::Operation(_))));
}

#[test]
fn discovered_and_listed_resources_pass_the_filters() {
    let filter = compile_filter("Test/?cho").unwrap();
    let mut resources = Vec::new();
    record_discovered_resource(&filter, &resource("Test/Echo", "1.0.0"), &mut resources);
    record_discovered_resource(&filter, &resource("Test/Echoes", "1.0.0"), &mut resources);
    record_discovered_resource(&filter, &resource("Test/Echo", "1.0.0"), &mut resources);
    assert_eq!(versions(&resources, "Test/Echo"), vec!["1.0.0".to_string()]);
    assert_eq!(resources.len(), 1);

    let mut adapted = Vec::new();
    let adapter = "Test/Adapter".to_string();
    let mut listed = resource("Test/Echo", "1.0.0");
    listed.require_adapter = Some(adapter.clone());
    assert_eq!(record_listed_resource(&filter, &adapter, &listed, &mut adapted).unwrap(), true);
    assert_eq!(record_listed_resource(&filter, &adapter, &listed, &mut adapted).unwrap(), true);
    assert_eq!(versions(&adapted, "Test/Echo").len(), 2);
    let orphan = resource("Test/Echo", "1.0.0");
    assert!(matches!(record_listed_resource(&filter, &adapter, &orphan, &mut adapted), Err(DscError::MissingRequires(_, _))));

}

#[test]
fn adapters_are_listed_when_the_filter_selects_them() {
    let none: Vec<(String, Vec<DscResource>)> = vec![];
    assert!(adapters_to_list("x*", &none).unwrap().is_empty());
    let adapters = vec![
        ("Other/Adapter".to_string(), vec![resource("Other/Adapter", "1.0.0")]),
        ("Test/Adapter".to_string(), vec![resource("Test/Adapter", "1.0.0")]),
        ("Test/Empty".to_string(), vec![]),
    ];
    assert_eq!(adapters_to_list("test/*", &adapters).unwrap(), vec!["Test/Adapter".to_string()]);
    assert!(matches!(adapters_to_list("Missing/*", &adapters), Err(DscError::AdapterNotFound(f)) if f == "Missing/*"));
    assert!(matches!(adapters_to_list("Test/Empty", &adapters), Err(DscError::AdapterNotFound(_))));
    assert!(matches!(adapters_to_list("(", &adapters), Err(DscError::Operation(_))));
}

#[test]
fn a_filter_that_does_not_compile_is_an_operation_error() {
    assert!(matches!(compile_filter("Test/("), Err(DscError::Operation(_))));
}
