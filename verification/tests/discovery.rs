use dsc_lib::discovery::command_discovery::{
    add_extension, add_listed_resource, add_resources_to_lookup_table, extension_from_manifest, is_manifest_file, resource_from_manifest,
    resource_search_paths, sort_adapters_based_on_lookup_table, validate_semver, ResourcePathSetting,
};
use dsc_lib::discovery::command_discovery_cache::DiscoveryCache;
use dsc_lib::discovery::discovery_trait::{DiscoveryFilter, DiscoveryKind};
use dsc_lib::discovery::powershell_discovery::{ps_version_text, PowerShellDiscovery};
use dsc_lib::discovery::{fix_semver, insert_resource, select_resource, Discovery, ResourceIterator};
use dsc_lib::dscerror::DscError;
use dsc_lib::dscresources::dscresource::{Capability, DscResource};
use dsc_lib::dscresources::resource_manifest::{DiscoverMethod, GetMethod, Kind, ResourceManifest, SetMethod};
use dsc_lib::extensions::dscextension::{Capability as ExtensionCapability, DscExtension, ExtensionManifest};
use dsc_lib::json::JsonValue;

fn resource(t: &str, version: &str) -> DscResource {
    let mut r = DscResource::new();
    r.resource_type = t.to_string();
    r.version = version.to_string();
    r
}

fn extension(t: &str, version: &str) -> DscExtension {
    let mut e = DscExtension::new();
    e.extension_type = t.to_string();
    e.version = version.to_string();
    e
}

fn manifest(version: &str) -> ResourceManifest {
    ResourceManifest {
        schema_version: "2024-04".to_string(),
        resource_type: "Test/Echo".to_string(),
        kind: None,
        version: version.to_string(),
        description: Some("echo".to_string()),
        get: Some(GetMethod { executable: "echo".to_string(), args: None, input: None }),
        set: Some(SetMethod {
            executable: "echo".to_string(),
            args: None,
            input: None,
            pre_test: None,
            handles_exist: Some(true),
            returns: None,
        }),
        what_if: None,
        test: None,
        delete: None,
        validate: None,
        export: None,
        resolve: None,
        adapter: None,
        exit_codes: None,
        schema: None,
    }
}

#[test]
fn fix_semver_makes_versions_exact() {
    assert_eq!(fix_semver("1.2.3"), "=1.2.3");
    assert_eq!(fix_semver("^1.2"), "^1.2");
    assert_eq!(fix_semver("not a version"), "not a version");
}

#[test]
fn select_picks_first_matching_version() {
    let versions = vec![resource("Test/Echo", "2.0.0"), resource("Test/Echo", "1.5.0"), resource("Test/Echo", "1.0.0")];
    assert_eq!(select_resource(&versions, None), Some(0));
    assert_eq!(select_resource(&versions, Some("1.5.0")), Some(1));
    assert_eq!(select_resource(&versions, Some("<2.0.0")), Some(1));
    assert_eq!(select_resource(&versions, Some("3.0.0")), None);
    assert_eq!(select_resource(&vec![], None), None);
}

#[test]
fn insert_keeps_newest_first() {
    let mut map: Vec<(String, Vec<DscResource>)> = Vec::new();
    insert_resource(&mut map, &resource("Test/Echo", "1.0.0"), true);
    insert_resource(&mut map, &resource("Test/Echo", "2.0.0"), true);
    insert_resource(&mut map, &resource("Test/Echo", "1.5.0"), true);
    insert_resource(&mut map, &resource("Test/Echo", "1.5.0"), true);
    insert_resource(&mut map, &resource("Test/Other", "1.0.0"), true);
    assert_eq!(map.len(), 2);
    let versions: Vec<&str> = map[0].1.iter().map(|r| r.version.as_str()).collect();
    assert_eq!(versions, vec!["2.0.0", "1.5.0", "1.0.0"]);
    insert_resource(&mut map, &resource("Test/Echo", "1.5.0"), false);
    assert_eq!(map[0].1.len(), 4);
}

#[test]
fn discovery_finds_by_lower_case_type_and_version() {
    let mut d = Discovery::new();
    d.add_found_resources(vec![("test/echo".to_string(), vec![resource("Test/Echo", "2.0.0"), resource("Test/Echo", "1.0.0")])]);
    assert_eq!(d.find_resource("Test/Echo", None).unwrap().version, "2.0.0");
    assert_eq!(d.find_resource("TEST/ECHO", Some("1.0.0")).unwrap().version, "1.0.0");
    assert!(d.find_resource("Test/Echo", Some("3.0.0")).is_none());
    assert!(d.find_resource("Test/Missing", None).is_none());
    d.add_found_resources(vec![("test/echo".to_string(), vec![resource("Test/Echo", "0.5.0")])]);
    assert_eq!(d.resources[0].1.len(), 3);
}

#[test]
fn discovery_extensions_by_capability() {
    let mut d = Discovery::new();
    let mut with = extension("Test/Discover", "1.0.0");
    with.capabilities = vec![ExtensionCapability::Discover];
    d.add_found_extensions(vec![("Test/Discover".to_string(), with), ("Test/Plain".to_string(), extension("Test/Plain", "1.0.0"))]);
    let found = d.get_extensions(ExtensionCapability::Discover);
    assert_eq!(found.len(), 1);
    assert_eq!(found[0].extension_type, "Test/Discover");
}

#[test]
fn resource_iterator_hands_out_in_order() {
    let mut it = ResourceIterator::new(vec![resource("A", "1.0.0"), resource("B", "1.0.0")]);
    assert_eq!(it.next().unwrap().resource_type, "A");
    assert_eq!(it.next().unwrap().resource_type, "B");
    assert!(it.next().is_none());
}

#[test]
fn filter_lowercases_and_makes_numeric_versions_exact() {
    let f = DiscoveryFilter::new("Test/Echo", Some("1.0.0".to_string()));
    assert_eq!(f.resource_type(), "test/echo");
    assert_eq!(f.version().unwrap(), "=1.0.0");
    let f = DiscoveryFilter::new("Test/Echo", Some("^1".to_string()));
    assert_eq!(f.version().unwrap(), "^1");
    assert!(DiscoveryFilter::new("x", None).version().is_none());
}

#[test]
fn manifest_file_names() {
    assert!(is_manifest_file(DiscoveryKind::Resource, "echo.dsc.resource.json"));
    assert!(is_manifest_file(DiscoveryKind::Resource, "echo.dsc.resource.yml"));
    assert!(!is_manifest_file(DiscoveryKind::Resource, "echo.dsc.extension.json"));
    assert!(is_manifest_file(DiscoveryKind::Extension, "x.dsc.extension.yaml"));
    assert!(!is_manifest_file(DiscoveryKind::Extension, "x.json"));
}

#[test]
fn search_paths_without_repeats() {
    let setting = ResourcePathSetting { allow_env_override: true, append_env_path: true, directories: vec!["/a".to_string(), "/b".to_string()] };
    let path = vec!["/b".to_string(), "/c".to_string()];
    let (paths, add_home) = resource_search_paths(&setting, None, Some(&path), Some(&"/home".to_string())).unwrap();
    assert_eq!(paths, vec!["/a", "/b", "/c", "/home"]);
    assert!(add_home);
    assert!(matches!(resource_search_paths(&setting, None, None, None), Err(DscError::Operation(_))));
    let override_dirs = vec!["/o".to_string()];
    let (paths, add_home) = resource_search_paths(&setting, Some(&override_dirs), Some(&path), Some(&"/home".to_string())).unwrap();
    assert_eq!(paths, vec!["/o"]);
    assert!(!add_home);
}

#[test]
fn semver_validation() {
    assert!(validate_semver("1.0.0").is_ok());
    assert!(validate_semver("1.0").is_err());
}

#[test]
fn resource_from_a_manifest() {
    let r = resource_from_manifest(&manifest("1.0.0"), "/r/echo.dsc.resource.json", "/r", JsonValue::Null).unwrap();
    assert_eq!(r.resource_type, "Test/Echo");
    assert_eq!(r.kind, Kind::Resource);
    assert_eq!(r.capabilities, vec![Capability::Get, Capability::SetState, Capability::SetHandlesExist]);
    assert_eq!(r.directory, "/r");
    assert!(matches!(resource_from_manifest(&manifest("x"), "/p", "/", JsonValue::Null), Err(DscError::Validation(_))));
}

#[test]
fn extension_from_a_manifest() {
    let m = ExtensionManifest {
        schema_version: "1".to_string(),
        extension_type: "Test/Ext".to_string(),
        version: "0.1.0".to_string(),
        description: None,
        tags: None,
        discover: Some(DiscoverMethod { executable: "x".to_string(), args: None }),
        import: None,
        secret: None,
        exit_codes: None,
    };
    let e = extension_from_manifest(&m, "/e/x.dsc.extension.json", "/e", JsonValue::Null).unwrap();
    assert_eq!(e.capabilities, vec![ExtensionCapability::Discover]);
    assert_eq!(e.path, "/e/x.dsc.extension.json");
}

#[test]
fn newest_extension_is_kept() {
    let mut exts: Vec<(String, DscExtension)> = Vec::new();
    add_extension(&mut exts, extension("Test/Ext", "1.0.0")).unwrap();
    add_extension(&mut exts, extension("Test/Ext", "2.0.0")).unwrap();
    add_extension(&mut exts, extension("Test/Ext", "1.5.0")).unwrap();
    assert_eq!(exts.len(), 1);
    assert_eq!(exts[0].1.version, "2.0.0");
    assert!(matches!(add_extension(&mut exts, extension("Test/Ext", "bad")), Err(DscError::Operation(_))));
}

#[test]
fn lookup_table_records_adapters() {
    let mut adapted = resource("Adapted/One", "1.0.0");
    adapted.require_adapter = Some("Test/Adapter".to_string());
    let entries = vec![("Adapted/One".to_string(), vec![adapted])];
    let mut table: Vec<(String, String)> = Vec::new();
    assert!(add_resources_to_lookup_table(&entries, &mut table));
    assert_eq!(table, vec![("adapted/one".to_string(), "Test/Adapter".to_string())]);
    assert!(!add_resources_to_lookup_table(&entries, &mut table));
}

#[test]
fn adapters_from_the_lookup_table_come_first() {
    let adapters = vec![
        ("A".to_string(), vec![resource("A", "1.0.0")]),
        ("B".to_string(), vec![resource("B", "1.0.0")]),
        ("C".to_string(), vec![resource("C", "1.0.0")]),
    ];
    let table = vec![("x".to_string(), "C".to_string()), ("y".to_string(), "Missing".to_string())];
    let needed = vec!["y".to_string(), "x".to_string(), "x".to_string()];
    let sorted = sort_adapters_based_on_lookup_table(&adapters, &needed, &table);
    let names: Vec<&str> = sorted.iter().map(|(n, _)| n.as_str()).collect();
    assert_eq!(names, vec!["C", "A", "B"]);
}

#[test]
fn an_adapter_named_again_moves_behind_the_others() {
    let adapters = vec![
        ("A".to_string(), vec![resource("A", "1.0.0")]),
        ("B".to_string(), vec![resource("B", "1.0.0")]),
        ("C".to_string(), vec![resource("C", "1.0.0")]),
    ];
    let table = vec![
        ("x".to_string(), "C".to_string()),
        ("y".to_string(), "A".to_string()),
        ("z".to_string(), "C".to_string()),
    ];
    let needed = vec!["x".to_string(), "y".to_string(), "z".to_string()];
    let sorted = sort_adapters_based_on_lookup_table(&adapters, &needed, &table);
    let names: Vec<&str> = sorted.iter().map(|(n, _)| n.as_str()).collect();
    assert_eq!(names, vec!["A", "C", "B"]);
    assert_eq!(sorted.get("C").unwrap()[0].resource_type, "C");
}

#[test]
fn cache_extends_and_reads_back() {
    let mut cache = DiscoveryCache::new();
    assert!(cache.resources_is_empty());
    cache.extend_resources(vec![("Test/Echo".to_string(), vec![resource("Test/Echo", "1.0.0")])]);
    assert!(!cache.resources_is_empty());
    assert_eq!(cache.get_resource(&"Test/Echo".to_string()).unwrap()[0].version, "1.0.0");
    assert!(cache.get_resource(&"Test/Other".to_string()).is_none());
    cache.extend_resources(vec![("Test/Echo".to_string(), vec![resource("Test/Echo", "2.0.0")])]);
    assert_eq!(cache.get_resource(&"Test/Echo".to_string()).unwrap()[0].version, "2.0.0");
    assert!(cache.adapters_is_empty());
    assert!(cache.extensions_is_empty());
}

#[test]
fn powershell_version_text() {
    assert_eq!(ps_version_text(1, 2, 3, 4), "1.2.3.4");
    assert_eq!(ps_version_text(1, 0, -1, -1), "1.0");
    assert_eq!(ps_version_text(-1, 2, -1, 0), ".2.0");
}

#[test]
fn powershell_discovery_lists_once_read() {
    let mut d = PowerShellDiscovery::new();
    assert!(d.discover().is_empty());
    assert!(!d.is_initialized());
    d.record_listing(vec![resource("PS/One", "1.0")]);
    assert!(d.is_initialized());
    assert_eq!(d.discover().len(), 1);
    d.record_listing(vec![resource("PS/Two", "1.0")]);
    assert_eq!(d.discover().len(), 1);
}

#[test]
fn listed_adapted_resources_need_their_adapter() {
    let mut adapted: Vec<(String, Vec<DscResource>)> = vec![];
    let adapter = "Test/Adapter".to_string();
    let bare = resource("Test/Bare", "1.0.0");
    assert!(matches!(add_listed_resource(&mut adapted, &adapter, &bare, true), Err(DscError::MissingRequires(a, t)) if a == "Test/Adapter" && t == "Test/Bare"));
    assert!(adapted.is_empty());
    let mut listed = resource("Test/Listed", "1.0.0");
    listed.require_adapter = Some("Test/Adapter".to_string());
    assert!(matches!(add_listed_resource(&mut adapted, &adapter, &listed, false), Ok(false)));
    assert!(adapted.is_empty());
    assert!(matches!(add_listed_resource(&mut adapted, &adapter, &listed, true), Ok(true)));
    assert!(matches!(add_listed_resource(&mut adapted, &adapter, &listed, true), Ok(true)));
    assert_eq!(adapted.len(), 1);
    assert_eq!(adapted[0].1.len(), 2);
}

#[test]
fn resource_types_are_kept_in_name_order() {
    let mut resources: Vec<(String, Vec<DscResource>)> = vec![];
    insert_resource(&mut resources, &resource("Test/B", "1.0.0"), true);
    insert_resource(&mut resources, &resource("Test/A", "1.0.0"), true);
    insert_resource(&mut resources, &resource("Test/C", "1.0.0"), true);
    insert_resource(&mut resources, &resource("Test/A", "2.0.0"), true);
    let names: Vec<&str> = resources.iter().map(|(n, _)| n.as_str()).collect();
    assert_eq!(names, vec!["Test/A", "Test/B", "Test/C"]);
    assert_eq!(resources[0].1[0].version, "2.0.0");
}

#[test]
fn cache_never_loses_a_found_type() {
    let mut cache = DiscoveryCache::new();
    cache.extend_resources(vec![("Test/Echo".to_string(), vec![resource("Test/Echo", "1.0.0")])]);
    cache.extend_resources(vec![]);
    cache.extend_resources(vec![("Test/Other".to_string(), vec![resource("Test/Other", "1.0.0")])]);
    assert!(!cache.resources_is_empty());
    assert!(cache.get_resource(&"Test/Echo".to_string()).is_some());
    assert!(cache.get_resource(&"Test/Other".to_string()).is_some());
    cache.extend_extensions(vec![]);
    assert!(cache.extensions_is_empty());
    cache.extend_extensions(vec![("Ext/A".to_string(), extension("Ext/A", "1.0.0"))]);
    assert!(!cache.extensions_is_empty());
}

#[test]
fn versions_stay_newest_first_with_prereleases() {
    let mut map = Vec::new();
    for v in ["1.0.0-alpha", "1.0.0", "1.0.0-beta", "0.9.0", "1.0.0-alpha.1"] {
        insert_resource(&mut map, &resource("Test/Echo", v), true);
    }
    let versions: Vec<&str> = map[0].1.iter().map(|r| r.version.as_str()).collect();
    assert_eq!(versions, vec!["1.0.0", "1.0.0-beta", "1.0.0-alpha.1", "1.0.0-alpha", "0.9.0"]);
}
