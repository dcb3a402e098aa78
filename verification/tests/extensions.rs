use dsc_lib::dscerror::DscError;
use dsc_lib::dscresources::resource_manifest::DiscoverMethod;
use dsc_lib::extensions::dscextension::{
    import_args_for_path, process_import_args, process_secret_args, secret_from_output, Capability, DscExtension, ExtensionManifest,
    ImportArgKind, ImportMethod, SecretArgKind,
};

fn ext() -> DscExtension {
    let mut e = DscExtension::new();
    e.extension_type = "Test/Ext".to_string();
    e.capabilities = vec![Capability::Import];
    e.import_file_extensions = Some(vec!["bicep".to_string()]);
    e
}

#[test]
fn capability_names() {
    assert_eq!(Capability::Discover.name(), "Discover");
    assert_eq!(Capability::Secret.name(), "Secret");
    assert_eq!(Capability::Import.name(), "Import");
}

#[test]
fn capabilities_are_required() {
    let e = ext();
    assert!(e.has_capability(Capability::Import));
    assert!(e.require_capability(Capability::Import).is_ok());
    match e.require_capability(Capability::Secret) {
        Err(DscError::UnsupportedCapability(n, c)) => {
            assert_eq!(n, "Test/Ext");
            assert_eq!(c, "Secret");
        },
        other => panic!("{other:?}"),
    }
    let err = e.require_capability(Capability::Discover).unwrap_err();
    assert_eq!(err.message(), "Extension 'Test/Ext' does not support capability Discover");
}

#[test]
fn imported_file_extensions() {
    let e = ext();
    assert!(e.imports_file_extension(&"bicep".to_string()));
    assert!(!e.imports_file_extension(&"json".to_string()));
    let mut plain = ext();
    plain.capabilities = vec![];
    assert!(!plain.imports_file_extension(&"bicep".to_string()));
}

#[test]
fn secret_args() {
    let args = vec![
        SecretArgKind::String("get".to_string()),
        SecretArgKind::Name { name_arg: "--name".to_string() },
        SecretArgKind::Vault { vault_arg: "--vault".to_string() },
    ];
    assert_eq!(process_secret_args(Some(&args), "s", Some("v")).unwrap(), vec!["get", "--name", "s", "--vault", "v"]);
    assert_eq!(process_secret_args(Some(&args), "s", None).unwrap(), vec!["get", "--name", "s"]);
    assert!(process_secret_args(None, "s", None).is_none());
}

#[test]
fn import_args() {
    let args = vec![ImportArgKind::String("import".to_string()), ImportArgKind::File { file_arg: "--file".to_string() }];
    assert_eq!(import_args_for_path(&args, &"/a/b.bicep".to_string()), vec!["import", "--file", "/a/b.bicep"]);
    let bare = vec![ImportArgKind::File { file_arg: String::new() }];
    assert_eq!(import_args_for_path(&bare, &"/a/b.bicep".to_string()), vec!["/a/b.bicep"]);
    let r = process_import_args(Some(&args), "/abs/file.bicep", "/work").unwrap().unwrap();
    assert_eq!(r, vec!["import", "--file", "/abs/file.bicep"]);
    assert!(process_import_args(None, "x", "/work").unwrap().is_none());
}

#[test]
fn import_args_take_the_path_from_the_working_directory() {
    let args = vec![ImportArgKind::File { file_arg: "--file".to_string() }];
    let r = process_import_args(Some(&args), "dir/../file.bicep", "/work").unwrap().unwrap();
    assert_eq!(r, vec!["--file", "/work/file.bicep"]);
    let r = process_import_args(Some(&args), "./file.bicep", "/work/sub").unwrap().unwrap();
    assert_eq!(r, vec!["--file", "/work/sub/file.bicep"]);
}

#[test]
fn secret_output() {
    let e = "Test/Ext".to_string();
    assert_eq!(secret_from_output(&e, &"hunter2\n".to_string()).unwrap(), Some("hunter2".to_string()));
    assert_eq!(secret_from_output(&e, &String::new()).unwrap(), None);
    assert!(matches!(secret_from_output(&e, &"a\nb\n".to_string()), Err(DscError::NotSupported(_))));
}

fn manifest_with_import(import: Option<ImportMethod>) -> ExtensionManifest {
    ExtensionManifest {
        schema_version: "2024/04".to_string(),
        extension_type: "Test/Ext".to_string(),
        version: "1.0.0".to_string(),
        description: None,
        tags: None,
        discover: None,
        import,
        secret: None,
        exit_codes: None,
    }
}

#[test]
fn import_of_an_unlisted_file_extension_is_not_supported() {
    let e = ext();
    let m = manifest_with_import(None);
    assert!(matches!(e.import_command("a.json", "/work", &"json".to_string(), Ok(m)), Err(DscError::NotSupported(_))));
    let mut plain = ext();
    plain.capabilities = vec![];
    let m = manifest_with_import(None);
    assert!(matches!(plain.import_command("a.bicep", "/work", &"bicep".to_string(), Ok(m)), Err(DscError::UnsupportedCapability(_, c)) if c == "Import"));
}

#[test]
fn import_command_comes_from_the_manifest() {
    let e = ext();
    let method = ImportMethod {
        file_extensions: vec!["bicep".to_string()],
        executable: "bicep".to_string(),
        args: Some(vec![ImportArgKind::String("build".to_string()), ImportArgKind::File { file_arg: "--file".to_string() }]),
    };
    let cmd = e.import_command("a.bicep", "/work", &"bicep".to_string(), Ok(manifest_with_import(Some(method)))).unwrap();
    assert_eq!(cmd.executable, "bicep");
    let args = cmd.args.unwrap();
    assert_eq!(args.len(), 3);
    assert_eq!(args[0], "build");
    assert_eq!(args[1], "--file");
    assert_eq!(args[2], "/work/a.bicep");
    let no_method = e.import_command("a.bicep", "/work", &"bicep".to_string(), Ok(manifest_with_import(None)));
    assert!(matches!(no_method, Err(DscError::UnsupportedCapability(_, _))));
    let bad = e.import_command("a.bicep", "/work", &"bicep".to_string(), Err(DscError::Operation("bad manifest".to_string())));
    assert!(matches!(bad, Err(DscError::Operation(_))));
}

#[test]
fn import_output_must_not_be_empty() {
    let e = ext();
    assert_eq!(e.import_output("{}".to_string()).unwrap(), "{}");
    assert!(matches!(e.import_output(String::new()), Err(DscError::UnsupportedCapability(_, _))));
}

#[test]
fn discover_command_comes_from_the_manifest() {
    let mut e = ext();
    e.capabilities = vec![Capability::Discover];
    let mut m = manifest_with_import(None);
    m.discover = Some(DiscoverMethod { executable: "disc".to_string(), args: Some(vec!["list".to_string()]) });
    let cmd = e.discover_command(Ok(m)).unwrap();
    assert_eq!(cmd.executable, "disc");
    assert_eq!(cmd.args, Some(vec!["list".to_string()]));
    let none = e.discover_command(Ok(manifest_with_import(None)));
    assert!(matches!(none, Err(DscError::UnsupportedCapability(_, c)) if c == "Discover"));
    let plain = ext();
    assert!(matches!(plain.discover_command(Ok(manifest_with_import(None))), Err(DscError::UnsupportedCapability(_, _))));
}

#[test]
fn discovered_manifest_paths_must_be_absolute() {
    let e = ext();
    assert_eq!(e.discovered_manifest_path(Some("/x/r.dsc.resource.json".to_string())).unwrap(), "/x/r.dsc.resource.json");
    assert!(matches!(e.discovered_manifest_path(Some("x/r.json".to_string())), Err(DscError::Extension(_))));
    assert!(matches!(e.discovered_manifest_path(None), Err(DscError::Json(_))));
}
