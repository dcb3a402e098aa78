use dsc_lib::discovery::wildcard::{convert_wildcard_to_regex, regex_matches_ci, wildcard_matches};
use dsc_lib::dscerror::DscError;

#[test]
fn wildcards_become_anchored_expressions() {
    assert_eq!(convert_wildcard_to_regex("Microsoft.DSC/*"), "^Microsoft\\.DSC/.*?$");
    assert_eq!(convert_wildcard_to_regex("a?c"), "^a.c$");
    assert_eq!(convert_wildcard_to_regex(""), "^$");
}

#[test]
fn wildcard_filters_ignore_case() {
    assert_eq!(wildcard_matches("microsoft.dsc/*", "Microsoft.DSC/PowerShell").unwrap(), true);
    assert_eq!(wildcard_matches("Test/?cho", "test/echo").unwrap(), true);
    assert_eq!(wildcard_matches("Test/Echo", "Test/EchoMore").unwrap(), false);
    assert_eq!(wildcard_matches("*", "anything").unwrap(), true);
    assert!(matches!(regex_matches_ci("(", "x"), Err(DscError::Operation(_))));
    assert!(matches!(wildcard_matches("(", "x"), Err(DscError::Operation(_))));
}
