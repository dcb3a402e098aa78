use dsc_lib::discovery::powershell_discovery::{encoded_command, listed_resources};
use dsc_lib::dscresources::dscresource::ImplementedAs;
use dsc_lib::json::JsonValue;

fn s(x: &str) -> JsonValue {
    JsonValue::String(x.to_string())
}

fn obj(ms: Vec<(&str, JsonValue)>) -> JsonValue {
    JsonValue::Object(ms.into_iter().map(|(k, v)| (k.to_string(), v)).collect())
}

#[test]
fn scripts_are_encoded_as_utf16_in_base64() {
    assert_eq!(encoded_command("A"), "QQA=");
    assert_eq!(encoded_command("\u{e9}"), "6QA=");
    assert_eq!(encoded_command("\u{1F600}"), "PdgA3g==");
    assert_eq!(encoded_command("$r=1"), "JAByAD0AMQA=");
    assert_eq!(encoded_command(""), "");
}

#[test]
fn listed_items_become_resources() {
    let item = obj(vec![
        ("Name", s("File")),
        ("ResourceType", s("MSFT_File")),
        ("Path", s("/m/File.psm1")),
        ("ParentPath", s("/m")),
        ("CompanyName", s("Contoso")),
        ("Version", obj(vec![("Major", JsonValue::Number(1)), ("Minor", JsonValue::Number(2)), ("Revision", JsonValue::Number(-1)), ("Build", JsonValue::Number(3))])),
        ("Properties", JsonValue::Array(vec![obj(vec![("Name", s("Path"))]), obj(vec![("Name", s("Ensure"))]), obj(vec![])])),
    ]);
    let debug = obj(vec![("DebugInfo", obj(vec![("PSVersion", s("7.4"))]))]);
    let bare = obj(vec![("Name", s("Bare")), ("Properties", JsonValue::Array(vec![]))]);
    let found = listed_resources(&vec![item, debug, bare]);
    assert_eq!(found.len(), 2);
    assert_eq!(found[0].resource_type, "MSFT_File");
    assert_eq!(found[0].version, "1.2.3");
    assert_eq!(found[0].path, "/m/File.psm1");
    assert_eq!(found[0].directory, "/m");
    assert_eq!(found[0].author.as_deref(), Some("Contoso"));
    assert_eq!(found[0].properties, vec!["Path".to_string(), "Ensure".to_string(), String::new()]);
    assert!(matches!(found[0].implemented_as, ImplementedAs::Custom(ref n) if n == "PowerShell"));
    assert_eq!(found[1].resource_type, "");
    assert_eq!(found[1].version, "");
}
