use dsc_lib::dscerror::DscError;
use dsc_lib::configure::context::{get_default_os_system_root, Context};

#[test]
fn error_messages() {
    assert_eq!(DscError::Validation("bad".to_string()).message(), "Validation: bad");
    assert_eq!(DscError::Parser("p".to_string()).message(), "Parser: p");
    assert_eq!(
        DscError::CommandExit("exe".to_string(), 2, "why".to_string()).message(),
        "Command: Executable 'exe' [exit code 2] why"
    );
    assert_eq!(
        DscError::Command("Test/Echo".to_string(), -1, "why".to_string()).message(),
        "Command: Resource 'Test/Echo' [exit code -1] why"
    );
    assert_eq!(
        DscError::InvalidFunctionParameterCount("f".to_string(), 1, 2).message(),
        "Invalid function parameter count for 'f', expected 1, got 2"
    );
    assert_eq!(DscError::Unknown { code: 5, message: "m".to_string() }.message(), "Unknown: 5 m");
    assert_eq!(DscError::NotImplemented("x".to_string()).message(), "Not implemented: x");
}

#[test]
fn new_context() {
    let c = Context::new();
    assert!(c.parameters.is_empty());
    assert!(c.process_expressions);
    assert_eq!(c.system_root, get_default_os_system_root());
    assert_eq!(get_default_os_system_root(), "/");
}
