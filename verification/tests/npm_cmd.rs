use rtk_core::commands::npm_cmd::NpmModule;
use rtk_core::commands::CommandModule;
use rtk_core::Context;

#[test]
fn test_npm_test_failures() {
    let module = NpmModule::new();
    let input = r#"Test 1 passed
Test 2 passed
Error: Test 3 failed
Test 4 passed
"#;
    let result = module
        .compress(
            input,
            &Context {
                cwd: "/tmp".to_string(),
                exit_code: 0,
                tool: "bash".to_string(),
                session_id: None,
                command: Some("npm test".to_string()),
            },
        )
        .unwrap();

    assert!(result.contains("Error: Test 3 failed"));
    assert!(!result.contains("Test 1 passed"));
}
