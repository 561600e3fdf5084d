use rtk_core::commands::cargo_cmd::CargoModule;
use rtk_core::commands::CommandModule;
use rtk_core::Context;

#[test]
fn test_cargo_build_errors() {
    let module = CargoModule::new();
    let input = r#"Compiling v0.1.0
error: could not compile
warning: unused variable
"#;
    let result = module
        .compress(
            input,
            &Context {
                cwd: "/tmp".to_string(),
                exit_code: 0,
                tool: "bash".to_string(),
                session_id: None,
                command: Some("cargo build".to_string()),
            },
        )
        .unwrap();

    assert!(result.contains("error: could not compile"));
}
