use rtk_core::commands::pip_cmd::PipModule;
use rtk_core::commands::CommandModule;
use rtk_core::Context;

fn make_context(command: &str, exit_code: i32) -> Context {
    Context {
        cwd: "/tmp".to_string(),
        exit_code,
        tool: "bash".to_string(),
        session_id: None,
        command: Some(command.to_string()),
    }
}

#[test]
fn test_pip_list() {
    let module = PipModule::new();
    let input = r#"Package          Version
---------------- -------
requests         2.31.0
urllib3          2.0.4
certifi          2023.7.22
"#;
    let result = module
        .compress(input, &make_context("pip list", 0))
        .unwrap();

    assert!(result.contains("3 packages"));
    assert!(result.contains("requests==2.31.0"));
    assert!(result.contains("urllib3==2.0.4"));
}

#[test]
fn test_pip_list_empty() {
    let module = PipModule::new();
    let result = module.compress("", &make_context("pip list", 0)).unwrap();

    assert_eq!(result, "(no packages)");
}

#[test]
fn test_pip_list_outdated() {
    let module = PipModule::new();
    let input = r#"Package      Version Latest Type
------------ ------- ------ -----
requests     2.28.0  2.31.0 wheel
urllib3      1.26.0  2.0.4  wheel
"#;
    let result = module
        .compress(input, &make_context("pip list --outdated", 0))
        .unwrap();

    assert!(result.contains("2 outdated"));
    assert!(result.contains("requests 2.28.0 -> 2.31.0"));
    assert!(result.contains("urllib3 1.26.0 -> 2.0.4"));
}

#[test]
fn test_pip_list_outdated_empty() {
    let module = PipModule::new();
    let input = "";
    let result = module
        .compress(input, &make_context("pip list --outdated", 0))
        .unwrap();

    assert_eq!(result, "(all packages up to date)");
}

#[test]
fn test_pip_install_success() {
    let module = PipModule::new();
    let input = r#"Collecting requests
  Using cached requests-2.31.0-py3-none-any.whl (62 kB)
Installing collected packages: requests
Successfully installed requests-2.31.0
"#;
    let result = module
        .compress(input, &make_context("pip install requests", 0))
        .unwrap();

    assert!(result.contains("Installed: requests-2.31.0"));
    assert!(!result.contains("Collecting"));
    assert!(!result.contains("Using cached"));
}

#[test]
fn test_pip_install_already_satisfied() {
    let module = PipModule::new();
    let input = r#"Requirement already satisfied: requests in /usr/lib/python3.11/site-packages (2.31.0)
Requirement already satisfied: charset-normalizer in /usr/lib/python3.11/site-packages (from requests)
"#;
    let result = module
        .compress(input, &make_context("pip install requests", 0))
        .unwrap();

    assert!(result.contains("Already satisfied"));
    assert!(result.contains("requests"));
}

#[test]
fn test_pip_install_error() {
    let module = PipModule::new();
    let input = r#"ERROR: Could not find a version that satisfies the requirement nonexistent-package
ERROR: No matching distribution found for nonexistent-package
"#;
    let result = module
        .compress(input, &make_context("pip install nonexistent-package", 1))
        .unwrap();

    assert!(result.contains("ERROR"));
}

#[test]
fn test_pip_uninstall_success() {
    let module = PipModule::new();
    let input = "Successfully uninstalled requests-2.31.0";
    let result = module
        .compress(input, &make_context("pip uninstall requests", 0))
        .unwrap();

    assert!(result.contains("Successfully uninstalled"));
}

#[test]
fn test_pip_uninstall_silent() {
    let module = PipModule::new();
    let result = module
        .compress("", &make_context("pip uninstall requests", 0))
        .unwrap();

    assert_eq!(result, "");
}

#[test]
fn test_pip_show() {
    let module = PipModule::new();
    let input = r#"Name: requests
Version: 2.31.0
Summary: Python HTTP for Humans.
Author: Kenneth Reitz
Author-email: me@kennethreitz.org
License: Apache 2.0
Location: /usr/lib/python3.11/site-packages
Requires: certifi, charset-normalizer, idna, urllib3
"#;
    let result = module
        .compress(input, &make_context("pip show requests", 0))
        .unwrap();

    assert!(result.contains("Name: requests"));
    assert!(result.contains("Version: 2.31.0"));
    assert!(result.contains("Summary:"));
}

#[test]
fn test_pip_show_not_found() {
    let module = PipModule::new();
    let result = module
        .compress("", &make_context("pip show nonexistent", 0))
        .unwrap();

    assert_eq!(result, "(package not found)");
}

#[test]
fn test_pip_freeze() {
    let module = PipModule::new();
    let input = r#"requests==2.31.0
urllib3==2.0.4
certifi==2023.7.22
"#;
    let result = module
        .compress(input, &make_context("pip freeze", 0))
        .unwrap();

    assert!(result.contains("3 packages frozen"));
    assert!(result.contains("requests==2.31.0"));
}

#[test]
fn test_pip_freeze_empty() {
    let module = PipModule::new();
    let result = module.compress("", &make_context("pip freeze", 0)).unwrap();

    assert_eq!(result, "(no packages)");
}

#[test]
fn test_pip_unknown_command() {
    let module = PipModule::new();
    let input = "some output";
    let result = module
        .compress(input, &make_context("pip unknown", 0))
        .unwrap();

    // Should fall back to grouping
    assert!(!result.is_empty());
}

#[test]
fn test_pip_list_many_packages() {
    let module = PipModule::new();
    let mut input = String::from("Package          Version\n---------------- -------\n");
    for i in 1..=30 {
        input.push_str(&format!("package{}       1.0.{}\n", i, i));
    }

    let result = module
        .compress(&input, &make_context("pip list", 0))
        .unwrap();

    assert!(result.contains("30 packages"));
    assert!(result.contains("and 10 more")); // 30 - 20 = 10
}
