use rtk_core::commands::golangci_cmd::GolangciModule;
use rtk_core::commands::CommandModule;
use rtk_core::Context;

fn make_context(command: &str, exit_code: i32) -> Context {
    Context {
        cwd: "/tmp".to_string(),
        exit_code,
        tool: "bash".to_string(),
        session_id: None,
        command: Some(command.to_string()),
    }
}

#[test]
fn test_empty_output() {
    let module = GolangciModule::new();
    let result = module
        .compress("", &make_context("golangci-lint run", 0))
        .unwrap();

    assert_eq!(result, "(no issues)");
}

#[test]
fn test_clean_output() {
    let module = GolangciModule::new();
    let input = "0 issues.";
    let result = module
        .compress(input, &make_context("golangci-lint run", 0))
        .unwrap();

    assert_eq!(result, "(no issues)");
}

#[test]
fn test_single_issue() {
    let module = GolangciModule::new();
    let input = r#"main.go:10:5: undeclared name: foo (typecheck)
"#;
    let result = module
        .compress(input, &make_context("golangci-lint run", 1))
        .unwrap();

    assert!(result.contains("1 issue(s)"));
    assert!(result.contains("typecheck"));
}

#[test]
fn test_multiple_issues_same_linter() {
    let module = GolangciModule::new();
    let input = r#"main.go:10:5: Error return value is not checked (errcheck)
main.go:20:3: Error return value is not checked (errcheck)
main.go:30:7: Error return value is not checked (errcheck)
"#;
    let result = module
        .compress(input, &make_context("golangci-lint run", 1))
        .unwrap();

    assert!(result.contains("3 issue(s)"));
    assert!(result.contains("errcheck: 3 issue(s)"));
}

#[test]
fn test_multiple_linters() {
    let module = GolangciModule::new();
    let input = r#"main.go:10:5: undeclared name: foo (typecheck)
main.go:20:3: ineffectual assignment to x (ineffassign)
main.go:30:7: printf: non-constant format string (govet)
utils.go:15:2: unused variable: temp (staticcheck)
"#;
    let result = module
        .compress(input, &make_context("golangci-lint run", 1))
        .unwrap();

    assert!(result.contains("4 issue(s)"));
    assert!(result.contains("By linter"));
}

#[test]
fn test_issues_by_file() {
    let module = GolangciModule::new();
    let input = r#"main.go:10:5: issue 1 (errcheck)
main.go:20:3: issue 2 (errcheck)
utils.go:15:2: issue 3 (errcheck)
utils.go:25:5: issue 4 (errcheck)
utils.go:35:10: issue 5 (errcheck)
"#;
    let result = module
        .compress(input, &make_context("golangci-lint run", 1))
        .unwrap();

    assert!(result.contains("By file"));
    assert!(result.contains("utils.go: 3 issue(s)"));
    assert!(result.contains("main.go: 2 issue(s)"));
}

#[test]
fn test_error_classification() {
    let module = GolangciModule::new();
    let input = r#"main.go:10:5: error: undeclared name: foo (typecheck)
main.go:20:3: warning: unused variable (staticcheck)
"#;
    let result = module
        .compress(input, &make_context("golangci-lint run", 1))
        .unwrap();

    assert!(result.contains("1 errors"));
    assert!(result.contains("1 warnings"));
}

#[test]
fn test_long_line_truncation() {
    let module = GolangciModule::new();
    let long_message = "a".repeat(150);
    let input = format!("main.go:10:5: {} (errcheck)", long_message);
    let result = module
        .compress(&input, &make_context("golangci-lint run", 1))
        .unwrap();

    // Should truncate long lines
    assert!(result.contains("..."));
}

#[test]
fn test_linters_command() {
    let module = GolangciModule::new();
    let input = r#"Enabled by your configuration linters:
errcheck: Errcheck is a program for checking for unchecked errors in go programs.
govet: Vet examines Go source code and reports suspicious constructs.
staticcheck: It's a set of rules from staticcheck.

Disabled by your configuration linters:
testpackage: An analyzer checks that you have tested package.
"#;
    let result = module
        .compress(input, &make_context("golangci-lint linters", 0))
        .unwrap();

    assert!(result.contains("linters"));
}

#[test]
fn test_many_issues() {
    let module = GolangciModule::new();
    let mut input = String::new();
    for i in 1..=50 {
        input.push_str(&format!("main.go:{}:5: issue {} (errcheck)\n", i * 10, i));
    }
    let result = module
        .compress(&input, &make_context("golangci-lint run", 1))
        .unwrap();

    assert!(result.contains("50 issue(s)"));
}

#[test]
fn test_no_linter_in_parens() {
    let module = GolangciModule::new();
    // Some output might not have linter in parentheses
    let input = r#"main.go:10:5: errcheck: Error return value is not checked
main.go:20:3: govet: possible misuse of unsafe.Pointer
"#;
    let result = module
        .compress(input, &make_context("golangci-lint run", 1))
        .unwrap();

    assert!(result.contains("2 issue(s)"));
}

#[test]
fn test_unknown_command_defaults_to_run() {
    let module = GolangciModule::new();
    let input = "main.go:10:5: issue (errcheck)";
    let result = module
        .compress(input, &make_context("golangci-lint", 1))
        .unwrap();

    assert!(result.contains("1 issue(s)"));
}

#[test]
fn test_utf8_at_truncation_boundary() {
    let module = GolangciModule::new();
    // Create a message that would truncate right in the middle of a UTF-8 character
    // The truncation happens at 97 chars + "..."
    // "é" is 2 bytes in UTF-8, "🚀" is 4 bytes
    let base = "main.go:10:5: ";
    let mut message = String::new();
    // Build message to be right around 100 chars with UTF-8 at boundary
    message.push_str(base);
    // Add ASCII to get close to boundary
    for _ in 0..80 {
        message.push('a');
    }
    // Add UTF-8 characters near the truncation point
    message.push_str("émoji🚀");
    message.push_str(" (errcheck)");

    let result = module
        .compress(&message, &make_context("golangci-lint run", 1))
        .unwrap();

    // Should not panic and should contain valid UTF-8
    assert!(result.contains("issue"));
    // Verify no malformed UTF-8 in output
    assert!(result.chars().all(|c| c != '\u{FFFD}'));
}

#[test]
fn test_unicode_in_linter_messages() {
    let module = GolangciModule::new();
    // Test various Unicode characters in messages
    let input = r#"main.go:10:5: Error: 中文测试 message (typecheck)
main.go:20:3: Warning: émoji 🚀 in code (govet)
main.go:30:7: Issue with 日本語 characters (staticcheck)
"#;
    let result = module
        .compress(input, &make_context("golangci-lint run", 1))
        .unwrap();

    assert!(result.contains("3 issue"));
    // Should handle Unicode without panicking
    assert!(!result.is_empty());
}

#[test]
fn test_truncation_preserves_valid_utf8() {
    let module = GolangciModule::new();
    // Message with multi-byte characters that would truncate mid-character
    let long_message = "main.go:10:5: ".to_string() + &"é".repeat(100) + " (errcheck)";
    let result = module
        .compress(&long_message, &make_context("golangci-lint run", 1))
        .unwrap();

    // Should contain truncation marker
    assert!(result.contains("..."));
    // Output should be valid UTF-8 (no replacement characters)
    assert!(result.chars().all(|c| c != '\u{FFFD}'));
}
