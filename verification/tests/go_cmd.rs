use rtk_core::commands::go_cmd::GoModule;
use rtk_core::commands::CommandModule;
use rtk_core::Context;

fn make_context(command: &str, exit_code: i32) -> Context {
    Context {
        cwd: "/tmp".to_string(),
        exit_code,
        tool: "bash".to_string(),
        session_id: None,
        command: Some(command.to_string()),
    }
}

#[test]
fn test_go_test_json_pass() {
    let module = GoModule::new();
    let input = r#"{"Time":"2024-01-01T00:00:00.000000Z","Action":"start","Package":"example.com/pkg"}
{"Time":"2024-01-01T00:00:00.100000Z","Action":"run","Test":"TestAdd","Package":"example.com/pkg"}
{"Time":"2024-01-01T00:00:00.200000Z","Action":"output","Test":"TestAdd","Package":"example.com/pkg","Output":"=== RUN   TestAdd\n"}
{"Time":"2024-01-01T00:00:00.300000Z","Action":"pass","Test":"TestAdd","Package":"example.com/pkg","Elapsed":0.1}
{"Time":"2024-01-01T00:00:00.400000Z","Action":"pass","Package":"example.com/pkg","Elapsed":0.2}
"#;
    let result = module.compress(input, &make_context("go test -json ./...", 0))
        .unwrap();

    assert!(result.contains("1 passed"));
    assert!(result.contains("0 failed"));
}

#[test]
fn test_go_test_json_fail() {
    let module = GoModule::new();
    let input = r#"{"Time":"2024-01-01T00:00:00.000000Z","Action":"start","Package":"example.com/pkg"}
{"Time":"2024-01-01T00:00:00.100000Z","Action":"run","Test":"TestFail","Package":"example.com/pkg"}
{"Time":"2024-01-01T00:00:00.200000Z","Action":"fail","Test":"TestFail","Package":"example.com/pkg","Elapsed":0.1}
{"Time":"2024-01-01T00:00:00.300000Z","Action":"fail","Package":"example.com/pkg","Elapsed":0.2}
"#;
    let result = module.compress(input, &make_context("go test -json", 1))
        .unwrap();

    assert!(result.contains("0 passed"));
    assert!(result.contains("1 failed"));
    assert!(result.contains("TestFail"));
}

#[test]
fn test_go_test_json_skip() {
    let module = GoModule::new();
    let input = r#"{"Time":"2024-01-01T00:00:00.000000Z","Action":"start","Package":"example.com/pkg"}
{"Time":"2024-01-01T00:00:00.100000Z","Action":"skip","Test":"TestSkip","Package":"example.com/pkg"}
{"Time":"2024-01-01T00:00:00.200000Z","Action":"pass","Package":"example.com/pkg","Elapsed":0.1}
"#;
    let result = module.compress(input, &make_context("go test -json", 0))
        .unwrap();

    assert!(result.contains("1 skipped"));
}

#[test]
fn test_go_test_text_pass() {
    let module = GoModule::new();
    let input = r#"=== RUN   TestAdd
--- PASS: TestAdd (0.00s)
=== RUN   TestSubtract
--- PASS: TestSubtract (0.00s)
PASS
ok      example.com/pkg 0.002s
"#;
    let result = module.compress(input, &make_context("go test ./...", 0))
        .unwrap();

    assert!(result.contains("2 passed"));
    assert!(result.contains("0 failed"));
    assert!(result.contains("1 passed") || result.contains("Packages:"));
}

#[test]
fn test_go_test_text_fail() {
    let module = GoModule::new();
    let input = r#"=== RUN   TestPass
--- PASS: TestPass (0.00s)
=== RUN   TestFail
--- FAIL: TestFail (0.00s)
test_test.go:10: unexpected error
FAIL
FAIL    example.com/pkg 0.002s
"#;
    let result = module.compress(input, &make_context("go test", 1)).unwrap();

    assert!(result.contains("1 passed"));
    assert!(result.contains("1 failed"));
    assert!(result.contains("TestFail"));
}

#[test]
fn test_go_build_success() {
    let module = GoModule::new();
    let result = module.compress("", &make_context("go build ./...", 0))
        .unwrap();

    assert_eq!(result, "(build succeeded)");
}

#[test]
fn test_go_build_errors() {
    let module = GoModule::new();
    let input = r#"main.go:10:5: undefined: foo
main.go:15:2: syntax error
warning: unused variable x
"#;
    let result = module.compress(input, &make_context("go build", 1))
        .unwrap();

    assert!(result.contains("2 error(s)"));
    assert!(result.contains("1 warning(s)"));
}

#[test]
fn test_go_build_warnings_only() {
    let module = GoModule::new();
    let input = r#"main.go:10:5: warning: unused variable x
main.go:20:3: warning: deprecated function
"#;
    let result = module.compress(input, &make_context("go build", 0))
        .unwrap();

    assert!(result.contains("2 warning(s)"));
    assert!(!result.contains("error"));
}

#[test]
fn test_go_vet_clean() {
    let module = GoModule::new();
    let result = module.compress("", &make_context("go vet ./...", 0))
        .unwrap();

    assert_eq!(result, "(no issues)");
}

#[test]
fn test_go_vet_issues() {
    let module = GoModule::new();
    let input = r#"main.go:10:5: unreachable code
main.go:20:3: printf: invalid format string
main.go:30:1: unused variable
"#;
    let result = module.compress(input, &make_context("go vet ./...", 1))
        .unwrap();

    assert!(result.contains("3 issue(s)"));
    assert!(result.contains("unreachable code"));
}

#[test]
fn test_go_version() {
    let module = GoModule::new();
    let input = "go version go1.21.0 linux/amd64";
    let result = module.compress(input, &make_context("go version", 0))
        .unwrap();

    assert!(result.contains("go1.21.0"));
}

#[test]
fn test_go_fmt_success() {
    let module = GoModule::new();
    let result = module.compress("", &make_context("go fmt ./...", 0))
        .unwrap();

    assert_eq!(result, "");
}

#[test]
fn test_go_fmt_files() {
    let module = GoModule::new();
    let input = "main.go\nutils.go\n";
    let result = module.compress(input, &make_context("go fmt ./...", 0))
        .unwrap();

    assert!(result.contains("2 file(s) formatted"));
}

#[test]
fn test_go_mod_success() {
    let module = GoModule::new();
    let result = module.compress("", &make_context("go mod tidy", 0))
        .unwrap();

    assert_eq!(result, "(success)");
}

#[test]
fn test_go_run_success() {
    let module = GoModule::new();
    let input = "Hello, World!\n";
    let result = module.compress(input, &make_context("go run main.go", 0))
        .unwrap();

    assert!(result.contains("Hello, World!"));
}

#[test]
fn test_go_run_error() {
    let module = GoModule::new();
    let input = "panic: something went wrong\n\ngoroutine 1 [running]:\nmain.main()\n\tmain.go:10 +0x20";
    let result = module.compress(input, &make_context("go run main.go", 1))
        .unwrap();

    assert!(result.contains("panic") || result.contains("error"));
}

#[test]
fn test_unknown_go_command() {
    let module = GoModule::new();
    let input = "some output\nerror: something failed";
    let result = module.compress(input, &make_context("go unknown", 1))
        .unwrap();

    // Should fall back to error-only
    assert!(result.contains("error"));
}

#[test]
fn test_go_test_json_multiple_packages() {
    let module = GoModule::new();
    let input = r#"{"Time":"2024-01-01T00:00:00.000000Z","Action":"start","Package":"pkg1"}
{"Time":"2024-01-01T00:00:00.100000Z","Action":"pass","Test":"Test1","Package":"pkg1"}
{"Time":"2024-01-01T00:00:00.200000Z","Action":"pass","Package":"pkg1"}
{"Time":"2024-01-01T00:00:00.300000Z","Action":"start","Package":"pkg2"}
{"Time":"2024-01-01T00:00:00.400000Z","Action":"fail","Test":"Test2","Package":"pkg2"}
{"Time":"2024-01-01T00:00:00.500000Z","Action":"fail","Package":"pkg2"}
"#;
    let result = module.compress(input, &make_context("go test -json ./...", 1))
        .unwrap();

    assert!(result.contains("1 passed") || result.contains("Packages:"));
    assert!(result.contains("1 failed"));
}

#[test]
fn test_go_test_empty_output() {
    let module = GoModule::new();
    let result = module.compress("", &make_context("go test", 0)).unwrap();

    assert_eq!(result, "(no test output)");
}

#[test]
fn test_go_test_json_malformed_lines() {
    let module = GoModule::new();
    // NDJSON with some malformed lines
    let input = r#"{"Time":"2024-01-01T00:00:00.000000Z","Action":"start","Package":"example.com/pkg"}
this is not valid json
{"Time":"2024-01-01T00:00:00.100000Z","Action":"pass","Test":"TestAdd","Package":"example.com/pkg"}
{broken json here
{"Time":"2024-01-01T00:00:00.200000Z","Action":"pass","Package":"example.com/pkg"}
"#;
    let result = module.compress(input, &make_context("go test -json", 0))
        .unwrap();

    // Should skip malformed lines and parse valid ones
    assert!(result.contains("1 passed"));
}

#[test]
fn test_go_test_json_unicode_test_names() {
    let module = GoModule::new();
    // Test with Unicode in test names
    let input = r#"{"Time":"2024-01-01T00:00:00.000000Z","Action":"start","Package":"example.com/pkg"}
{"Time":"2024-01-01T00:00:00.100000Z","Action":"pass","Test":"Test日本語","Package":"example.com/pkg"}
{"Time":"2024-01-01T00:00:00.200000Z","Action":"fail","Test":"TestÉmoji🚀","Package":"example.com/pkg"}
{"Time":"2024-01-01T00:00:00.300000Z","Action":"pass","Package":"example.com/pkg"}
"#;
    let result = module.compress(input, &make_context("go test -json", 1))
        .unwrap();

    assert!(result.contains("1 passed"));
    assert!(result.contains("1 failed"));
    // Unicode test name should appear in failed tests
    assert!(result.contains("TestÉmoji"));
}

#[test]
fn test_go_test_json_empty_lines() {
    let module = GoModule::new();
    // NDJSON with empty lines between
    let input = r#"{"Time":"2024-01-01T00:00:00.000000Z","Action":"start","Package":"pkg"}

{"Time":"2024-01-01T00:00:00.100000Z","Action":"pass","Test":"Test1","Package":"pkg"}

{"Time":"2024-01-01T00:00:00.200000Z","Action":"pass","Package":"pkg"}
"#;
    let result = module.compress(input, &make_context("go test -json", 0))
        .unwrap();

    // Should handle empty lines gracefully
    assert!(result.contains("1 passed"));
}

#[test]
fn test_go_build_unicode_errors() {
    let module = GoModule::new();
    // Build errors with Unicode
    let input = r#"main.go:10:5: undefined: café
main.go:20:3: 语法错误: invalid syntax
"#;
    let result = module.compress(input, &make_context("go build", 1))
        .unwrap();

    // Should handle Unicode in error messages
    assert!(result.contains("2 error"));
}

#[test]
fn test_go_test_text_unicode() {
    let module = GoModule::new();
    // Text output with Unicode test names
    let input = r#"=== RUN   Test日本語
--- PASS: Test日本語 (0.00s)
=== RUN   TestÉmoji🚀
--- FAIL: TestÉmoji🚀 (0.00s)
FAIL
"#;
    let result = module.compress(input, &make_context("go test", 1)).unwrap();

    assert!(result.contains("1 passed"));
    assert!(result.contains("1 failed"));
    assert!(result.contains("TestÉmoji"));
}
