use rtk_core::filter::{ErrorOnly, Strategy};

#[test]
fn error_only_test_empty() {
    let result = ErrorOnly.compress("").unwrap();
    assert_eq!(result, "(empty)");
}

#[test]
fn test_no_errors() {
    let input = "All tests passed\nSuccess\nOK";
    let result = ErrorOnly.compress(input).unwrap();
    assert_eq!(result, "(no errors)");
}

#[test]
fn test_with_errors() {
    let input = r#"Test 1 passed
Test 2 passed
Error: Test 3 failed
Test 4 passed
FAILED: test_4
Test 5 passed
"#;
    let result = ErrorOnly.compress(input).unwrap();
    assert!(result.contains("Error: Test 3 failed"));
    assert!(result.contains("FAILED: test_4"));
    assert!(!result.contains("Test 1 passed"));
}

#[test]
fn test_false_positive_no_errors() {
    // Should NOT match "No errors found" or "0 errors"
    let input = "All tests passed\nNo errors found\n0 errors in codebase";
    let result = ErrorOnly.compress(input).unwrap();
    assert_eq!(result, "(no errors)");
}

#[test]
fn test_error_with_colon() {
    let input = "error: something went wrong\nerror] another error\npanic: runtime error";
    let result = ErrorOnly.compress(input).unwrap();
    assert!(result.contains("error: something went wrong"));
    assert!(result.contains("error] another error"));
    assert!(result.contains("panic: runtime error"));
}

#[test]
fn test_fatal_and_exception() {
    let input = "fatal: not a git repository\nException: NullPointerException";
    let result = ErrorOnly.compress(input).unwrap();
    assert!(result.contains("fatal: not a git repository"));
    assert!(result.contains("Exception: NullPointerException"));
}
