use rtk_core::commands::pytest_cmd::PytestModule;
use rtk_core::commands::CommandModule;
use rtk_core::Context;

fn make_context(command: &str) -> Context {
    Context {
        cwd: "/tmp".to_string(),
        exit_code: 0,
        tool: "bash".to_string(),
        session_id: None,
        command: Some(command.to_string()),
    }
}

#[test]
fn test_pytest_all_passed() {
    let module = PytestModule::new();
    let input = r#"============================= test session starts ==============================
collected 5 items

test_one.py::test_one PASSED
test_two.py::test_two PASSED
test_three.py::test_three PASSED
test_four.py::test_four PASSED
test_five.py::test_five PASSED

============================== 5 passed in 0.12s ===============================
"#;
    let result = module.compress(input, &make_context("pytest")).unwrap();

    assert!(result.contains("5 passed"), "Result was: {}", result);
    assert!(!result.contains("failed"));
}

#[test]
fn test_pytest_with_failures() {
    let module = PytestModule::new();
    let input = r#"============================= test session starts ==============================
collected 3 items

test_one.py::test_one PASSED
test_two.py::test_two FAILED
test_three.py::test_three PASSED

=================================== FAILURES ====================================
_________________________________ test_two ____________________________________

def test_two():
>       assert 1 == 2
E       assert 1 == 2

test_two.py:4: AssertionError
=========================== short test summary info ============================
FAILED test_two.py::test_two - assert 1 == 2
========================= 1 failed, 2 passed in 0.05s ==========================
"#;
    let result = module.compress(input, &make_context("pytest")).unwrap();

    assert!(result.contains("2 passed"), "Result was: {}", result);
    assert!(result.contains("1 failed"));
    assert!(result.contains("Failures"));
}

#[test]
fn test_pytest_with_skips() {
    let module = PytestModule::new();
    let input = r#"collected 4 items

test_one.py::test_one PASSED
test_two.py::test_two SKIPPED (skip if no network)
test_three.py::test_three PASSED
test_four.py::test_four SKIPPED (skip if no network)

========================= 2 passed, 2 skipped in 0.05s =========================
"#;
    let result = module.compress(input, &make_context("pytest")).unwrap();

    assert!(result.contains("2 passed"), "Result was: {}", result);
    assert!(result.contains("2 skipped"));
    assert!(result.contains("Skip Reasons"));
    assert!(result.contains("skip if no network"));
}

#[test]
fn test_pytest_with_xfail() {
    let module = PytestModule::new();
    let input = r#"collected 3 items

test_one.py::test_one PASSED
test_two.py::test_two XFAILED (expected to fail)
test_three.py::test_three XPASS

===================== 1 passed, 1 xfailed, 1 xpassed ===========================
"#;
    let result = module.compress(input, &make_context("pytest")).unwrap();

    assert!(result.contains("1 passed"), "Result was: {}", result);
    assert!(result.contains("1 xfailed"));
    assert!(result.contains("1 xpassed"));
}

#[test]
fn test_pytest_with_errors() {
    let module = PytestModule::new();
    let input = r#"collected 2 items

test_one.py::test_one PASSED
test_two.py::test_two ERROR

==================================== ERRORS =====================================
____________________ ERROR at setup of test_two ________________________________

@pytest.fixture
def broken_fixture():
>       raise Exception("broken")
E       Exception: broken

test_two.py:10: Exception
========================= 1 passed, 1 error in 0.05s ===========================
"#;
    let result = module.compress(input, &make_context("pytest")).unwrap();

    assert!(result.contains("1 passed"), "Result was: {}", result);
    assert!(result.contains("1 error"), "Result was: {}", result);
}

#[test]
fn test_pytest_empty() {
    let module = PytestModule::new();
    let result = module.compress("", &make_context("pytest")).unwrap();

    assert_eq!(result, "(no output)");
}

#[test]
fn test_pytest_no_tests() {
    let module = PytestModule::new();
    let input = "collected 0 items\n\n====== no tests ran in 0.01s ======";
    let result = module.compress(input, &make_context("pytest")).unwrap();

    // Since it has "collected", it should be parsed as pytest output
    // but with no test results, it returns "(no tests)"
    assert_eq!(result, "(no tests)");
}

#[test]
fn test_pytest_non_pytest_output() {
    let module = PytestModule::new();
    let input = "Error: something went wrong\nFailed to run tests";
    let result = module.compress(input, &make_context("pytest")).unwrap();

    // Should fall back to error-only strategy
    assert!(result.contains("Error") || result.contains("Failed") || result == "(no errors)");
}

#[test]
fn test_pytest_many_failures_truncated() {
    let module = PytestModule::new();
    let mut input = String::from("collected 10 items\n\n");
    for i in 1..=10 {
        input.push_str(&format!("test_{}.py::test_{} FAILED\n", i, i));
    }
    input.push_str("\n=== FAILURES ===\n");
    for i in 1..=10 {
        input.push_str(&format!(
            "_________________ test_{} _________________\n\n",
            i
        ));
        input.push_str(&format!("    def test_{}():\n", i));
        input.push_str(&format!(">       assert {} == {}\n", i, i + 1));
        input.push_str(&format!("E       AssertionError\n\n"));
    }
    input.push_str("\n10 failed in 0.50s\n");

    let result = module.compress(&input, &make_context("pytest")).unwrap();

    assert!(result.contains("10 failed"), "Result was: {}", result);
    // Should truncate failures
    assert!(
        result.contains("and") && result.contains("more failures"),
        "Result was: {}",
        result
    );
}
