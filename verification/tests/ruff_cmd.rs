use rtk_core::commands::ruff_cmd::RuffModule;
use rtk_core::commands::CommandModule;
use rtk_core::Context;

fn make_context(command: &str) -> Context {
    Context {
        cwd: "/tmp".to_string(),
        exit_code: 0,
        tool: "bash".to_string(),
        session_id: None,
        command: Some(command.to_string()),
    }
}

#[test]
fn test_ruff_json_output() {
    let module = RuffModule::new();
    let input = r#"[
        {"code": "E501", "message": "line too long", "location": {"row": 10}},
        {"code": "E501", "message": "line too long", "location": {"row": 20}},
        {"code": "F401", "message": "unused import", "location": {"row": 5}}
    ]"#;
    let result = module.compress(input, &make_context("ruff check --output-format=json"))
        .unwrap();

    assert!(result.contains("3 issues"));
    assert!(result.contains("E501: 2"));
    assert!(result.contains("F401: 1"));
}

#[test]
fn test_ruff_json_with_fixable() {
    let module = RuffModule::new();
    let input = r#"[
        {"code": "F401", "message": "unused import", "fix": {"message": "Remove import"}}
    ]"#;
    let result = module.compress(input, &make_context("ruff check -o json"))
        .unwrap();

    assert!(result.contains("1 issue"));
    assert!(result.contains("1 fixable"));
}

#[test]
fn test_ruff_json_empty() {
    let module = RuffModule::new();
    let result = module.compress("[]", &make_context("ruff check --output-format=json"))
        .unwrap();

    assert_eq!(result, "(no issues)");
}

#[test]
fn test_ruff_text_output() {
    let module = RuffModule::new();
    let input = r#"src/main.py:10:5: E501 line too long
src/main.py:20:10: E501 line too long
src/utils.py:5:1: F401 unused import os
"#;
    let result = module.compress(input, &make_context("ruff check src/"))
        .unwrap();

    // Should use grouping strategy
    assert!(!result.is_empty());
}

#[test]
fn test_ruff_text_all_passed() {
    let module = RuffModule::new();
    let result = module.compress("All checks passed!", &make_context("ruff check"))
        .unwrap();

    assert_eq!(result, "(no issues)");
}

#[test]
fn test_ruff_empty_output() {
    let module = RuffModule::new();
    let result = module.compress("", &make_context("ruff check")).unwrap();

    assert_eq!(result, "(no output)");
}

#[test]
fn test_ruff_format_command() {
    let module = RuffModule::new();
    let input = "src/main.py\nsrc/utils.py\n";
    let result = module.compress(input, &make_context("ruff format --check"))
        .unwrap();

    // Should use grouping for text output
    assert!(!result.is_empty());
}

#[test]
fn test_ruff_json_detection_from_output() {
    let module = RuffModule::new();
    let input = r#"[
        {"code": "E501", "message": "line too long"}
    ]"#;
    // Even without JSON flag in command, should detect from output
    let result = module.compress(input, &make_context("ruff check")).unwrap();

    assert!(result.contains("1 issue"));
}

#[test]
fn test_ruff_malformed_json() {
    let module = RuffModule::new();
    // Malformed JSON - missing closing bracket
    let input = r#"[
        {"code": "E501", "message": "line too long"},
        {"code": "F401", "message": "unused import"
    ]"#;
    let result = module.compress(input, &make_context("ruff check --output-format=json"))
        .unwrap();

    // Should fall back to grouping strategy for malformed JSON
    assert!(!result.is_empty());
}

#[test]
fn test_ruff_partial_json() {
    let module = RuffModule::new();
    // Partial JSON - truncated output
    let input = r#"[
        {"code": "E501", "message": "line too long"},
        {"code"#;
    let result = module.compress(input, &make_context("ruff check -o json"))
        .unwrap();

    // Should fall back gracefully
    assert!(!result.is_empty());
}

#[test]
fn test_ruff_json_with_missing_fields() {
    let module = RuffModule::new();
    // JSON with missing optional fields
    let input = r#"[
        {"code": "E501"},
        {"message": "some issue"},
        {}
    ]"#;
    let result = module.compress(input, &make_context("ruff check --output-format=json"))
        .unwrap();

    // Should handle missing fields gracefully
    assert!(result.contains("3 issue"));
}

#[test]
fn test_ruff_json_with_unicode() {
    let module = RuffModule::new();
    // JSON with Unicode characters
    let input = r#"[
        {"code": "E501", "message": "line too long — exceeds limit 😊"},
        {"code": "F401", "message": "unused import 中文测试"}
    ]"#;
    let result = module.compress(input, &make_context("ruff check --output-format=json"))
        .unwrap();

    assert!(result.contains("2 issue"));
}

#[test]
fn test_ruff_json_false_positive_brackets() {
    let module = RuffModule::new();
    // Text that starts with [ but isn't JSON
    let input = "[INFO] Running ruff check\n[WARNING] Found issues";
    let result = module.compress(input, &make_context("ruff check")).unwrap();

    // Should not try to parse as JSON
    assert!(!result.contains("issue") || result.contains("INFO") || result.contains("WARNING"));
}

#[test]
fn ruff_bracketed_text_is_not_json() {
    let module = RuffModule::new();
    let info = module.compress("[INFO] All checks passed]", &make_context("ruff check")).unwrap();
    assert_eq!(info, "(no issues)");
    let placeholder =
        module.compress("{placeholder} no issues found}", &make_context("ruff check")).unwrap();
    assert_eq!(placeholder, "(no issues)");
}

#[test]
fn ruff_json_with_fix_and_location() {
    let module = RuffModule::new();
    let input = r#"[{"code":"F401","message":"unused","location":{"row":1,"column":2},"fix":{"message":"remove"}},{"code":"F401","fix":null},{"code":"E501","location":null}]"#;
    let result = module.compress(input, &make_context("ruff check --output-format=json")).unwrap();
    assert!(result.starts_with("3 issues"));
    assert!(result.contains("F401: 2"));
    assert!(result.contains("E501: 1"));
    assert!(result.ends_with("1 fixable"));
}

#[test]
fn ruff_json_with_a_bad_field_falls_back_to_grouping() {
    let module = RuffModule::new();
    let input = r#"[{"code":5}]"#;
    let result = module.compress(input, &make_context("ruff check --output-format=json")).unwrap();
    assert!(!result.contains("issues"));
}
