use rtk_core::filter::{GroupingByPattern, Strategy};

#[test]
fn grouping_test_empty() {
    let result = GroupingByPattern.compress("").unwrap();
    assert_eq!(result, "(empty)");
}

#[test]
fn test_grouping() {
    let input = r#"error at line 10: foo
error at line 20: bar
error at line 30: baz
error at line 10: foo
error at line 10: foo
"#;
    let result = GroupingByPattern.compress(input).unwrap();
    assert!(result.contains("(3 occurrences)"));
}

#[test]
fn test_utf8_multibyte_chars() {
    // Test with multi-byte UTF-8 characters (emoji, CJK, etc.)
    let input = "🦀 Rust 语言编程入门教程 - 第1章\n🦀 Rust 语言编程入门教程 - 第2章\n🦀 Rust 语言编程入门教程 - 第3章\n";
    let result = GroupingByPattern.compress(input).unwrap();
    // Should not panic and should group properly
    assert!(result.contains("🦀"));
    assert!(!result.is_empty());
}

#[test]
fn test_long_utf8_line() {
    // Test long line with multi-byte chars that exceeds 40 characters
    let input = "这是一段很长的中文测试文本，用于验证当字符数超过四十个字符时的处理逻辑是否正确\n这是另一段很长的中文测试文本，用于验证当字符数超过四十个字符时的处理逻辑是否正确\n";
    let result = GroupingByPattern.compress(input).unwrap();
    // Should handle without panic
    assert!(!result.is_empty());
}
