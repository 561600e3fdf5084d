use rtk_core::commands::read_cmd::ReadModule;
use rtk_core::commands::CommandModule;
use rtk_core::Context;

fn make_context(command: &str, exit_code: i32) -> Context {
    Context {
        cwd: "/tmp".to_string(),
        exit_code,
        tool: "bash".to_string(),
        session_id: None,
        command: Some(command.to_string()),
    }
}

#[test]
fn test_read_empty() {
    let module = ReadModule::new();
    let result = module
        .compress("", &make_context("read file.txt", 0))
        .unwrap();
    assert_eq!(result, "(empty file)");
}

#[test]
fn test_read_small_file() {
    let module = ReadModule::new();
    let input = "line 1\nline 2\nline 3\n";
    let result = module
        .compress(input, &make_context("read file.txt", 0))
        .unwrap();
    assert_eq!(result, input);
}

#[test]
fn test_read_large_file() {
    let module = ReadModule::new();
    let mut input = String::new();
    for i in 0..100 {
        input.push_str(&format!("line {}\n", i));
    }

    let result = module
        .compress(&input, &make_context("read file.txt", 0))
        .unwrap();
    assert!(result.contains("100 lines"));
    assert!(result.contains("(truncated)"));
}

#[test]
fn test_read_with_comments() {
    let module = ReadModule::new();
    let mut input = String::new();
    input.push_str("// This is a comment\n");
    input.push_str("// Another comment\n");
    for i in 0..30 {
        input.push_str(&format!("fn code_{}() {{ }}\n", i));
    }

    let result = module
        .compress(&input, &make_context("read file.rs", 0))
        .unwrap();
    assert!(result.contains("lines"));
    // Should have stripped comments
    assert!(!result.contains("// This is a comment"));
}

#[test]
fn test_read_python_file() {
    let module = ReadModule::new();
    let mut input = String::new();
    input.push_str("# Python comment\n");
    input.push_str("def foo():\n");
    input.push_str("    pass\n");
    for i in 0..25 {
        input.push_str(&format!("def func_{}():\n", i));
        input.push_str(&format!("    return {}\n", i));
    }

    let result = module
        .compress(&input, &make_context("read file.py", 0))
        .unwrap();
    assert!(result.contains("lines"));
}

#[test]
fn test_read_get_extension() {
    let module = ReadModule::new();

    let ctx = make_context("read src/main.rs", 0);
    assert_eq!(module.get_extension(&ctx), Some("rs".to_string()));

    let ctx = make_context("read ./lib/utils.ts", 0);
    assert_eq!(module.get_extension(&ctx), Some("ts".to_string()));

    let ctx = make_context("read README", 0);
    assert_eq!(module.get_extension(&ctx), None);
}

#[test]
fn test_read_inline_comments() {
    let module = ReadModule::new();
    let mut input = String::new();
    // Code with inline comments should not be stripped
    // (current implementation only strips lines that START with comment markers)
    input.push_str("fn main() { // entry point\n");
    input.push_str("    let x = 5; // variable\n");
    for i in 0..25 {
        input.push_str(&format!("fn func_{}() {{ }}\n", i));
    }

    let result = module
        .compress(&input, &make_context("read file.rs", 0))
        .unwrap();

    assert!(result.contains("lines"));
}

#[test]
fn test_read_multiline_block_comments() {
    let module = ReadModule::new();
    let mut input = String::new();
    input.push_str("/* This is a\n");
    input.push_str("   multi-line\n");
    input.push_str("   block comment */\n");
    for i in 0..25 {
        input.push_str(&format!("fn func_{}() {{ }}\n", i));
    }

    let result = module
        .compress(&input, &make_context("read file.rs", 0))
        .unwrap();

    assert!(result.contains("lines"));
    // Block comment content on separate lines should be stripped
    // (lines starting with * or whitespace + *)
}

#[test]
fn test_read_html_comments() {
    let module = ReadModule::new();
    let mut input = String::new();
    input.push_str("<!-- HTML comment -->\n");
    input.push_str("<div>content</div>\n");
    for i in 0..25 {
        input.push_str(&format!("<p>paragraph {}</p>\n", i));
    }

    let result = module
        .compress(&input, &make_context("read file.html", 0))
        .unwrap();

    assert!(result.contains("lines"));
}

#[test]
fn test_read_sql_comments() {
    let module = ReadModule::new();
    let mut input = String::new();
    input.push_str("-- SQL comment\n");
    input.push_str("SELECT * FROM users;\n");
    for i in 0..25 {
        input.push_str(&format!("SELECT * FROM table{};\n", i));
    }

    let result = module
        .compress(&input, &make_context("read file.sql", 0))
        .unwrap();

    assert!(result.contains("lines"));
}

#[test]
fn test_read_mixed_code_and_comments() {
    let module = ReadModule::new();
    let mut input = String::new();
    for i in 0..15 {
        input.push_str(&format!("// Comment for section {}\n", i));
        input.push_str(&format!("fn section_{}() {{ }}\n", i));
    }

    let result = module
        .compress(&input, &make_context("read file.rs", 0))
        .unwrap();

    assert!(result.contains("lines"));
    // Comment lines should be stripped
}
