use rtk_core::commands::find_cmd::FindModule;
use rtk_core::commands::CommandModule;
use rtk_core::Context;

fn make_context(command: &str, exit_code: i32) -> Context {
    Context {
        cwd: "/tmp".to_string(),
        exit_code,
        tool: "bash".to_string(),
        session_id: None,
        command: Some(command.to_string()),
    }
}

#[test]
fn test_find_empty() {
    let module = FindModule::new();
    let result = module
        .compress("", &make_context("find . -name '*.xyz'", 0))
        .unwrap();
    assert_eq!(result, "(no files found)");
}

#[test]
fn test_find_small_output() {
    let module = FindModule::new();
    let input = "./src/main.rs\n./src/lib.rs\n./README.md";
    let result = module
        .compress(input, &make_context("find . -type f", 0))
        .unwrap();
    assert_eq!(result, input);
}

#[test]
fn test_find_many_files() {
    let module = FindModule::new();
    let mut input = String::new();
    for i in 0..50 {
        input.push_str(&format!("./src/file{}.rs\n", i));
    }
    for i in 0..20 {
        input.push_str(&format!("./lib/module{}.ts\n", i));
    }

    let result = module
        .compress(&input, &make_context("find . -type f", 0))
        .unwrap();
    assert!(result.contains("70 files found"));
    assert!(result.contains(".rs:"));
    assert!(result.contains(".ts:"));
}

#[test]
fn test_find_with_directories() {
    let module = FindModule::new();
    let mut input = String::new();
    // Files in multiple directories
    for i in 0..10 {
        input.push_str(&format!("./src/core/file{}.rs\n", i));
        input.push_str(&format!("./src/utils/file{}.rs\n", i));
        input.push_str(&format!("./tests/file{}.rs\n", i));
    }

    let result = module
        .compress(&input, &make_context("find . -name '*.rs'", 0))
        .unwrap();
    assert!(result.contains("30 files found"));
    assert!(result.contains("By directory"));
}

#[test]
fn test_find_no_extension() {
    let module = FindModule::new();
    let mut input = String::new();
    for i in 0..15 {
        input.push_str(&format!("./bin/script{}\n", i));
        input.push_str(&format!("./data/file{}.txt\n", i));
    }

    let result = module
        .compress(&input, &make_context("find . -type f", 0))
        .unwrap();
    assert!(result.contains("30 files found"));
    assert!(result.contains("(no ext)"));
    assert!(result.contains(".txt"));
}
