use rtk_core::commands::diff_cmd::DiffModule;
use rtk_core::commands::CommandModule;
use rtk_core::Context;

fn make_context(command: &str, exit_code: i32) -> Context {
    Context {
        cwd: "/tmp".to_string(),
        exit_code,
        tool: "bash".to_string(),
        session_id: None,
        command: Some(command.to_string()),
    }
}

#[test]
fn test_diff_empty() {
    let module = DiffModule::new();
    let result = module
        .compress("", &make_context("diff file1.txt file2.txt", 0))
        .unwrap();
    assert_eq!(result, "(no differences)");
}

#[test]
fn test_diff_small_output() {
    let module = DiffModule::new();
    let input = "1c1\n< old line\n---\n> new line\n";
    let result = module
        .compress(input, &make_context("diff file1.txt file2.txt", 1))
        .unwrap();
    assert_eq!(result, input);
}

#[test]
fn test_diff_unified_format() {
    let module = DiffModule::new();
    let mut input = String::new();
    input.push_str("diff --git a/src/main.rs b/src/main.rs\n");
    input.push_str("index 1234567..abcdefg 100644\n");
    input.push_str("--- a/src/main.rs\n");
    input.push_str("+++ b/src/main.rs\n");
    input.push_str("@@ -1,5 +1,6 @@\n");
    for i in 0..25 {
        input.push_str(&format!("+line added {}\n", i));
    }
    for i in 0..10 {
        input.push_str(&format!("-line removed {}\n", i));
    }

    let result = module
        .compress(&input, &make_context("diff -u old new", 1))
        .unwrap();
    assert!(result.contains("1 file changed"));
    assert!(result.contains("25 insertions"));
    assert!(result.contains("10 deletions"));
}

#[test]
fn test_diff_multiple_files() {
    let module = DiffModule::new();
    let mut input = String::new();

    // File 1
    input.push_str("diff --git a/src/main.rs b/src/main.rs\n");
    input.push_str("--- a/src/main.rs\n");
    input.push_str("+++ b/src/main.rs\n");
    for i in 0..10 {
        input.push_str(&format!("+added {}\n", i));
    }

    // File 2
    input.push_str("diff --git a/src/lib.rs b/src/lib.rs\n");
    input.push_str("--- a/src/lib.rs\n");
    input.push_str("+++ b/src/lib.rs\n");
    for i in 0..15 {
        input.push_str(&format!("+added {}\n", i));
    }

    let result = module
        .compress(&input, &make_context("diff -u old new", 1))
        .unwrap();
    assert!(result.contains("2 files changed"));
}

#[test]
fn test_diff_error() {
    let module = DiffModule::new();
    let input = "diff: file1.txt: No such file or directory";
    let result = module
        .compress(input, &make_context("diff nonexistent file2.txt", 2))
        .unwrap();
    assert!(result.contains("No such file") || result.contains("error"));
}
