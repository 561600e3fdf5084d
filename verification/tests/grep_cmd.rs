use rtk_core::commands::grep_cmd::GrepModule;
use rtk_core::commands::CommandModule;
use rtk_core::Context;

fn make_context(command: &str, exit_code: i32) -> Context {
    Context {
        cwd: "/tmp".to_string(),
        exit_code,
        tool: "bash".to_string(),
        session_id: None,
        command: Some(command.to_string()),
    }
}

#[test]
fn test_grep_empty() {
    let module = GrepModule::new();
    let result = module
        .compress("", &make_context("grep pattern *.rs", 1))
        .unwrap();
    assert_eq!(result, "(no matches)");
}

#[test]
fn test_grep_small_output() {
    let module = GrepModule::new();
    let input = "src/main.rs:fn main() {\nsrc/lib.rs:pub fn test() {";
    let result = module
        .compress(input, &make_context("grep fn *.rs", 0))
        .unwrap();
    assert_eq!(result, input);
}

#[test]
fn test_grep_many_matches() {
    let module = GrepModule::new();
    let mut input = String::new();
    for i in 0..20 {
        input.push_str(&format!("src/file{}.rs:{}:some match content\n", i % 3, i));
    }
    let result = module
        .compress(&input, &make_context("grep pattern *.rs", 0))
        .unwrap();
    assert!(result.contains("20 matches"));
    assert!(result.contains("3 files"));
}

#[test]
fn test_grep_single_file_many_matches() {
    let module = GrepModule::new();
    let mut input = String::new();
    for i in 0..15 {
        input.push_str(&format!("main.rs:{}:match found\n", i));
    }
    let result = module
        .compress(&input, &make_context("grep pattern main.rs", 0))
        .unwrap();
    assert!(result.contains("15 matches"));
    assert!(result.contains("1 file"));
}

#[test]
fn test_grep_with_line_numbers() {
    let module = GrepModule::new();
    let mut input = String::new();
    for i in 0..12 {
        input.push_str(&format!("file.rs:{}:some content\n", i + 1));
    }
    let result = module
        .compress(&input, &make_context("grep -n pattern file.rs", 0))
        .unwrap();
    assert!(result.contains("12 matches"));
}

#[test]
fn test_grep_filenames_with_colons() {
    let module = GrepModule::new();
    // Test filenames that contain colons (e.g., Windows paths, URLs in output)
    let mut input = String::new();
    input.push_str("C:\\Users\\test\\file.txt:10:match content\n");
    input.push_str("C:\\Users\\test\\file.txt:20:another match\n");
    input.push_str("http://example.com/api:5:url match\n");
    input.push_str("file:name.txt:15:match with colon in filename\n");

    for i in 0..15 {
        input.push_str(&format!("normal_file.rs:{}:match\n", i));
    }

    let result = module
        .compress(&input, &make_context("grep pattern *", 0))
        .unwrap();

    // Should handle colons in filenames correctly
    assert!(result.contains("matches"));
}

#[test]
fn test_grep_colon_in_match_content() {
    let module = GrepModule::new();
    // Test matches where the content itself contains colons
    let mut input = String::new();
    for i in 0..15 {
        input.push_str(&format!(
            "file.rs:{}:URL: https://example.com:8080/path\n",
            i
        ));
    }

    let result = module
        .compress(&input, &make_context("grep https *.rs", 0))
        .unwrap();

    assert!(result.contains("15 matches"));
}

#[test]
fn test_grep_windows_paths() {
    let module = GrepModule::new();
    // Test Windows-style paths with drive letters
    let mut input = String::new();
    for i in 0..15 {
        input.push_str(&format!(
            "C:\\Projects\\MyApp\\src\\main.rs:{}:fn main() {{\n",
            i + 1
        ));
    }

    let result = module
        .compress(&input, &make_context("grep pattern", 0))
        .unwrap();

    assert!(result.contains("15 matches"));
}

#[test]
fn test_grep_mixed_path_styles() {
    let module = GrepModule::new();
    // Test mixed Unix and Windows paths
    let mut input = String::new();
    input.push_str("/home/user/project/file.rs:10:match\n");
    input.push_str("C:\\Users\\project\\file.rs:20:match\n");
    input.push_str("./relative/path.rs:30:match\n");
    input.push_str("..\\windows\\relative.rs:40:match\n");

    for i in 0..10 {
        input.push_str(&format!("file{}.rs:{}:match\n", i, i * 10));
    }

    let result = module
        .compress(&input, &make_context("grep match", 0))
        .unwrap();

    assert!(result.contains("matches"));
}
