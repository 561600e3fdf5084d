use rtk_core::commands::ls_cmd::LsModule;
use rtk_core::commands::CommandModule;
use rtk_core::Context;

fn make_context(command: &str, exit_code: i32) -> Context {
    Context {
        cwd: "/tmp".to_string(),
        exit_code,
        tool: "bash".to_string(),
        session_id: None,
        command: Some(command.to_string()),
    }
}

#[test]
fn test_ls_empty() {
    let module = LsModule::new();
    let result = module
        .compress("", &make_context("ls empty_dir", 0))
        .unwrap();
    assert_eq!(result, "(empty directory)");
}

#[test]
fn test_ls_small_output() {
    let module = LsModule::new();
    let input = "main.rs\nlib.rs\nREADME.md";
    let result = module.compress(input, &make_context("ls", 0)).unwrap();
    assert_eq!(result, input);
}

#[test]
fn test_ls_many_files() {
    let module = LsModule::new();
    let mut input = String::new();
    for i in 0..30 {
        input.push_str(&format!("file{}.rs\n", i));
    }
    for i in 0..20 {
        input.push_str(&format!("module{}.ts\n", i));
    }

    let result = module.compress(&input, &make_context("ls", 0)).unwrap();
    assert!(result.contains("50 files"));
    assert!(result.contains(".rs:"));
    assert!(result.contains(".ts:"));
}

#[test]
fn test_ls_long_format() {
    let module = LsModule::new();
    let mut input = String::new();
    input.push_str("total 100\n");
    for i in 0..15 {
        input.push_str(&format!(
            "-rw-r--r-- 1 user group {} Jan 01 file{}.txt\n",
            i * 100,
            i
        ));
    }
    for i in 0..10 {
        input.push_str(&format!(
            "drwxr-xr-x 2 user group {} Jan 01 dir{}\n",
            i * 4096,
            i
        ));
    }

    let result = module.compress(&input, &make_context("ls -l", 0)).unwrap();
    assert!(result.contains("10 directories"));
    assert!(result.contains("15 files"));
}

#[test]
fn test_ls_with_hidden() {
    let module = LsModule::new();
    let mut input = String::new();
    for i in 0..10 {
        input.push_str(&format!("file{}.rs\n", i));
    }
    input.push_str(".hidden1\n");
    input.push_str(".hidden2\n");

    let result = module.compress(&input, &make_context("ls -la", 0)).unwrap();
    assert!(result.contains("10 files"));
    assert!(result.contains("2 hidden"));
}

#[test]
fn test_ls_no_extension() {
    let module = LsModule::new();
    let mut input = String::new();
    for i in 0..15 {
        input.push_str(&format!("script{}\n", i));
    }

    let result = module.compress(&input, &make_context("ls", 0)).unwrap();
    assert!(result.contains("15 files"));
    assert!(result.contains("(no ext)"));
}
