use rtk_core::commands::wget_cmd::WgetModule;
use rtk_core::commands::CommandModule;
use rtk_core::Context;

fn make_context(command: &str, exit_code: i32) -> Context {
    Context {
        cwd: "/tmp".to_string(),
        exit_code,
        tool: "bash".to_string(),
        session_id: None,
        command: Some(command.to_string()),
    }
}

#[test]
fn test_wget_successful_download() {
    let module = WgetModule::new();
    let input = r#"--2024-01-01 12:00:00--  https://example.com/file.zip
Resolving example.com... 93.184.216.34
Connecting to example.com|93.184.216.34|:443... connected.
HTTP request sent, awaiting response... 200 OK
Length: 1234567 (1.2M) [application/zip]
Saving to: 'file.zip'

 0K .......... .......... .......... .......... ..........  4% 1.23M 0:00:59
50K .......... .......... .......... .......... ..........  8% 2.45M 0:00:52
   100K .......... .......... .......... .......... .......... 12% 3.67M 0:00:45

2024-01-01 12:01:00 (1.45 MB/s) - 'file.zip' saved [1234567/1234567]
"#;
    let result = module
        .compress(input, &make_context("wget https://example.com/file.zip", 0))
        .unwrap();

    assert!(result.contains("Downloaded: file.zip"));
    assert!(result.contains("1234567"));
    assert!(!result.contains("..........")); // Progress bars filtered
}

#[test]
fn test_wget_error() {
    let module = WgetModule::new();
    let input = r#"--2024-01-01 12:00:00--  https://example.com/notfound.zip
Resolving example.com... 93.184.216.34
Connecting to example.com|93.184.216.34|:443... connected.
HTTP request sent, awaiting response... 404 Not Found
2024-01-01 12:00:01 ERROR 404: Not Found.
"#;
    let result = module
        .compress(
            input,
            &make_context("wget https://example.com/notfound.zip", 8),
        )
        .unwrap();

    assert!(result.contains("ERROR") || result.contains("404"));
}

#[test]
fn test_wget_connection_refused() {
    let module = WgetModule::new();
    let input = "Connecting to localhost:9999... failed: Connection refused.";
    let result = module
        .compress(input, &make_context("wget http://localhost:9999/file", 4))
        .unwrap();

    assert!(result.contains("Connection refused") || result.contains("failed"));
}

#[test]
fn test_wget_empty_output() {
    let module = WgetModule::new();
    let result = module.compress("", &make_context("wget", 0)).unwrap();

    assert_eq!(result, "(no output)");
}

#[test]
fn test_wget_progress_filtering() {
    let module = WgetModule::new();
    // Test with repetitive identical progress lines (realistic scenario)
    let input = r#"Resolving example.com... 93.184.216.34
Resolving example.com... 93.184.216.34
Resolving example.com... 93.184.216.34
Resolving example.com... 93.184.216.34
Resolving example.com... 93.184.216.34
"#;
    let result = module
        .compress(input, &make_context("wget https://example.com/file", 0))
        .unwrap();

    // Progress lines should be grouped (identical lines)
    assert!(result.contains("occurrences") || result.lines().count() < 5);
}

#[test]
fn test_wget_quiet_mode() {
    let module = WgetModule::new();
    let input = ""; // wget -q produces no output on success
    let result = module
        .compress(input, &make_context("wget -q https://example.com/file", 0))
        .unwrap();

    assert_eq!(result, "(no output)");
}
