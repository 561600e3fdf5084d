use rtk_core::tee::{
    command_from_contents, file_contents, file_name, newest_first, plan_rotation,
    sanitize_command_for_filename, TeeManager,
};

#[test]
fn test_sanitize_command() {
    assert_eq!(sanitize_command_for_filename("git status"), "git_status");
    let result = sanitize_command_for_filename("npm test --watch");
    assert!(result.starts_with("npm_test"));
}

#[test]
fn test_sanitize_command_special_chars() {
    let result = sanitize_command_for_filename("echo 'hello world'");
    assert!(result.contains("echo"));
    assert!(result.contains("hello"));
}

#[test]
fn test_sanitize_command_long() {
    let long_cmd = "git status --porcelain -b --long-flag-name extra args here";
    let result = sanitize_command_for_filename(long_cmd);
    assert!(result.len() <= 30);
}

#[test]
fn sanitize_command_exact_values() {
    assert_eq!(sanitize_command_for_filename("npm test --watch"), "npm_test_--watch");
    assert_eq!(sanitize_command_for_filename("echo 'hello world'"), "echo__hello_world_");
    assert_eq!(
        sanitize_command_for_filename("aaaaaaaaaaaaaaaaaaaa bbbbbbbbbbbbbbbbbbbb"),
        "aaaaaaaaaaaaaaaaaaaa_bbbbbbbbb"
    );
    assert_eq!(sanitize_command_for_filename(""), "");
}

#[test]
fn test_read_command_from_file() {
    let content = file_contents("npm test", "2024-01-15T14:30:22+00:00", "test output");
    assert_eq!(command_from_contents(&content), "npm test");
    assert_eq!(command_from_contents("no header\nhere"), "unknown");
}

#[test]
fn tee_file_name_format() {
    assert_eq!(
        file_name("20240115_143022", "git status"),
        "20240115_143022_git_status.log"
    );
}

#[test]
fn tee_manager_keeps_settings() {
    let m = TeeManager::new("/tmp/tee".to_string(), 10, 90);
    assert_eq!(m.directory, "/tmp/tee");
    assert_eq!(m.max_files, 10);
    assert_eq!(m.retention_days, 90);
}

#[test]
fn rotation_keeps_newest_within_retention() {
    // newest first
    let stamps = vec![500, 400, 300, 100];
    assert_eq!(plan_rotation(&stamps, 2, 200), vec![false, false, true, true]);
    assert_eq!(plan_rotation(&stamps, 10, 350), vec![false, false, true, true]);
    assert_eq!(plan_rotation(&stamps, 0, 0), vec![true, true, true, true]);
}

#[test]
fn newest_first_is_stable() {
    let stamps = vec![100, 300, 200, 300];
    assert_eq!(newest_first(&stamps), vec![1, 3, 2, 0]);
}

#[test]
fn tee_header_reads_back_the_command() {
    for command in ["git status", "", "npm  run build -- --watch", "echo '# Command: x'"] {
        let contents = file_contents(command, "2024-01-15T10:30:45+00:00", "line\n# Command: other\n");
        assert_eq!(command_from_contents(&contents), command);
    }
}

#[test]
fn tee_header_of_a_multiline_command_keeps_its_first_line() {
    let contents = file_contents("echo a\necho b", "t", "out");
    assert_eq!(command_from_contents(&contents), "echo a");
}
