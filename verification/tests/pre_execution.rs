use rtk_core::commands::pre_execution::{
    extract_base_command, optimize_command, parse_command_parts,
};

#[test]
fn test_optimize_git_status() {
    let result = optimize_command("git status").unwrap();
    assert_eq!(result.optimized, "git status --porcelain -b");
    assert_eq!(result.flags_added, vec!["--porcelain", "-b"]);
    assert!(!result.skipped);
}

#[test]
fn test_optimize_git_status_with_existing_flag() {
    let result = optimize_command("git status --porcelain").unwrap();
    assert_eq!(result.optimized, "git status --porcelain -b");
    assert_eq!(result.flags_added, vec!["-b"]);
    assert!(!result.skipped);
}

#[test]
fn test_optimize_git_status_all_flags_present() {
    let result = optimize_command("git status --porcelain -b").unwrap();
    assert!(result.skipped);
    assert_eq!(
        result.skip_reason,
        Some("all flags already present".to_string())
    );
}

#[test]
fn test_optimize_npm_test() {
    let result = optimize_command("npm test").unwrap();
    assert_eq!(result.optimized, "npm test --silent");
    assert_eq!(result.flags_added, vec!["--silent"]);
}

#[test]
fn test_optimize_cargo_build() {
    let result = optimize_command("cargo build").unwrap();
    assert_eq!(result.optimized, "cargo build --quiet");
}

#[test]
fn test_optimize_cargo_test() {
    let result = optimize_command("cargo test").unwrap();
    assert_eq!(result.optimized, "cargo test --quiet");
}

#[test]
fn test_optimize_unknown_command() {
    let result = optimize_command("unknown-command").unwrap();
    assert!(result.skipped);
    assert_eq!(result.optimized, "unknown-command");
}

#[test]
fn test_optimize_empty_command() {
    let result = optimize_command("").unwrap();
    assert!(result.skipped);
}

#[test]
fn test_optimize_whitespace_command() {
    let result = optimize_command("   ").unwrap();
    assert!(result.skipped);
}

#[test]
fn test_parse_command_parts_simple() {
    let parts = parse_command_parts("git status");
    assert_eq!(parts, vec!["git", "status"]);
}

#[test]
fn test_parse_command_parts_with_quotes() {
    let parts = parse_command_parts("git commit -m \"some message\"");
    assert_eq!(parts, vec!["git", "commit", "-m", "some message"]);
}

#[test]
fn test_parse_command_parts_with_single_quotes() {
    let parts = parse_command_parts("echo 'hello world'");
    assert_eq!(parts, vec!["echo", "hello world"]);
}

#[test]
fn test_extract_base_command_simple() {
    assert_eq!(extract_base_command("git"), "git");
}

#[test]
fn test_extract_base_command_with_windows_path() {
    // On Windows, .exe is stripped
    let result = extract_base_command("C:\\Program Files\\git.exe");
    assert_eq!(result, "git");
}

#[test]
fn test_optimize_docker_ps() {
    let result = optimize_command("docker ps").unwrap();
    assert!(result.skipped);
    assert_eq!(result.optimized, "docker ps");
}

#[test]
fn test_optimize_curl() {
    let result = optimize_command("curl http://example.com").unwrap();
    assert_eq!(result.optimized, "curl http://example.com -s");
}

#[test]
fn test_optimize_wget() {
    let result = optimize_command("wget http://example.com").unwrap();
    assert_eq!(result.optimized, "wget http://example.com -q");
}

#[test]
fn test_optimize_pytest() {
    let result = optimize_command("pytest tests/").unwrap();
    assert_eq!(result.optimized, "pytest tests/ -q");
}

#[test]
fn test_optimize_preserves_case_in_args() {
    let result = optimize_command("git status -uNo").unwrap();
    assert!(result.optimized.contains("-uNo"));
}

#[test]
fn test_optimize_piped_command() {
    let result = optimize_command("git status | grep modified").unwrap();
    assert!(result.optimized.contains("--porcelain"));
    assert!(result.optimized.contains("| grep modified"));
    assert!(!result.skipped);
}

#[test]
fn test_optimize_heredoc_skipped() {
    let result = optimize_command("cat <<EOF").unwrap();
    assert!(result.skipped);
    assert_eq!(result.skip_reason, Some("heredoc detected".to_string()));
}

#[test]
fn test_optimize_subshell_skipped() {
    let result = optimize_command("echo $(git status)").unwrap();
    assert!(result.skipped);
    assert_eq!(result.skip_reason, Some("subshell detected".to_string()));
}

#[test]
fn test_optimize_backtick_subshell_skipped() {
    let result = optimize_command("echo `git status`").unwrap();
    assert!(result.skipped);
    assert_eq!(result.skip_reason, Some("subshell detected".to_string()));
}

#[test]
fn test_optimize_npm_install() {
    let result = optimize_command("npm install").unwrap();
    assert!(result.optimized.contains("--silent"));
    assert!(result.optimized.contains("--no-progress"));
}

#[test]
fn test_optimize_yarn_test() {
    let result = optimize_command("yarn test").unwrap();
    assert_eq!(result.optimized, "yarn test --silent");
}

#[test]
fn test_optimize_pnpm_install() {
    let result = optimize_command("pnpm install").unwrap();
    assert_eq!(result.optimized, "pnpm install --silent");
}

#[test]
fn test_optimize_git_log() {
    let result = optimize_command("git log").unwrap();
    assert_eq!(result.optimized, "git log --oneline");
}

#[test]
fn test_optimize_git_push() {
    let result = optimize_command("git push").unwrap();
    assert_eq!(result.optimized, "git push --quiet");
}

#[test]
fn test_optimize_git_fetch() {
    let result = optimize_command("git fetch").unwrap();
    assert_eq!(result.optimized, "git fetch --quiet");
}

#[test]
fn test_optimize_git_pull() {
    let result = optimize_command("git pull").unwrap();
    assert_eq!(result.optimized, "git pull --quiet");
}

#[test]
fn test_optimize_cargo_run() {
    let result = optimize_command("cargo run").unwrap();
    assert_eq!(result.optimized, "cargo run --quiet");
}

#[test]
fn test_optimize_cargo_doc() {
    let result = optimize_command("cargo doc").unwrap();
    assert_eq!(result.optimized, "cargo doc --quiet");
}

#[test]
fn test_optimize_docker_images() {
    let result = optimize_command("docker images").unwrap();
    assert!(result.skipped);
    assert_eq!(result.optimized, "docker images");
}

#[test]
fn test_optimize_docker_with_user_format_unchanged() {
    let command = "docker ps --format '{{.ID}}'";
    let result = optimize_command(command).unwrap();
    assert!(result.skipped);
    assert_eq!(result.optimized, command);
}

#[test]
fn test_optimize_case_insensitive() {
    let result = optimize_command("GIT STATUS").unwrap();
    assert_eq!(result.optimized, "GIT STATUS --porcelain -b");
}

#[test]
fn test_optimize_with_existing_quiet_flag() {
    let result = optimize_command("cargo build --quiet").unwrap();
    assert!(result.skipped);
    assert_eq!(
        result.skip_reason,
        Some("all flags already present".to_string())
    );
}

#[test]
fn test_optimize_npm_run() {
    let result = optimize_command("npm run build").unwrap();
    assert_eq!(result.optimized, "npm run build --silent");
}

#[test]
fn test_optimize_multiple_pipes() {
    let result = optimize_command("git status | grep modified | wc -l").unwrap();
    assert!(result.optimized.contains("--porcelain"));
    assert!(result.optimized.contains("| grep modified | wc -l"));
}

#[test]
fn test_optimize_or_operator_not_pipe() {
    // || is OR operator, not pipe
    let result = optimize_command("git status || echo failed").unwrap();
    assert!(result.optimized.contains("--porcelain"));
    assert!(!result.skipped);
}

#[test]
fn test_optimize_and_operator() {
    // && is AND operator
    let result = optimize_command("git status && echo success").unwrap();
    assert!(result.optimized.contains("--porcelain"));
    assert!(!result.skipped);
}

#[test]
fn test_optimize_backtick_in_string() {
    // Backticks in double quotes should not be treated as subshell
    // Note: This is a complex case - the current implementation
    // conservatively skips any command with backticks
    // This test documents the current behavior
    let result = optimize_command("git commit -m \"Use `code` blocks\"").unwrap();
    // Currently skipped due to backtick detection
    // This is a known limitation
    assert!(result.skipped);
}

#[test]
fn test_optimize_sudo_prefix() {
    let result = optimize_command("sudo git status").unwrap();
    assert!(result.optimized.contains("--porcelain"));
    assert!(!result.skipped);
}

#[test]
fn test_optimize_env_var_prefix() {
    let result = optimize_command("MY_VAR=value git status").unwrap();
    assert!(result.optimized.contains("--porcelain"));
    assert!(!result.skipped);
}

#[test]
fn test_optimize_windows_exe_extension() {
    let result = optimize_command("git.exe status").unwrap();
    assert!(result.optimized.contains("--porcelain"));
    assert!(!result.skipped);
}

#[test]
fn test_optimize_bitshift_not_heredoc() {
    // Bit-shift in arithmetic should not be treated as heredoc
    // Note: Current implementation conservatively skips any << pattern
    // This test documents the current behavior
    let result = optimize_command("echo $((1 << 2))").unwrap();
    // Currently skipped due to << detection
    // This is a known limitation
    assert!(result.skipped);
}

#[test]
fn test_optimize_heredoc_with_delimiter() {
    let result = optimize_command("cat <<EOF").unwrap();
    assert!(result.skipped);
    assert_eq!(result.skip_reason, Some("heredoc detected".to_string()));
}

#[test]
fn test_optimize_here_string() {
    let result = optimize_command("cat <<< \"input\"").unwrap();
    assert!(result.skipped);
    assert_eq!(result.skip_reason, Some("heredoc detected".to_string()));
}

#[test]
fn optimize_piped_keeps_or_operator() {
    let result = optimize_command("git status || echo a | cat").unwrap();
    assert!(result.optimized.contains("||"));
    assert!(result.optimized.ends_with("| cat"));
    let quoted = optimize_command("git status | grep \"a|b\"").unwrap();
    assert!(quoted.optimized.ends_with("| grep \"a|b\""));
}
