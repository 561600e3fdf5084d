use rtk_core::commands::detect_command;

#[test]
fn test_detect_git() {
    let module = detect_command("git status");
    assert!(module.is_some());
    assert_eq!(module.unwrap().name(), "git");
}

#[test]
fn test_detect_npm() {
    let module = detect_command("npm test");
    assert!(module.is_some());
    assert_eq!(module.unwrap().name(), "npm");
}

#[test]
fn test_detect_unknown() {
    let module = detect_command("unknown-command");
    assert!(module.is_none());
}

#[test]
fn test_detect_eslint() {
    let module = detect_command("eslint src/");
    assert!(module.is_some());
    assert_eq!(module.unwrap().name(), "eslint");
}

#[test]
fn test_detect_tsc() {
    let module = detect_command("tsc --noEmit");
    assert!(module.is_some());
    assert_eq!(module.unwrap().name(), "tsc");
}

#[test]
fn test_detect_next() {
    let module = detect_command("next build");
    assert!(module.is_some());
    assert_eq!(module.unwrap().name(), "next");
}

#[test]
fn test_detect_playwright() {
    let module = detect_command("playwright test");
    assert!(module.is_some());
    assert_eq!(module.unwrap().name(), "playwright");
}

#[test]
fn test_detect_prisma() {
    let module = detect_command("prisma migrate");
    assert!(module.is_some());
    assert_eq!(module.unwrap().name(), "prisma");
}

#[test]
fn test_detect_vitest() {
    let module = detect_command("vitest run");
    assert!(module.is_some());
    assert_eq!(module.unwrap().name(), "vitest");
}

#[test]
fn test_detect_pnpm() {
    let module = detect_command("pnpm install");
    assert!(module.is_some());
    assert_eq!(module.unwrap().name(), "pnpm");
}

#[test]
fn test_detect_pip() {
    let module = detect_command("pip install requests");
    assert!(module.is_some());
    assert_eq!(module.unwrap().name(), "pip");
}

#[test]
fn test_detect_pip3() {
    let module = detect_command("pip3 list");
    assert!(module.is_some());
    assert_eq!(module.unwrap().name(), "pip");
}

#[test]
fn test_detect_ruff() {
    let module = detect_command("ruff check src/");
    assert!(module.is_some());
    assert_eq!(module.unwrap().name(), "ruff");
}

#[test]
fn test_detect_go() {
    let module = detect_command("go test ./...");
    assert!(module.is_some());
    assert_eq!(module.unwrap().name(), "go");
}

#[test]
fn test_detect_go_build() {
    let module = detect_command("go build");
    assert!(module.is_some());
    assert_eq!(module.unwrap().name(), "go");
}

#[test]
fn test_detect_golangci_lint() {
    let module = detect_command("golangci-lint run");
    assert!(module.is_some());
    assert_eq!(module.unwrap().name(), "golangci-lint");
}

#[test]
fn test_detect_golangci_lint_linters() {
    let module = detect_command("golangci-lint linters");
    assert!(module.is_some());
    assert_eq!(module.unwrap().name(), "golangci-lint");
}

#[test]
fn test_detect_wget() {
    let module = detect_command("wget https://example.com/file");
    assert!(module.is_some());
    assert_eq!(module.unwrap().name(), "wget");
}

#[test]
fn test_detect_wget_with_flags() {
    let module = detect_command("wget -O output.txt https://example.com/file");
    assert!(module.is_some());
    assert_eq!(module.unwrap().name(), "wget");
}

#[test]
fn test_detect_curl() {
    let module = detect_command("curl https://example.com");
    assert!(module.is_some());
    assert_eq!(module.unwrap().name(), "curl");
}

#[test]
fn test_detect_curl_verbose() {
    let module = detect_command("curl -v https://example.com");
    assert!(module.is_some());
    assert_eq!(module.unwrap().name(), "curl");
}

#[test]
fn test_detect_aws() {
    let module = detect_command("aws s3 ls");
    assert!(module.is_some());
    assert_eq!(module.unwrap().name(), "aws");
}

#[test]
fn test_detect_aws_with_profile() {
    let module = detect_command("aws --profile prod ec2 describe-instances");
    assert!(module.is_some());
    assert_eq!(module.unwrap().name(), "aws");
}

#[test]
fn test_detect_psql() {
    let module = detect_command("psql -c \"SELECT * FROM users\"");
    assert!(module.is_some());
    assert_eq!(module.unwrap().name(), "psql");
}

#[test]
fn test_detect_psql_with_db() {
    let module = detect_command("psql -h localhost -U postgres mydb");
    assert!(module.is_some());
    assert_eq!(module.unwrap().name(), "psql");
}

#[test]
fn test_detect_grep() {
    let module = detect_command("grep pattern *.rs");
    assert!(module.is_some());
    assert_eq!(module.unwrap().name(), "grep");
}

#[test]
fn test_detect_grep_recursive() {
    let module = detect_command("grep -r pattern src/");
    assert!(module.is_some());
    assert_eq!(module.unwrap().name(), "grep");
}

#[test]
fn test_detect_diff() {
    let module = detect_command("diff file1.txt file2.txt");
    assert!(module.is_some());
    assert_eq!(module.unwrap().name(), "diff");
}

#[test]
fn test_detect_diff_unified() {
    let module = detect_command("diff -u old new");
    assert!(module.is_some());
    assert_eq!(module.unwrap().name(), "diff");
}

#[test]
fn test_detect_find() {
    let module = detect_command("find . -name '*.rs'");
    assert!(module.is_some());
    assert_eq!(module.unwrap().name(), "find");
}

#[test]
fn test_detect_find_type() {
    let module = detect_command("find /tmp -type f");
    assert!(module.is_some());
    assert_eq!(module.unwrap().name(), "find");
}

#[test]
fn test_detect_ls() {
    let module = detect_command("ls -la");
    assert!(module.is_some());
    assert_eq!(module.unwrap().name(), "ls");
}

#[test]
fn test_detect_ls_directory() {
    let module = detect_command("ls src/");
    assert!(module.is_some());
    assert_eq!(module.unwrap().name(), "ls");
}

#[test]
fn test_detect_read() {
    let module = detect_command("read file.txt");
    assert!(module.is_some());
    assert_eq!(module.unwrap().name(), "read");
}

#[test]
fn test_detect_read_with_path() {
    let module = detect_command("read ./src/main.rs");
    assert!(module.is_some());
    assert_eq!(module.unwrap().name(), "read");
}

#[test]
fn test_detect_git_with_full_path() {
    // Test that git is detected even with full path
    let module = detect_command("/usr/bin/git status");
    // Note: Current implementation may not detect this, but let's document expected behavior
    // If it should be detected, the matches_module function needs to be updated
    // For now, this tests the current behavior
    let module2 = detect_command("/usr/local/bin/git diff");
    // Both should either be detected or not consistently
    assert_eq!(module.is_some(), module2.is_some());
}

#[test]
fn test_detect_command_with_leading_path() {
    // Test commands with leading paths don't cause false matches
    let module = detect_command("/opt/tools/npm install");
    // Current behavior: path-prefixed commands may not be detected
    // This test documents the current behavior
    let module2 = detect_command("npm install");
    assert!(module2.is_some());
}

#[test]
fn test_detect_cargo_with_path() {
    // cargo should be detected regardless of how it's invoked
    let module = detect_command("cargo build");
    assert!(module.is_some());
    assert_eq!(module.unwrap().name(), "cargo");
}

#[test]
fn test_detect_with_rtk_prefix() {
    // Commands with rtk prefix should still be detected
    let module = detect_command("rtk git status");
    assert!(module.is_some());
    assert_eq!(module.unwrap().name(), "git");
}

#[test]
fn test_detect_with_leading_spaces() {
    // Should handle leading/trailing whitespace
    let module = detect_command("  git status  ");
    assert!(module.is_some());
    assert_eq!(module.unwrap().name(), "git");
}

#[test]
fn test_detect_no_false_positives() {
    // Should NOT match "gitstatus" (no space)
    let module = detect_command("gitstatus");
    assert!(module.is_none());

    // Should NOT match "npms" (partial match)
    let module = detect_command("npms");
    assert!(module.is_none());
}

#[test]
fn test_detect_case_insensitive() {
    let module = detect_command("GIT STATUS");
    assert!(module.is_some());
    assert_eq!(module.unwrap().name(), "git");

    let module = detect_command("NPM TEST");
    assert!(module.is_some());
    assert_eq!(module.unwrap().name(), "npm");
}

#[test]
fn test_detect_with_tabs() {
    // Should handle tabs as word boundaries
    let module = detect_command("git\tstatus");
    assert!(module.is_some());
    assert_eq!(module.unwrap().name(), "git");
}

#[test]
fn detect_windows_path_with_spaces() {
    assert_eq!(
        detect_command("C:\\Program Files\\node\\npm.cmd"),
        detect_command("npm install")
    );
    assert!(detect_command("C:\\Program Files\\node\\npm.cmd").is_some());
}

#[test]
fn detect_windows_program_before_backslash_arguments() {
    assert_eq!(detect_command("C:\\bin\\grep.exe \\d+ file").unwrap().name(), "grep");
    assert_eq!(detect_command("C:\\tools\\ls.exe .\\dir").unwrap().name(), "ls");
    assert_eq!(detect_command("C:\\tools\\ls .\\dir").unwrap().name(), "ls");
    assert_eq!(detect_command("C:\\Program Files\\node\\npm.cmd install").unwrap().name(), "npm");
}
