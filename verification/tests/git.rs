use rtk_core::commands::git::GitModule;
use rtk_core::commands::CommandModule;
use rtk_core::Context;

fn make_context(command: &str, exit_code: i32) -> Context {
    Context {
        cwd: "/tmp".to_string(),
        exit_code,
        tool: "bash".to_string(),
        session_id: None,
        command: Some(command.to_string()),
    }
}

#[test]
fn git_test_git_status() {
    let module = GitModule::new();
    let input = "M src/main.rs\nA src/new.rs\n?? test.txt";
    let result = module
        .compress(input, &make_context("git status", 0))
        .unwrap();

    assert!(result.contains("3 files changed"));
}

#[test]
fn test_git_diff() {
    let module = GitModule::new();
    let input = r#"diff --git a/src/main.rs b/src/main.rs
index 1234567..abcdefg 100644
--- a/src/main.rs
+++ b/src/main.rs
@@ -1,5 +1,6 @@
 fn main() {
-    println!("old");
+    println!("new");
+    println!("added");
 }
"#;
    let result = module
        .compress(input, &make_context("git diff", 0))
        .unwrap();

    assert!(result.contains("1 file"));
    assert!(result.contains("2 insertions"));
    assert!(result.contains("1 deletion"));
}

#[test]
fn test_git_diff_empty() {
    let module = GitModule::new();
    let result = module.compress("", &make_context("git diff", 0)).unwrap();

    assert_eq!(result, "(no changes)");
}

#[test]
fn test_git_log() {
    let module = GitModule::new();
    let input = r#"commit abc123
Author: John Doe <john@example.com>
Date:   Mon Jan 1 00:00:00 2024 +0000

First commit

commit def456
Author: Jane Smith <jane@example.com>
Date:   Tue Jan 2 00:00:00 2024 +0000

Second commit
"#;
    let result = module.compress(input, &make_context("git log", 0)).unwrap();

    assert!(result.contains("2 commits"));
    assert!(result.contains("2 authors"));
}

#[test]
fn test_git_log_oneline() {
    let module = GitModule::new();
    let input = "abc123 First commit\ndef456 Second commit\nghi789 Third commit";
    let result = module
        .compress(input, &make_context("git log --oneline", 0))
        .unwrap();

    assert!(result.contains("3 commits"));
}

#[test]
fn test_git_add_success() {
    let module = GitModule::new();
    let result = module.compress("", &make_context("git add .", 0)).unwrap();

    assert_eq!(result, "");
}

#[test]
fn test_git_add_error() {
    let module = GitModule::new();
    let input = "error: pathspec 'nonexistent' did not match any files";
    let result = module
        .compress(input, &make_context("git add nonexistent", 1))
        .unwrap();

    assert!(result.contains("error"));
}

#[test]
fn test_git_commit_success() {
    let module = GitModule::new();
    let result = module
        .compress("", &make_context("git commit -m 'test'", 0))
        .unwrap();

    assert_eq!(result, "");
}

#[test]
fn test_git_commit_error() {
    let module = GitModule::new();
    let input = "error: nothing to commit";
    let result = module
        .compress(input, &make_context("git commit", 1))
        .unwrap();

    assert!(result.contains("error"));
}

#[test]
fn test_git_push_success() {
    let module = GitModule::new();
    let input = r#"Counting objects: 10, done.
Writing objects: 100% (10/10), done.
To github.com:user/repo.git
   abc123..def456  main -> main
"#;
    let result = module
        .compress(input, &make_context("git push", 0))
        .unwrap();

    // Should filter out progress lines
    assert!(!result.contains("Counting objects"));
    assert!(!result.contains("Writing objects"));
    assert!(result.contains("main -> main") || result == "(pushed successfully)");
}

#[test]
fn test_git_push_error() {
    let module = GitModule::new();
    let input = "error: failed to push some refs";
    let result = module
        .compress(input, &make_context("git push", 1))
        .unwrap();

    assert!(result.contains("error"));
}

#[test]
fn test_git_branch() {
    let module = GitModule::new();
    let input = r#"  feature-1
  feature-2
* main
  develop
"#;
    let result = module
        .compress(input, &make_context("git branch", 0))
        .unwrap();

    // Should use grouping strategy
    assert!(!result.is_empty());
}

#[test]
fn test_git_checkout_success() {
    let module = GitModule::new();
    let result = module
        .compress("", &make_context("git checkout main", 0))
        .unwrap();

    assert_eq!(result, "");
}

#[test]
fn test_git_checkout_error() {
    let module = GitModule::new();
    let input = "error: pathspec 'nonexistent' did not match any file(s) known to git";
    let result = module
        .compress(input, &make_context("git checkout nonexistent", 1))
        .unwrap();

    assert!(result.contains("error"));
}

#[test]
fn test_unknown_git_command() {
    let module = GitModule::new();
    let input = "M src/main.rs\nA src/new.rs";
    let result = module
        .compress(input, &make_context("git unknown-command", 0))
        .unwrap();

    // Should fall back to stats extraction
    assert!(result.contains("2 files changed"));
}

#[test]
fn test_no_command_in_context() {
    let module = GitModule::new();
    let input = "M src/main.rs\nA src/new.rs";
    let context = Context {
        cwd: "/tmp".to_string(),
        exit_code: 0,
        tool: "bash".to_string(),
        session_id: None,
        command: None,
    };
    let result = module.compress(input, &context).unwrap();

    // Should fall back to stats extraction
    assert!(result.contains("2 files changed"));
}

#[test]
fn test_git_diff_filename_with_spaces() {
    let module = GitModule::new();
    let input = r#"diff --git a/src/my file.rs b/src/my file.rs
index 1234567..abcdefg 100644
--- a/src/my file.rs
+++ b/src/my file.rs
@@ -1,3 +1,4 @@
 fn main() {
+    println!("new");
 }
"#;
    let result = module
        .compress(input, &make_context("git diff", 0))
        .unwrap();

    // Should correctly extract filename with spaces
    assert!(result.contains("1 file"));
    assert!(result.contains("1 insertion"));
}

#[test]
fn test_git_subcommand_with_flags() {
    let module = GitModule::new();

    // Test -C flag (common in scripts)
    let input = "M src/main.rs";
    let result = module
        .compress(input, &make_context("git -C /path/to/repo status", 0))
        .unwrap();
    assert!(result.contains("1 file"));

    // Test -c flag
    let result2 = module
        .compress(input, &make_context("git -c core.autocrlf=false status", 0))
        .unwrap();
    assert!(result2.contains("1 file"));
}

#[test]
fn test_git_command_case_insensitive() {
    let module = GitModule::new();
    let input = "M src/main.rs";

    // Test uppercase
    let result = module
        .compress(input, &make_context("GIT STATUS", 0))
        .unwrap();
    assert!(result.contains("1 file"));

    // Test mixed case
    let result2 = module
        .compress(input, &make_context("Git Status", 0))
        .unwrap();
    assert!(result2.contains("1 file"));
}

#[test]
fn test_git_log_malformed_author() {
    let module = GitModule::new();
    let input = r#"commit abc123
Author: John Doe <john@example.com>
Date:   Mon Jan 1 00:00:00 2024 +0000

First commit

commit def456
Author: 
Date:   Tue Jan 2 00:00:00 2024 +0000

Second commit

commit ghi789
Author: Jane Smith
Date:   Wed Jan 3 00:00:00 2024 +0000

Third commit
"#;
    let result = module.compress(input, &make_context("git log", 0)).unwrap();

    // Should handle malformed author lines gracefully
    assert!(result.contains("3 commits"));
    // Should only count valid authors
    assert!(result.contains("1 author") || result.contains("2 author"));
}

#[test]
fn test_git_push_filters_progress() {
    let module = GitModule::new();
    let input = r#"Counting objects: 100% (50/50), done.
Writing objects: 100% (25/25), done.
Compressing objects: 100% (10/10), done.
remote: Processing changes: done.
To github.com:user/repo.git
   abc123..def456  main -> main
"#;
    let result = module
        .compress(input, &make_context("git push", 0))
        .unwrap();

    // Should filter out all progress lines
    assert!(!result.contains("Counting objects"));
    assert!(!result.contains("Writing objects"));
    assert!(!result.contains("Compressing objects"));
    assert!(!result.contains("Processing changes"));
    // Should keep important info
    assert!(result.contains("main -> main") || result == "(pushed successfully)");
}


#[test]
fn git_subcommands_are_case_insensitive() {
    let module = GitModule::new();
    let input = "abc123 First commit\ndef456 Second commit\nghi789 Third commit";
    let upper = module.compress(input, &make_context("GIT LOG", 0)).unwrap();
    let lower = module.compress(input, &make_context("git log", 0)).unwrap();
    assert_eq!(upper, lower);
    assert!(upper.contains("3 commits"));
    assert_eq!(module.compress("added", &make_context("Git Add .", 0)).unwrap(), "");
}

#[test]
fn git_add_commit_checkout_are_quiet_on_success() {
    let module = GitModule::new();
    assert_eq!(module.compress("x", &make_context("git add .", 0)).unwrap(), "");
    assert_eq!(module.compress("x", &make_context("git commit -m 'test'", 0)).unwrap(), "");
    assert_eq!(module.compress("x", &make_context("git checkout main", 0)).unwrap(), "");
}
