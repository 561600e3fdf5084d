use rtk_core::filter::{StatsExtraction, Strategy};

#[test]
fn stats_test_empty() {
    let result = StatsExtraction.compress("").unwrap();
    assert_eq!(result, "(empty)");
}

#[test]
fn test_clean() {
    let result = StatsExtraction
        .compress("nothing to commit, working tree clean")
        .unwrap();
    assert_eq!(result, "(clean)");
}

#[test]
fn stats_test_git_status() {
    let input = r#"M src/main.rs
A src/new.rs
D src/old.rs
?? src/test.rs
"#;
    let result = StatsExtraction.compress(input).unwrap();
    assert!(result.contains("4 files changed"));
    assert!(result.contains("1 modified"));
    assert!(result.contains("1 added"));
    assert!(result.contains("1 deleted"));
    assert!(result.contains("1 untracked"));
}

#[test]
fn test_git_status_false_positives() {
    // Should NOT match lines like "Makefile updated" or "Adding feature"
    let input = "Makefile updated with new targets\nAdding feature to handle edge cases\nDeleted old comments from code\n";
    let result = StatsExtraction.compress(input).unwrap();
    // Should return original input since no valid git status lines found
    assert_eq!(result, input);
}

#[test]
fn test_git_status_staged() {
    // Test staged changes (with leading space)
    let input = r#" M src/modified.rs
 A src/added.rs
 D src/deleted.rs
"#;
    let result = StatsExtraction.compress(input).unwrap();
    assert!(result.contains("3 files changed"));
    assert!(result.contains("1 modified"));
    assert!(result.contains("1 added"));
    assert!(result.contains("1 deleted"));
}

#[test]
fn test_git_status_mixed() {
    // Mix of valid status and false positives
    let input = r#"M src/main.rs
Makefile updated
A src/new.rs
Adding feature
D src/old.rs
Deleted old code
?? src/test.rs
"#;
    let result = StatsExtraction.compress(input).unwrap();
    assert!(result.contains("4 files changed"));
    assert!(result.contains("1 modified"));
    assert!(result.contains("1 added"));
    assert!(result.contains("1 deleted"));
    assert!(result.contains("1 untracked"));
}

#[test]
fn test_untracked_false_positive() {
    // Should NOT match "???" as untracked
    let input = "??? question\n?? valid_file.txt\n???? too many";
    let result = StatsExtraction.compress(input).unwrap();
    // Only "?? valid_file.txt" should match (has space after ??)
    assert!(result.contains("1 untracked"));
    assert!(!result.contains("3 untracked"));
}

#[test]
fn test_untracked_with_spaces_in_filename() {
    let input = "?? my file with spaces.txt\n?? another file.rs";
    let result = StatsExtraction.compress(input).unwrap();
    assert!(result.contains("2 untracked"));
}
