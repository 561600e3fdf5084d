use rtk_core::{compress, estimate_tokens, Context, RtkError};

fn make_context(cwd: &str) -> Context {
    Context {
        cwd: cwd.to_string(),
        exit_code: 0,
        tool: "bash".to_string(),
        session_id: None,
        command: None,
    }
}

#[test]
fn test_compress_small_output() {
    let output = "small output";
    let result = compress("echo test", output, make_context("/tmp")).unwrap();

    assert!(result.original_tokens > 0);
    assert!(result.compressed_tokens > 0);
}

#[test]
fn lib_test_compress_empty_output() {
    let result = compress("echo test", "", make_context("/tmp")).unwrap();

    assert_eq!(result.original_tokens, 0);
    assert_eq!(result.compressed_tokens, 0);
    assert_eq!(result.saved_tokens, 0);
}

#[test]
fn lib_test_compress_large_output() {
    let large_output: String = "line\n".repeat(10000);
    let result = compress("cat large_file.txt", &large_output, make_context("/tmp")).unwrap();

    assert!(result.original_tokens > 0);
    assert!(
        !result.compressed.is_empty() || result.compressed_tokens == result.original_tokens
    );
}

#[test]
fn test_estimate_tokens_empty() {
    assert_eq!(estimate_tokens(""), 0);
}

#[test]
fn test_estimate_tokens_simple() {
    let tokens = estimate_tokens("hello world");
    assert!(tokens > 0);
    assert!(tokens < 10);
}

#[test]
fn test_compress_unknown_command() {
    let output = "some output";
    let result = compress("unknown_command", output, make_context("/tmp")).unwrap();

    assert_eq!(result.compressed, output);
    assert_eq!(result.saved_tokens, 0);
    assert_eq!(result.strategy, "none");
}

#[test]
fn compress_reports_module_and_strategy() {
    let result = compress("git status", "M a.rs\nM b.rs\n?? c.rs\n", make_context("/tmp")).unwrap();
    assert_eq!(result.module, "git");
    assert_eq!(result.strategy, "multi_strategy");
    assert_eq!(
        result.saved_tokens,
        result.original_tokens.saturating_sub(result.compressed_tokens)
    );
}

#[test]
fn compress_refuses_control_characters() {
    let r = compress("echo \u{7}bell", "x", make_context("/tmp"));
    assert_eq!(r.err(), Some(RtkError::InvalidControlCharacters));
    let ok = compress("echo a\tb\nc", "x", make_context("/tmp"));
    assert!(ok.is_ok());
}

#[test]
fn compress_refuses_oversized_input() {
    let big = "a".repeat(10 * 1024 * 1024 + 1);
    assert_eq!(
        compress(&big, "x", make_context("/tmp")).err(),
        Some(RtkError::CommandTooLarge)
    );
    assert_eq!(
        compress("echo", &big, make_context("/tmp")).err(),
        Some(RtkError::OutputTooLarge)
    );
    let exact = "a".repeat(10 * 1024 * 1024);
    assert!(compress("echo", &exact, make_context("/tmp")).is_ok());
}

#[test]
fn compress_reads_go_test_json() {
    let output = "{\"Action\":\"pass\",\"Test\":\"TestAdd\",\"Package\":\"p\"}\n{\"Action\":\"pass\",\"Package\":\"p\"}";
    let r = compress("go test -json ./...", output, make_context("/tmp")).unwrap();
    assert_eq!(r.compressed, "Packages: 1 passed, 0 failed\nTests: 1 passed, 0 failed, 0 skipped");
    assert_eq!(r.module, "go");
}

#[test]
fn estimate_tokens_exact_values() {
    assert_eq!(estimate_tokens("hello"), 2);
    assert_eq!(estimate_tokens("a"), 1);
    // 11 characters, one whitespace: ceil(11/4) + ceil(1/10) = 3 + 1
    assert_eq!(estimate_tokens("hello world"), 4);
}
