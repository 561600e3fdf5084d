use rtk_core::config::{CompressionAggressiveness, ModelAutoConfig, ModelCategory, PostExecutionPolicyMode};
use rtk_core::daemon::fallback::{extract_errors, fallback_text};
use rtk_core::daemon::policy::{
    max_output_size_bytes, parse_aggressiveness, parse_model_category, parse_policy_mode,
    resolve_effective_policy, PolicyRequest,
};
use rtk_core::daemon::{optimize_response, OptimizeParams};

#[test]
fn test_extract_errors() {
    let output = "Starting build...\nError: compilation failed\nWarning: unused variable\nBuild complete";
    let errors = extract_errors(output);
    assert!(errors.is_some());
    assert!(errors.unwrap().contains("Error: compilation failed"));
}

#[test]
fn test_extract_errors_none() {
    let output = "Starting build...\nBuild complete";
    let errors = extract_errors(output);
    assert!(errors.is_none());
}

#[test]
fn test_parse_policy_fields() {
    assert_eq!(
        parse_model_category(Some("Reasoning")),
        Some(ModelCategory::Reasoning)
    );
    assert_eq!(
        parse_policy_mode(Some("replace_output")),
        Some(PostExecutionPolicyMode::ReplaceOutput)
    );
    assert_eq!(
        parse_aggressiveness(Some("HIGH")),
        Some(CompressionAggressiveness::High)
    );
}

#[test]
fn parse_policy_fields_unknown_and_missing() {
    assert_eq!(parse_model_category(Some("  compact ")), Some(ModelCategory::Compact));
    assert_eq!(parse_model_category(Some("fast")), None);
    assert_eq!(parse_model_category(None), None);
    assert_eq!(parse_policy_mode(Some("replace")), Some(PostExecutionPolicyMode::ReplaceOutput));
    assert_eq!(parse_policy_mode(Some("OFF")), Some(PostExecutionPolicyMode::Off));
    assert_eq!(parse_aggressiveness(Some("extreme")), None);
}

#[test]
fn max_output_sizes() {
    assert_eq!(max_output_size_bytes(CompressionAggressiveness::Low), 2_000_000);
    assert_eq!(max_output_size_bytes(CompressionAggressiveness::Medium), 1_250_000);
    assert_eq!(max_output_size_bytes(CompressionAggressiveness::High), 800_000);
}

#[test]
fn effective_policy_defaults_by_category() {
    let req = PolicyRequest {
        model_id: Some("   ".to_string()),
        model_category: Some("reasoning".to_string()),
        policy_mode: None,
        compression_aggressiveness: None,
        strip_reasoning: None,
    };
    let p = resolve_effective_policy(&req, "default-model", &ModelAutoConfig::default(), &Vec::new());
    assert_eq!(p.model_id, "default-model");
    assert_eq!(p.model_category, ModelCategory::Reasoning);
    assert_eq!(p.policy_mode, PostExecutionPolicyMode::MetadataOnly);
    assert_eq!(p.compression_aggressiveness, CompressionAggressiveness::Low);
    assert!(p.strip_reasoning);
}

#[test]
fn fallback_keeps_short_output_or_its_errors() {
    assert_eq!(fallback_text("all good"), "all good");
    assert_eq!(fallback_text("a\nbuild FAILED\nb"), "build FAILED");
}

#[test]
fn fallback_cuts_long_output() {
    let long = "x".repeat(2000);
    let r = fallback_text(&long);
    assert_eq!(r.len(), 1000);
    assert!(r.ends_with("...\n[TRUNCATED]"));
    assert_eq!(&r[..985], &long[..985]);
}

#[test]
fn optimize_response_disabled_keeps_command() {
    let r = optimize_response(&OptimizeParams { command: "git status".to_string() }, false);
    assert_eq!(r.original, "git status");
    assert_eq!(r.optimized, "git status");
    assert!(r.flags_added.is_empty());
    assert!(r.skipped);
    assert_eq!(r.skip_reason.as_deref(), Some("pre-execution flags disabled in config"));
}

fn optimize(command: &str) -> rtk_core::daemon::OptimizeResult {
    optimize_response(&OptimizeParams { command: command.to_string() }, true)
}

#[test]
fn test_handle_optimize_git_status() {
    let result = optimize("git status");
    assert_eq!(result.original, "git status");
    assert_eq!(result.optimized, "git status --porcelain -b");
    assert_eq!(result.flags_added, vec!["--porcelain", "-b"]);
    assert!(!result.skipped);
}

#[test]
fn test_handle_optimize_disabled() {
    let result = optimize_response(&OptimizeParams { command: "git status".to_string() }, false);
    assert!(result.skipped);
    assert_eq!(result.original, result.optimized);
}

#[test]
fn test_handle_optimize_unknown_command() {
    let result = optimize("unknown-command");
    assert!(result.skipped);
}

#[test]
fn test_handle_optimize_npm_test() {
    let result = optimize("npm test");
    assert_eq!(result.optimized, "npm test --silent");
    assert!(!result.skipped);
}

#[test]
fn test_handle_optimize_cargo_build() {
    let result = optimize("cargo build");
    assert_eq!(result.optimized, "cargo build --quiet");
    assert!(!result.skipped);
}

#[test]
fn test_handle_optimize_empty_command() {
    let result = optimize("");
    assert!(result.skipped);
}

#[test]
fn test_handle_optimize_piped_command() {
    let result = optimize("git status | grep modified");
    assert!(result.optimized.contains("--porcelain"));
    assert!(result.optimized.contains("| grep modified"));
}
