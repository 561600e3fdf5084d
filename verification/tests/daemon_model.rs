use rtk_core::config::PostExecutionPolicyMode;
use rtk_core::daemon::model::replacement_allowed;
use rtk_core::config::CompressionAggressiveness;
use rtk_core::daemon::model::{
    accept_model_reply, build_prompt, choose_reply, replace_exec, step_after_compress, NextStep,
};
use rtk_core::daemon::{route_request, Route, INVALID_REQUEST, METHOD_NOT_FOUND};

#[test]
fn prompt_fills_in_template() {
    let p = build_prompt("git status", "M a.rs", 1, 2000);
    assert!(p.starts_with("Compress this command output."));
    assert!(p.contains("Command: git status (exit: 1)\nOutput:\nM a.rs\n\nCompressed:"));
    let n = build_prompt("ls", "x", -7, 2000);
    assert!(n.contains("(exit: -7)"));
}

#[test]
fn prompt_is_cut_to_four_characters_per_token() {
    let p = build_prompt("cat big", &"y".repeat(500), 0, 10);
    assert_eq!(p.chars().count(), 40 + "...\n[TRUNCATED]\n\nCompressed output:".len());
    assert!(p.ends_with("...\n[TRUNCATED]\n\nCompressed output:"));
}

#[test]
fn replace_is_left_to_right_and_not_overlapping() {
    let s: Vec<char> = "aaa-{x}-{x}".chars().collect();
    let t: Vec<char> = "{x}".chars().collect();
    let r: String = replace_exec(&s, "{x}", &t).into_iter().collect();
    assert_eq!(r, "aaa-{x}-{x}");
    let s2: Vec<char> = "aaaa".chars().collect();
    let t2: Vec<char> = "b".chars().collect();
    let r2: String = replace_exec(&s2, "aa", &t2).into_iter().collect();
    assert_eq!(r2, "bb");
}

#[test]
fn reply_prefers_content_then_reasoning() {
    assert_eq!(choose_reply(Some("  done  "), Some("why"), true), Some("done".to_string()));
    assert_eq!(choose_reply(Some("   "), Some(" why "), false), Some("why".to_string()));
    assert_eq!(choose_reply(None, Some("why"), true), None);
    assert_eq!(choose_reply(None, None, false), None);
}

#[test]
fn steps_after_compression() {
    assert_eq!(step_after_compress("git", "x", CompressionAggressiveness::High), NextStep::Keep);
    assert_eq!(step_after_compress("unknown", "x", CompressionAggressiveness::High), NextStep::AskModel);
    let big = "z".repeat(800_001);
    assert_eq!(step_after_compress("unknown", &big, CompressionAggressiveness::High), NextStep::Fallback);
    assert_eq!(step_after_compress("unknown", &big, CompressionAggressiveness::Low), NextStep::AskModel);
}

#[test]
fn model_reply_used_only_when_it_saves() {
    assert_eq!(accept_model_reply(10, "ok"), Some((1, 9)));
    assert_eq!(accept_model_reply(1, "ok"), None);
    assert_eq!(accept_model_reply(0, ""), None);
}

#[test]
fn requests_are_routed_by_method() {
    assert_eq!(route_request("2.0", "compress"), Ok(Route::Compress));
    assert_eq!(route_request("2.0", "shutdown"), Ok(Route::Shutdown));
    assert_eq!(
        route_request("1.0", "compress"),
        Err((INVALID_REQUEST, "Invalid JSON-RPC version (must be \"2.0\")".to_string()))
    );
    assert_eq!(
        route_request("2.0", "launch"),
        Err((METHOD_NOT_FOUND, "Method not found".to_string()))
    );
}

#[test]
fn route_request_reaches_optimize_and_tee_methods() {
    assert_eq!(route_request("2.0", "optimize"), Ok(Route::Optimize));
    assert_eq!(route_request("2.0", "tee_save"), Ok(Route::TeeSave));
    assert_eq!(route_request("2.0", "tee_list"), Ok(Route::TeeList));
    assert_eq!(route_request("2.0", "tee_read"), Ok(Route::TeeRead));
    assert_eq!(route_request("2.0", "tee_clear"), Ok(Route::TeeClear));
}

#[test]
fn replacement_needs_the_replace_policy_and_text() {
    assert!(replacement_allowed(PostExecutionPolicyMode::ReplaceOutput, "3 commits"));
    assert!(!replacement_allowed(PostExecutionPolicyMode::ReplaceOutput, "  \n"));
    assert!(!replacement_allowed(PostExecutionPolicyMode::Off, "3 commits"));
}
