use rtk_core::config::{
    glob_matches, resolve_model_policy, CompressionAggressiveness, DaemonConfig, ModelAutoConfig,
    ModelCategory, ModelOverride, OpenRouterConfig, PostExecutionPolicyMode, TeeConfig,
};

#[test]
fn test_glob_matches_wildcards_case_insensitive() {
    assert!(glob_matches(
        "openai/gpt-oss*",
        "openai/gpt-oss-safeguard-20b"
    ));
    assert!(glob_matches(
        "META-LLAMA/*",
        "meta-llama/llama-3.1-8b-instruct"
    ));
    assert!(glob_matches(
        "*/llama-3.?-8b-*",
        "meta-llama/llama-3.1-8b-instruct"
    ));
    assert!(!glob_matches(
        "openai/gpt-oss?",
        "openai/gpt-oss-safeguard-20b"
    ));
}

#[test]
fn test_resolve_model_policy_disabled() {
    let mut auto = ModelAutoConfig::default();
    auto.enabled = false;
    assert!(resolve_model_policy(&auto, &Vec::new(), "openai/gpt-oss-safeguard-20b").is_none());
}

#[test]
fn test_resolve_model_policy_default_and_override() {
    let auto = ModelAutoConfig {
        enabled: true,
        default_category: ModelCategory::Instruct,
        default_policy_mode: PostExecutionPolicyMode::MetadataOnly,
        default_compression_aggressiveness: CompressionAggressiveness::Medium,
        strip_reasoning: true,
    };
    let rules = vec![ModelOverride {
        match_pattern: "openai/gpt-oss*".to_string(),
        category: Some(ModelCategory::Reasoning),
        policy_mode: Some(PostExecutionPolicyMode::MetadataOnly),
        compression_aggressiveness: Some(CompressionAggressiveness::Low),
        strip_reasoning: Some(true),
    }];

    let overridden = resolve_model_policy(&auto, &rules, "openai/gpt-oss-safeguard-20b").unwrap();
    assert_eq!(overridden.category, ModelCategory::Reasoning);
    assert_eq!(
        overridden.compression_aggressiveness,
        CompressionAggressiveness::Low
    );
    assert!(overridden.strip_reasoning);

    let defaulted = resolve_model_policy(&auto, &rules, "meta-llama/llama-3.1-8b-instruct").unwrap();
    assert_eq!(defaulted.category, ModelCategory::Instruct);
    assert_eq!(
        defaulted.compression_aggressiveness,
        CompressionAggressiveness::Medium
    );
    assert_eq!(defaulted.policy_mode, PostExecutionPolicyMode::MetadataOnly);
}

#[test]
fn test_tee_config_default() {
    let tee = TeeConfig::defaults_in("/tmp/tee".to_string());
    assert!(tee.enabled);
    assert_eq!(tee.mode, "failures");
    assert_eq!(tee.max_files, 20);
    assert_eq!(tee.retention_days, 90);
}

#[test]
fn test_openrouter_config_default() {
    let cfg = OpenRouterConfig::defaults_for("openai/gpt-oss-20b".to_string());
    assert_eq!(cfg.api_key_env, "OPENROUTER_API_KEY");
    assert_eq!(cfg.model, "openai/gpt-oss-20b");
    assert_eq!(cfg.base_url, "https://openrouter.ai/api/v1");
    assert_eq!(cfg.max_input_tokens, 2000);
    assert_eq!(cfg.max_output_tokens, 100);
}

#[test]
fn daemon_config_default_values() {
    let d = DaemonConfig::default();
    assert_eq!(d.socket_path, "/tmp/opencode-rtk.sock");
    assert_eq!(d.max_connections, 100);
    assert_eq!(d.timeout_seconds, 5);
    assert!(d.auto_restart);
    assert!(d.tcp_address.is_none());
}

#[test]
fn resolve_model_policy_first_rule_wins_and_blank_rules_skipped() {
    let auto = ModelAutoConfig {
        enabled: true,
        ..ModelAutoConfig::default()
    };
    let rules = vec![
        ModelOverride {
            match_pattern: "   ".to_string(),
            category: Some(ModelCategory::Compact),
            policy_mode: None,
            compression_aggressiveness: None,
            strip_reasoning: None,
        },
        ModelOverride {
            match_pattern: "*llama*".to_string(),
            category: Some(ModelCategory::Reasoning),
            policy_mode: None,
            compression_aggressiveness: None,
            strip_reasoning: Some(false),
        },
        ModelOverride {
            match_pattern: "meta-*".to_string(),
            category: Some(ModelCategory::Compact),
            policy_mode: Some(PostExecutionPolicyMode::Off),
            compression_aggressiveness: None,
            strip_reasoning: None,
        },
    ];
    let p = resolve_model_policy(&auto, &rules, "  meta-llama/x  ").unwrap();
    assert_eq!(p.model_id, "meta-llama/x");
    assert_eq!(p.category, ModelCategory::Reasoning);
    assert_eq!(p.policy_mode, PostExecutionPolicyMode::MetadataOnly);
    assert_eq!(p.compression_aggressiveness, CompressionAggressiveness::Medium);
    assert!(!p.strip_reasoning);
}

#[test]
fn glob_escapes_regex_characters() {
    assert!(glob_matches("a.b", "A.B"));
    assert!(!glob_matches("a.b", "axb"));
    assert!(glob_matches("(x)+", "(x)+"));
}

#[test]
fn default_model_setting_is_trimmed_or_replaced() {
    assert_eq!(rtk_core::config::default_model_from(Some("  vendor/model \n")), "vendor/model");
    assert_eq!(rtk_core::config::default_model_from(Some("   ")), "openai/gpt-oss-20b");
    assert_eq!(rtk_core::config::default_model_from(None), "openai/gpt-oss-20b");
}

#[test]
fn key_file_contents_are_trimmed() {
    assert_eq!(rtk_core::config::key_from_file_contents("sk-abc\n"), Some("sk-abc".to_string()));
    assert_eq!(rtk_core::config::key_from_file_contents(" \n\t"), None);
}

#[test]
fn test_default_model_with_env_var() {
    let model = rtk_core::config::default_model_from(Some("meta-llama/llama-3-70b"));
    assert_eq!(model, "meta-llama/llama-3-70b");
}

#[test]
fn test_default_model_with_empty_env_var() {
    let model = rtk_core::config::default_model_from(Some(""));
    assert_eq!(model, "openai/gpt-oss-20b");
}

#[test]
fn test_default_model_with_whitespace() {
    let model = rtk_core::config::default_model_from(Some("  meta-llama/llama-3-70b  "));
    assert_eq!(model, "meta-llama/llama-3-70b");
}

#[test]
fn test_default_model_without_env_var() {
    let model = rtk_core::config::default_model_from(None);
    assert_eq!(model, "openai/gpt-oss-20b");
}
