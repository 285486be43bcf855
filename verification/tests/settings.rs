use moeb::config::{MoebConfig, Secrets};
use moeb::settings::{
    adapter_display_name, adapter_key, adapter_value, credential_key_for, decide_new_key, finish_use, kernel_confirmation,
    key_prompt, parse_kernel_setting, release_secret, use_target, AdapterError, AdapterKey, AdapterSetting,
    ConfigureError, KernelSetting, UseError,
};

/// What `moeb configure KEY VALUE` does to a configuration.
fn run_configure(config: &mut MoebConfig, key: &str, value: &str) -> Result<String, String> {
    let setting = parse_kernel_setting(key, value).map_err(|e| e.message())?;
    config.apply_kernel_setting(setting);
    Ok(kernel_confirmation(setting, config))
}

#[test]
fn configure_tests_configure_run_retention_sets_value() {
    let mut cfg = MoebConfig::default();
    run_configure(&mut cfg, "RUN_RETENTION", "10").unwrap();
    assert_eq!(cfg.run_retention, Some(10));
}

#[test]
fn configure_tests_configure_log_file_content_false() {
    let mut cfg = MoebConfig::default();
    run_configure(&mut cfg, "LOG_FILE_CONTENT", "false").unwrap();
    assert_eq!(cfg.log_file_content, Some(false));
}

#[test]
fn configure_tests_configure_prompt_cache_false_round_trips() {
    let mut cfg = MoebConfig::default();
    run_configure(&mut cfg, "PROMPT_CACHE", "false").unwrap();
    assert_eq!(cfg.prompt_cache, Some(false));
    assert!(!cfg.effective_prompt_cache());
}

#[test]
fn configure_tests_configure_rejects_invalid_retention() {
    let mut cfg = MoebConfig::default();
    let err = run_configure(&mut cfg, "RUN_RETENTION", "abc").unwrap_err();
    assert!(err.contains("integer"), "expected 'integer' in error, got: {}", err);
}

#[test]
fn configure_tests_configure_rejects_retention_below_minus_one() {
    let mut cfg = MoebConfig::default();
    let err = run_configure(&mut cfg, "RUN_RETENTION", "-5").unwrap_err();
    assert!(err.contains("-1"), "expected '-1' in error, got: {}", err);
}

#[test]
fn configure_tests_configure_rejects_unknown_key() {
    let mut cfg = MoebConfig::default();
    let msg = run_configure(&mut cfg, "TIMEOUT", "30").unwrap_err();
    assert!(msg.contains("Unknown configuration key"), "expected 'Unknown configuration key', got: {}", msg);
    assert!(
        msg.contains("RUN_RETENTION") && msg.contains("LOG_FILE_CONTENT") && msg.contains("PROMPT_CACHE"),
        "expected valid keys listed, got: {}",
        msg
    );
}

#[test]
fn configure_configure_run_retention_sets_value() {
    let mut cfg = MoebConfig::default();
    run_configure(&mut cfg, "RUN_RETENTION", "10").unwrap();
    assert_eq!(cfg.run_retention, Some(10));
}

#[test]
fn configure_configure_log_file_content_false() {
    let mut cfg = MoebConfig::default();
    run_configure(&mut cfg, "LOG_FILE_CONTENT", "false").unwrap();
    assert_eq!(cfg.log_file_content, Some(false));
}

#[test]
fn configure_configure_prompt_cache_false_round_trips() {
    let mut cfg = MoebConfig::default();
    run_configure(&mut cfg, "PROMPT_CACHE", "false").unwrap();
    assert_eq!(cfg.prompt_cache, Some(false));
    assert!(!cfg.effective_prompt_cache());
}

#[test]
fn configure_configure_rejects_invalid_retention() {
    let mut cfg = MoebConfig::default();
    let err = run_configure(&mut cfg, "RUN_RETENTION", "abc").unwrap_err();
    assert!(err.contains("integer"), "expected 'integer' in error, got: {}", err);
}

#[test]
fn configure_configure_rejects_retention_below_minus_one() {
    let mut cfg = MoebConfig::default();
    let err = run_configure(&mut cfg, "RUN_RETENTION", "-5").unwrap_err();
    assert!(err.contains("-1"), "expected '-1' in error, got: {}", err);
}

#[test]
fn configure_configure_rejects_unknown_key() {
    let mut cfg = MoebConfig::default();
    let msg = run_configure(&mut cfg, "TIMEOUT", "30").unwrap_err();
    assert!(msg.contains("Unknown configuration key"), "expected 'Unknown configuration key', got: {}", msg);
    assert!(
        msg.contains("RUN_RETENTION") && msg.contains("LOG_FILE_CONTENT") && msg.contains("PROMPT_CACHE"),
        "expected valid keys listed, got: {}",
        msg
    );
}

#[test]
fn configure_messages_and_case() {
    let mut cfg = MoebConfig::default();
    assert_eq!(run_configure(&mut cfg, "run_retention", "-1").unwrap(), "RUN_RETENTION set to -1.");
    assert_eq!(run_configure(&mut cfg, "log_file_content", "TRUE").unwrap(), "LOG_FILE_CONTENT set to true.");
    assert_eq!(run_configure(&mut cfg, "Prompt_Cache", "no").unwrap(), "PROMPT_CACHE set to false");
    assert_eq!(run_configure(&mut cfg, "PROMPT_CACHE", "1").unwrap(), "PROMPT_CACHE set to true");
    assert_eq!(
        parse_kernel_setting("timeout", "1").unwrap_err().message(),
        "Unknown configuration key \"TIMEOUT\". Valid keys: RUN_RETENTION, LOG_FILE_CONTENT, PROMPT_CACHE"
    );
    assert_eq!(
        parse_kernel_setting("PROMPT_CACHE", "maybe").unwrap_err().message(),
        "Invalid value 'maybe' for PROMPT_CACHE. Use true or false."
    );
    assert_eq!(
        parse_kernel_setting("LOG_FILE_CONTENT", "1").unwrap_err().message(),
        "LOG_FILE_CONTENT requires true or false. Got: \"1\""
    );
    assert!(matches!(parse_kernel_setting("RUN_RETENTION", "-2"), Err(ConfigureError::RetentionBelowMinusOne)));
    assert_eq!(parse_kernel_setting("RUN_RETENTION", "0").unwrap(), KernelSetting::RunRetention(0));
}

#[test]
fn adapter_keys_depend_on_adapter() {
    assert_eq!(adapter_key("anthropic", "timeout").unwrap(), AdapterKey::Timeout);
    assert_eq!(adapter_key("openai", "Model").unwrap(), AdapterKey::Model);
    assert_eq!(adapter_key("ollama", "RETRIES").unwrap(), AdapterKey::Retries);
    assert_eq!(
        adapter_key("openai", "TIMEOUT").unwrap_err().message(),
        "Unknown key 'TIMEOUT'. Valid keys for openai: MODEL, RETRIES"
    );
    assert_eq!(adapter_key("gemini", "MODEL").unwrap(), AdapterKey::Model);
    assert_eq!(adapter_key("gemini", "timeout").unwrap(), AdapterKey::Timeout);
    assert_eq!(
        adapter_key("bard", "MODEL").unwrap_err().message(),
        "Unknown adapter 'bard'. Known adapters: openai, anthropic, gemini, ollama"
    );
    assert_eq!(
        adapter_key("gemini", "TOKENS").unwrap_err().message(),
        "Unknown key 'TOKENS'. Valid keys for gemini: MODEL, RETRIES, TIMEOUT"
    );
}

#[test]
fn gemini_model_can_be_configured() {
    let mut cfg = MoebConfig::default();
    let key = adapter_key("gemini", "MODEL").unwrap();
    let setting = adapter_value("gemini", key, "gemini-1.5-pro").unwrap();
    cfg.apply_adapter_setting("gemini", setting);
    assert_eq!(cfg.adapter_config("gemini").model.as_deref(), Some("gemini-1.5-pro"));
}

#[test]
fn adapter_values_are_checked() {
    assert!(matches!(adapter_value("openai", AdapterKey::Model, "  "), Err(AdapterError::EmptyModel)));
    assert!(matches!(adapter_value("openai", AdapterKey::Model, " gpt-x "), Ok(AdapterSetting::Model(m)) if m == " gpt-x "));
    assert!(matches!(adapter_value("openai", AdapterKey::Retries, " 4 "), Ok(AdapterSetting::Retries(4))));
    assert!(matches!(adapter_value("anthropic", AdapterKey::Timeout, "900"), Ok(AdapterSetting::Timeout(900))));
    assert_eq!(
        adapter_value("openai", AdapterKey::Retries, "-1").unwrap_err().message(),
        "RETRIES requires a non-negative integer, got '-1'. Example: moeb adapter openai config RETRIES 3"
    );
    assert_eq!(
        adapter_value("anthropic", AdapterKey::Timeout, "soon").unwrap_err().message(),
        "TIMEOUT requires a positive integer (seconds), got 'soon'. Example: moeb adapter anthropic config TIMEOUT 600"
    );
}

#[test]
fn adapter_setting_is_stored_per_adapter() {
    let mut cfg = MoebConfig::default();
    cfg.apply_adapter_setting("anthropic", AdapterSetting::Timeout(30));
    cfg.apply_adapter_setting("anthropic", AdapterSetting::Model("model-y".to_string()));
    let ac = cfg.adapter_config("anthropic");
    assert_eq!(ac.effective_timeout_secs(600), 30);
    assert_eq!(ac.effective_model("d"), "model-y");
    assert_eq!(cfg.adapter_config("openai").effective_model("gpt-4o"), "gpt-4o");
}

#[test]
fn release_clears_active_adapter_and_names_secret() {
    assert_eq!(release_secret("openai").unwrap(), Some("OPENAI_API_KEY"));
    assert_eq!(release_secret("ollama").unwrap(), None);
    assert_eq!(release_secret("gemini").unwrap(), Some("GEMINI_API_KEY"));
    assert!(release_secret("bard").is_err());
    let mut cfg = MoebConfig::default();
    cfg.active_adapter = Some("openai".to_string());
    assert!(!cfg.release_active("anthropic"));
    assert_eq!(cfg.active_adapter.as_deref(), Some("openai"));
    assert!(cfg.release_active("openai"));
    assert!(cfg.active_adapter.is_none());
}

/// What `moeb use ADAPTER` does, the typed key being `input`.
fn run_use(secrets: &mut Secrets, config: &mut MoebConfig, adapter: &str, input: &str) -> Result<String, String> {
    let target = use_target(adapter).map_err(|e| e.message())?;
    let prompt = match target {
        Some(secret_key) => key_prompt(adapter, secrets.get(secret_key).is_some()),
        None => String::new(),
    };
    finish_use(secrets, config, adapter, target, input).map_err(|e| e.message())?;
    Ok(prompt)
}

#[test]
fn use_openai_without_existing_key_requires_non_empty_input() {
    let (mut s, mut c) = (Secrets::empty(), MoebConfig::default());
    let err = run_use(&mut s, &mut c, "openai", "   ").unwrap_err();
    assert!(err.contains("must not be empty"), "unexpected error: {err}");
}

#[test]
fn use_openai_without_existing_key_stores_provided_key() {
    let (mut s, mut c) = (Secrets::empty(), MoebConfig::default());
    run_use(&mut s, &mut c, "openai", "sk-new\n").unwrap();
    assert_eq!(s.get("OPENAI_API_KEY"), Some("sk-new"));
    assert_eq!(c.active_adapter.as_deref(), Some("openai"));
}

#[test]
fn use_openai_with_existing_key_empty_input_keeps_key() {
    let (mut s, mut c) = (Secrets::empty(), MoebConfig::default());
    s.set("OPENAI_API_KEY", "sk-existing");
    run_use(&mut s, &mut c, "openai", "").unwrap();
    assert_eq!(s.get("OPENAI_API_KEY"), Some("sk-existing"));
    assert_eq!(c.active_adapter.as_deref(), Some("openai"));
}

#[test]
fn use_openai_with_existing_key_new_input_replaces_key() {
    let (mut s, mut c) = (Secrets::empty(), MoebConfig::default());
    s.set("OPENAI_API_KEY", "sk-existing");
    run_use(&mut s, &mut c, "openai", "sk-new").unwrap();
    assert_eq!(s.get("OPENAI_API_KEY"), Some("sk-new"));
}

#[test]
fn use_openai_with_existing_key_prompt_mentions_enter_option() {
    let (mut s, mut c) = (Secrets::empty(), MoebConfig::default());
    s.set("OPENAI_API_KEY", "sk-existing");
    let captured_prompt = run_use(&mut s, &mut c, "openai", "").unwrap();
    assert!(
        captured_prompt.contains("press Enter to keep the existing one"),
        "prompt must mention Enter option; got: {captured_prompt}"
    );
}

#[test]
fn use_anthropic_without_existing_key_requires_non_empty_input() {
    let (mut s, mut c) = (Secrets::empty(), MoebConfig::default());
    let err = run_use(&mut s, &mut c, "anthropic", "").unwrap_err();
    assert!(err.contains("must not be empty"), "unexpected error: {err}");
}

#[test]
fn use_anthropic_with_existing_key_empty_input_keeps_key() {
    let (mut s, mut c) = (Secrets::empty(), MoebConfig::default());
    s.set("ANTHROPIC_API_KEY", "sk-ant-existing");
    run_use(&mut s, &mut c, "anthropic", "").unwrap();
    assert_eq!(s.get("ANTHROPIC_API_KEY"), Some("sk-ant-existing"));
    assert_eq!(c.active_adapter.as_deref(), Some("anthropic"));
}

#[test]
fn use_ollama_sets_active_adapter_without_secret() {
    let (mut s, mut c) = (Secrets::empty(), MoebConfig::default());
    run_use(&mut s, &mut c, "ollama", "").unwrap();
    assert_eq!(c.active_adapter.as_deref(), Some("ollama"));
    assert_eq!(s.flush_text(), "");
}

#[test]
fn use_texts() {
    assert_eq!(key_prompt("gemini", false), "Enter Gemini API key: ");
    assert_eq!(adapter_display_name("openai"), "OpenAI");
    assert_eq!(adapter_display_name("mystery"), "mystery");
    assert_eq!(credential_key_for("gemini"), "GEMINI_API_KEY");
    assert_eq!(
        use_target("bard").unwrap_err().message(),
        "Unknown adapter 'bard'. Available adapters: openai, anthropic, gemini, ollama"
    );
    assert!(matches!(decide_new_key("  ", false), Err(UseError::EmptyKey)));
}

#[test]
fn kernel_setting_changes_only_its_own_key() {
    let mut cfg = MoebConfig::default();
    run_configure(&mut cfg, "LOG_FILE_CONTENT", "false").unwrap();
    run_configure(&mut cfg, "RUN_RETENTION", "7").unwrap();
    assert_eq!(cfg.effective_run_retention(), 7);
    assert!(!cfg.effective_log_file_content());
    assert!(cfg.effective_prompt_cache());
    run_configure(&mut cfg, "PROMPT_CACHE", "false").unwrap();
    assert_eq!(cfg.effective_run_retention(), 7);
    assert!(!cfg.effective_log_file_content());
    assert!(!cfg.effective_prompt_cache());
}

#[test]
fn refused_key_changes_nothing() {
    let mut secrets = Secrets::empty();
    let mut config = MoebConfig::default();
    let err = finish_use(&mut secrets, &mut config, "openai", Some("OPENAI_API_KEY"), "   ").unwrap_err();
    assert_eq!(err.message(), "API key must not be empty.");
    assert!(config.active_adapter.is_none());
    assert!(secrets.get("OPENAI_API_KEY").is_none());
    finish_use(&mut secrets, &mut config, "ollama", None, "").unwrap();
    assert_eq!(config.active_adapter.as_deref(), Some("ollama"));
    assert!(secrets.get("OPENAI_API_KEY").is_none());
}
