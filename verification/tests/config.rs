use moeb::config::{config_path, moeb_dir, secrets_path, AdapterConfig, MoebConfig, Secrets, MOEB_DIR};
use moeb::str_map::StrMap;

#[test]
fn effective_spec_retry_limit_defaults_to_three() {
    let config = MoebConfig::default();
    assert_eq!(config.effective_spec_retry_limit(), 3);
}

#[test]
fn adapter_config_returns_default_when_absent() {
    let config = MoebConfig::default();
    assert_eq!(config.adapter_config("openai").effective_model("gpt-4o"), "gpt-4o");
    assert_eq!(config.adapter_config("openai").effective_retries(), 0);
}

#[test]
fn run_retention_defaults_to_minus_one() {
    let config = MoebConfig::default();
    assert_eq!(config.effective_run_retention(), -1);
}

#[test]
fn log_file_content_defaults_to_true() {
    let config = MoebConfig::default();
    assert!(config.effective_log_file_content());
}

#[test]
fn prompt_cache_defaults_to_true() {
    let config = MoebConfig::default();
    assert!(config.effective_prompt_cache(), "prompt_cache must default to true");
}

#[test]
fn compaction_defaults() {
    let config = MoebConfig::default();
    assert!(config.effective_compaction_enabled());
    assert_eq!(config.effective_compaction_threshold(), 80_000);
    assert_eq!(config.effective_compaction_keep_turns(), 3);
}

#[test]
fn configured_values_win_over_defaults() {
    let mut config = MoebConfig::default();
    config.spec_retry_limit = Some(5);
    config.run_retention = Some(10);
    config.log_file_content = Some(false);
    config.prompt_cache = Some(false);
    config.compaction_enabled = Some(false);
    config.compaction_threshold = Some(1234);
    config.compaction_keep_turns = Some(7);
    assert_eq!(config.effective_spec_retry_limit(), 5);
    assert_eq!(config.effective_run_retention(), 10);
    assert!(!config.effective_log_file_content());
    assert!(!config.effective_prompt_cache());
    assert!(!config.effective_compaction_enabled());
    assert_eq!(config.effective_compaction_threshold(), 1234);
    assert_eq!(config.effective_compaction_keep_turns(), 7);
}

#[test]
fn adapter_config_returns_stored_settings() {
    let mut adapters = StrMap::new();
    adapters.insert(
        "anthropic".to_string(),
        AdapterConfig { model: Some("model-x".to_string()), retries: Some(2), timeout_secs: Some(30) },
    );
    let mut config = MoebConfig::default();
    config.adapters = adapters;
    let ac = config.adapter_config("anthropic");
    assert_eq!(ac.effective_model("default"), "model-x");
    assert_eq!(ac.effective_retries(), 2);
    assert_eq!(ac.effective_timeout_secs(600), 30);
    let other = config.adapter_config("openai");
    assert_eq!(other.effective_timeout_secs(600), 600);
}

#[test]
fn paths_live_under_moeb_dir() {
    assert_eq!(MOEB_DIR, ".moeb");
    assert_eq!(moeb_dir(), ".moeb");
    assert_eq!(config_path(), ".moeb/config.toml");
    assert_eq!(secrets_path(), ".moeb/.secrets");
}

#[test]
fn secrets_set_get_remove() {
    let mut secrets = Secrets::empty();
    assert_eq!(secrets.get("OPENAI_API_KEY"), None);
    secrets.set("OPENAI_API_KEY", "sk-1");
    assert_eq!(secrets.get("OPENAI_API_KEY"), Some("sk-1"));
    secrets.set("OPENAI_API_KEY", "sk-2");
    assert_eq!(secrets.get("OPENAI_API_KEY"), Some("sk-2"));
    secrets.remove("OPENAI_API_KEY");
    assert_eq!(secrets.get("OPENAI_API_KEY"), None);
    assert_eq!(secrets.path(), ".moeb/.secrets");
}

#[test]
fn secrets_parse_trims_and_skips_lines_without_equals() {
    let secrets = Secrets::from_text(
        "custom/.secrets".to_string(),
        "  A = one \nno equals here\nB=two=three\r\nA=four\n",
    );
    assert_eq!(secrets.get("A"), Some("four"));
    assert_eq!(secrets.get("B"), Some("two=three"));
    assert_eq!(secrets.get("no equals here"), None);
    assert_eq!(secrets.path(), "custom/.secrets");
}

#[test]
fn secrets_flush_text_round_trips() {
    let mut secrets = Secrets::empty();
    secrets.set("A", "1");
    secrets.set("B", "2");
    let text = secrets.flush_text();
    assert_eq!(text, "A=1\nB=2\n");
    let again = Secrets::from_text(".moeb/.secrets".to_string(), &text);
    assert_eq!(again.get("A"), Some("1"));
    assert_eq!(again.get("B"), Some("2"));
}
