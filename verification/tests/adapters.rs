use moeb::adapters::{
    http_step, max_attempts, parse_retry_after_value, quota_low, AdapterChoice, DefaultAdapterFactory, FactoryError,
    HttpOutcome, HttpStep,
};

#[test]
fn factory_selects_active_adapter() {
    let f = DefaultAdapterFactory;
    assert_eq!(f.select(&Some("openai".to_string())).unwrap(), AdapterChoice::OpenAi);
    assert_eq!(f.select(&Some("anthropic".to_string())).unwrap(), AdapterChoice::Anthropic);
    let none = f.select(&None).unwrap_err();
    assert!(matches!(none, FactoryError::NoAdapter));
    assert_eq!(none.message(), "No adapter configured. Run `moeb use <adapter>` first.");
    assert!(matches!(f.select(&Some(String::new())), Err(FactoryError::NoAdapter)));
    assert_eq!(
        f.select(&Some("gemini".to_string())).unwrap_err().message(),
        "Adapter 'gemini' is not recognised. Run `moeb use <adapter>` to reconfigure."
    );
}

#[test]
fn http_attempt_outcomes() {
    let max = max_attempts(2);
    assert_eq!(max, 3);
    assert_eq!(http_step(HttpOutcome::Status(200), 0, max, None), HttpStep::Accept);
    assert_eq!(http_step(HttpOutcome::Status(400), 0, max, None), HttpStep::Fail);
    assert_eq!(http_step(HttpOutcome::Status(401), 2, max, None), HttpStep::Fail);
    assert_eq!(http_step(HttpOutcome::Status(429), 0, max, Some(4)), HttpStep::Retry { delay_nanos: 4_000_000_000 });
    assert_eq!(http_step(HttpOutcome::Status(429), 2, max, Some(4)), HttpStep::GiveUp);
    assert_eq!(http_step(HttpOutcome::TransportError, 2, max, None), HttpStep::GiveUp);
    match http_step(HttpOutcome::Status(503), 1, max, Some(4)) {
        HttpStep::Retry { delay_nanos } => assert!(delay_nanos >= 1_500_000_000 && delay_nanos < 2_500_000_000),
        other => panic!("expected a retry, got {:?}", other),
    }
    match http_step(HttpOutcome::TransportError, 0, max, None) {
        HttpStep::Retry { delay_nanos } => assert!(delay_nanos >= 750_000_000 && delay_nanos < 1_250_000_000),
        other => panic!("expected a retry, got {:?}", other),
    }
    assert_eq!(http_step(HttpOutcome::Status(500), 0, max_attempts(0), None), HttpStep::GiveUp);
}

#[test]
fn retry_after_header_is_integer_seconds() {
    assert_eq!(parse_retry_after_value(Some(" 12 ")), Some(12));
    assert_eq!(parse_retry_after_value(Some("Wed, 21 Oct 2015 07:28:00 GMT")), None);
    assert_eq!(parse_retry_after_value(None), None);
}

#[test]
fn quota_warning_below_five() {
    assert!(quota_low("4"));
    assert!(!quota_low("5"));
    assert!(!quota_low("many"));
    assert!(!quota_low(" 1"));
}

use moeb::adapters::{ANTHROPIC_DEFAULT_TIMEOUT_SECS, GEMINI_DEFAULT_MODEL, GEMINI_DEFAULT_TIMEOUT_SECS, OPENAI_DEFAULT_MODEL};
use moeb::config::{AdapterConfig, MoebConfig};
use moeb::str_map::StrMap;

fn config_with(adapter: &str, cfg: AdapterConfig) -> MoebConfig {
    let mut adapters = StrMap::new();
    adapters.insert(adapter.to_string(), cfg);
    let mut config = MoebConfig::default();
    config.adapters = adapters;
    config
}

#[test]
fn openai_adapter_uses_configured_retries() {
    let config = config_with("openai", AdapterConfig { model: None, retries: Some(2), timeout_secs: None });
    assert_eq!(config.adapter_config("openai").effective_retries(), 2);
}

#[test]
fn openai_adapter_uses_default_retries_when_absent() {
    let config = MoebConfig::default();
    assert_eq!(config.adapter_config("openai").effective_retries(), 0);
    assert_eq!(config.adapter_config("openai").effective_model(OPENAI_DEFAULT_MODEL), "gpt-4o");
}

#[test]
fn gemini_adapter_uses_configured_model() {
    let config = config_with(
        "gemini",
        AdapterConfig { model: Some("gemini-1.5-pro".to_string()), retries: None, timeout_secs: None },
    );
    assert_eq!(config.adapter_config("gemini").effective_model(GEMINI_DEFAULT_MODEL), "gemini-1.5-pro");
}

#[test]
fn gemini_adapter_uses_default_model_when_absent() {
    let config = MoebConfig::default();
    assert_eq!(config.adapter_config("gemini").effective_model(GEMINI_DEFAULT_MODEL), "gemini-2.0-flash");
}

#[test]
fn gemini_adapter_uses_configured_timeout() {
    let config = config_with("gemini", AdapterConfig { model: None, retries: None, timeout_secs: Some(120) });
    assert_eq!(config.adapter_config("gemini").effective_timeout_secs(GEMINI_DEFAULT_TIMEOUT_SECS), 120);
}

#[test]
fn gemini_adapter_uses_default_timeout_when_absent() {
    let config = MoebConfig::default();
    assert_eq!(config.adapter_config("gemini").effective_timeout_secs(GEMINI_DEFAULT_TIMEOUT_SECS), 600);
}

#[test]
fn anthropic_adapter_uses_configured_timeout() {
    let config = config_with("anthropic", AdapterConfig { model: None, retries: None, timeout_secs: Some(120) });
    assert_eq!(config.adapter_config("anthropic").effective_timeout_secs(ANTHROPIC_DEFAULT_TIMEOUT_SECS), 120);
}

#[test]
fn anthropic_adapter_uses_default_timeout_when_absent() {
    let config = MoebConfig::default();
    assert_eq!(config.adapter_config("anthropic").effective_timeout_secs(ANTHROPIC_DEFAULT_TIMEOUT_SECS), 600);
}
