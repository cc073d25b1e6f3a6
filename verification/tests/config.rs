use kimi_cli_rs::config::{
    check_config_text, get_config_file, invalid_config_text, Config, LlmModel, ModelCapability,
    NotificationConfig, Theme,
};

#[test]
fn config_default_is_valid() {
    let cfg = Config::default();
    assert!(cfg.validate().is_ok());
}

#[test]
fn config_validate_missing_default_model() {
    let mut cfg = Config::default();
    cfg.default_model = "missing".into();
    let err = cfg.validate().unwrap_err().to_string();
    assert!(err.contains("missing"));
}

#[test]
fn config_validate_missing_provider() {
    let mut cfg = Config::default();
    cfg.insert_model(
        "test".into(),
        LlmModel {
            provider: "missing".into(),
            model: "m".into(),
            max_context_size: 1,
            capabilities: None,
        },
    );
    let err = cfg.validate().unwrap_err().to_string();
    assert!(err.contains("missing"));
}

#[test]
fn load_config_from_string_empty_error() {
    let err = check_config_text("").unwrap_err().to_string();
    assert!(err.contains("empty"));
    assert!(check_config_text("  \n ").is_err());
    assert!(check_config_text("a = 1").is_ok());
}

#[test]
fn load_config_from_string_invalid_error() {
    let err = invalid_config_text("bad json", "bad toml").to_string();
    assert!(err.contains("Invalid configuration text"));
    assert_eq!(err, "configuration error: Invalid configuration text: bad json; bad toml");
}

#[test]
fn validate_messages_are_exact() {
    let mut cfg = Config::default();
    cfg.default_model = "m".into();
    assert_eq!(
        cfg.validate().unwrap_err().to_string(),
        "configuration error: default model 'm' not found in models"
    );
    cfg.insert_model(
        "m".into(),
        LlmModel { provider: "p".into(), model: "x".into(), max_context_size: 1, capabilities: None },
    );
    assert_eq!(
        cfg.validate().unwrap_err().to_string(),
        "configuration error: provider 'p' for model 'm' not found"
    );
    cfg.insert_model(
        "m".into(),
        LlmModel { provider: "q".into(), model: "y".into(), max_context_size: 2, capabilities: None },
    );
    assert_eq!(cfg.models.len(), 1);
    assert_eq!(cfg.models[0].1.provider, "q");
}

#[test]
fn defaults_and_names() {
    let n = NotificationConfig::default();
    assert!(n.enabled);
    assert_eq!(n.claim_stale_after_ms, 15_000);
    assert_eq!(Theme::default().to_string(), "dark");
    assert_eq!(ModelCapability::Thinking.to_string(), "thinking");
    assert_eq!(ModelCapability::from_name("always_thinking"), Some(ModelCapability::AlwaysThinking));
    assert_eq!(ModelCapability::from_name("x"), None);
    assert_eq!(get_config_file("/home/u/.kimi"), "/home/u/.kimi/config.toml");
}
