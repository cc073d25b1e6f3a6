use kimi_cli_rs::config::{LlmModel, LlmProvider, ModelCapability};
use kimi_cli_rs::config::Config;
use kimi_cli_rs::error::KimiCliError;
use kimi_cli_rs::llm::{
    api_key_env_var, base_url_env_var, clone_llm_with_model_alias, create_llm, Llm, derive_model_capabilities, model_display_name,
    normalize_llm_base_url, ProviderType,
};

#[test]
fn normalize_strips_trailing_slash() {
    assert_eq!(
        normalize_llm_base_url("https://api.moonshot.cn/"),
        "https://api.moonshot.cn"
    );
}

#[test]
fn normalize_strips_v1_suffix() {
    assert_eq!(
        normalize_llm_base_url("https://api.moonshot.cn/v1"),
        "https://api.moonshot.cn"
    );
    assert_eq!(
        normalize_llm_base_url("https://api.moonshot.cn/v1/"),
        "https://api.moonshot.cn"
    );
}

#[test]
fn normalize_leaves_host_only() {
    assert_eq!(
        normalize_llm_base_url("https://api.moonshot.cn"),
        "https://api.moonshot.cn"
    );
}

#[test]
fn normalize_trims_and_strips_repeated_slashes() {
    assert_eq!(normalize_llm_base_url("  https://h/v1//  "), "https://h");
    assert_eq!(normalize_llm_base_url("https://h/v1/v1"), "https://h/v1");
    assert_eq!(normalize_llm_base_url("///"), "");
}

#[test]
fn display_names() {
    assert_eq!(model_display_name(Some("kimi-code")), "kimi-code (powered by kimi-k2.5)");
    assert_eq!(
        model_display_name(Some("kimi-for-coding")),
        "kimi-for-coding (powered by kimi-k2.5)"
    );
    assert_eq!(model_display_name(Some("other")), "other");
    assert_eq!(model_display_name(None), "");
}

#[test]
fn provider_type_names_roundtrip() {
    for p in [
        ProviderType::Kimi,
        ProviderType::OpenAiLegacy,
        ProviderType::OpenAiResponses,
        ProviderType::Anthropic,
        ProviderType::GoogleGenAi,
        ProviderType::Gemini,
        ProviderType::VertexAi,
        ProviderType::Echo,
        ProviderType::ScriptedEcho,
        ProviderType::Chaos,
    ] {
        assert_eq!(ProviderType::from_name(&p.to_string()), Some(p));
    }
    assert_eq!(ProviderType::from_name("openai"), None);
    assert_eq!(base_url_env_var(ProviderType::Gemini), Some("GOOGLE_GENAI_BASE_URL"));
    assert_eq!(api_key_env_var(ProviderType::Echo), None);
}

fn model(name: &str, caps: Option<Vec<ModelCapability>>) -> LlmModel {
    LlmModel { provider: "p".into(), model: name.into(), max_context_size: 1000, capabilities: caps }
}

#[test]
fn capabilities_from_name() {
    let caps = derive_model_capabilities(&model("Kimi-Thinking-Preview", None));
    assert!(caps.contains(&ModelCapability::Thinking));
    assert!(caps.contains(&ModelCapability::AlwaysThinking));
    assert_eq!(caps.len(), 2);
    let caps = derive_model_capabilities(&model("kimi-code", Some(vec![ModelCapability::Thinking])));
    assert_eq!(caps.len(), 3);
    assert!(caps.contains(&ModelCapability::ImageIn));
    assert!(caps.contains(&ModelCapability::VideoIn));
    let caps = derive_model_capabilities(&model("plain", Some(vec![ModelCapability::ImageIn, ModelCapability::ImageIn])));
    assert_eq!(caps, vec![ModelCapability::ImageIn]);
}

#[test]
fn create_llm_uses_overrides_and_normalizes() {
    let provider = LlmProvider {
        provider_type: "kimi".into(),
        base_url: "https://api.example.com/v1/".into(),
        api_key: "key".into(),
        env: None,
        custom_headers: None,
        oauth: None,
    };
    let llm = create_llm(&provider, &model("m", None), Some(true), None, Some("env-key".into()));
    assert_eq!(llm.provider_type, ProviderType::Kimi);
    assert_eq!(llm.base_url, "https://api.example.com");
    assert_eq!(llm.api_key, "env-key");
    assert_eq!(llm.capabilities, vec![ModelCapability::Thinking]);
    let echo = LlmProvider { provider_type: "_echo".into(), base_url: "x/v1".into(), ..provider };
    let llm = create_llm(&echo, &model("m", None), None, None, None);
    assert_eq!(llm.provider_type, ProviderType::Echo);
    assert_eq!(llm.base_url, "x/v1");
    assert_eq!(llm.api_key, "key");
}

fn alias_config() -> Config {
    let mut config = Config::default();
    config.insert_provider(
        "p".into(),
        LlmProvider {
            provider_type: "anthropic".into(),
            base_url: "https://a.example/v1".into(),
            api_key: "k".into(),
            env: None,
            custom_headers: None,
            oauth: None,
        },
    );
    config.insert_model("fast".into(), model("model-x", None));
    config.insert_model("lost".into(), LlmModel { provider: "nowhere".into(), ..model("m", None) });
    config
}

#[test]
fn clone_llm_without_alias_keeps_settings() {
    let config = alias_config();
    let llm = Llm { model_name: "orig".into(), ..Llm::default() };
    let r = clone_llm_with_model_alias(Some(&llm), &config, None, &Vec::new()).unwrap().unwrap();
    assert_eq!(r.model_name, "orig");
    assert!(clone_llm_with_model_alias(None, &config, None, &Vec::new()).unwrap().is_none());
}

#[test]
fn clone_llm_switches_to_alias() {
    let config = alias_config();
    let llm = Llm { thinking: Some(true), scripted_echo_lines: vec!["a".into()], ..Llm::default() };
    let env = vec![("ANTHROPIC_API_KEY".to_string(), "env-k".to_string()), ("OTHER".to_string(), "x".to_string())];
    let r = clone_llm_with_model_alias(Some(&llm), &config, Some("fast"), &env).unwrap().unwrap();
    assert_eq!(r.model_name, "model-x");
    assert_eq!(r.provider_type, ProviderType::Anthropic);
    assert_eq!(r.base_url, "https://a.example");
    assert_eq!(r.api_key, "env-k");
    assert_eq!(r.thinking, Some(true));
    assert_eq!(r.capabilities, vec![ModelCapability::Thinking]);
    assert_eq!(r.scripted_echo_lines, vec!["a".to_string()]);
}

#[test]
fn clone_llm_reports_unknown_alias_and_missing_provider() {
    let config = alias_config();
    match clone_llm_with_model_alias(None, &config, Some("nope"), &Vec::new()) {
        Err(KimiCliError::Config(m)) => assert_eq!(m, "Unknown model alias: nope"),
        _ => panic!("expected a configuration error"),
    }
    match clone_llm_with_model_alias(None, &config, Some("lost"), &Vec::new()) {
        Err(KimiCliError::Config(m)) => assert_eq!(m, "Provider not found for model: lost"),
        _ => panic!("expected a configuration error"),
    }
}
