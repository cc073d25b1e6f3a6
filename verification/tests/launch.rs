use kimi_cli_rs::config::{Config, LlmModel, LlmProvider, McpConfig, McpServerConfig};
use kimi_cli_rs::ids::random_hex_id;
use kimi_cli_rs::launch::{key_index, select_model, session_mcp_configs, startup_modes};

fn model(provider: &str, name: &str) -> LlmModel {
    LlmModel { provider: provider.into(), model: name.into(), max_context_size: 1000, capabilities: None }
}

fn provider(url: &str) -> LlmProvider {
    LlmProvider {
        provider_type: "openai_legacy".into(),
        base_url: url.into(),
        api_key: "k".into(),
        env: None,
        custom_headers: None,
        oauth: None,
    }
}

fn config() -> Config {
    let mut c = Config::default();
    c.insert_model("fast".into(), model("p1", "fast-1"));
    c.insert_model("lost".into(), model("nowhere", "lost-1"));
    c.insert_provider("p1".into(), provider("https://p1"));
    c
}

#[test]
fn named_model_with_provider() {
    let (m, p) = select_model(&config(), Some("fast"));
    assert_eq!(m.model, "fast-1");
    assert_eq!(p.base_url, "https://p1");
}

#[test]
fn default_model_used_when_none_named() {
    let mut c = config();
    c.default_model = "fast".into();
    let (m, _) = select_model(&c, None);
    assert_eq!(m.model, "fast-1");
}

#[test]
fn fallback_when_missing() {
    for (c, name) in [(config(), Some("lost")), (config(), Some("absent")), (config(), None)] {
        let (m, p) = select_model(&c, name);
        assert_eq!((m.provider.as_str(), m.model.as_str(), m.max_context_size), ("kimi", "kimi-k2.5", 128_000));
        assert_eq!((p.provider_type.as_str(), p.base_url.as_str(), p.api_key.as_str()), ("kimi", "https://api.moonshot.cn", ""));
    }
}

#[test]
fn keys_are_found_by_name() {
    let c = config();
    assert_eq!(key_index(&c.models, "lost"), Some(1));
    assert_eq!(key_index(&c.models, "x"), None);
}

#[test]
fn startup_modes_combine_flags_and_defaults() {
    let mut c = Config::default();
    c.default_thinking = true;
    c.default_yolo = true;
    c.default_plan_mode = true;
    assert_eq!(startup_modes(&c, None, false, false, false), (true, true, true));
    assert_eq!(startup_modes(&c, Some(false), false, false, true), (false, true, false));
    let d = Config::default();
    assert_eq!(startup_modes(&d, None, true, true, false), (false, true, true));
}

#[test]
fn mcp_configs_only_with_servers() {
    assert!(session_mcp_configs(McpConfig::default()).is_empty());
    let mut m = McpConfig::default();
    m.servers.push((
        "s".into(),
        McpServerConfig::Stdio { command: "x".into(), args: Vec::new(), env: Vec::new() },
    ));
    assert_eq!(session_mcp_configs(m).len(), 1);
}

#[test]
fn hex_ids_are_random() {
    let a = random_hex_id();
    let b = random_hex_id();
    assert_eq!(a.len(), 32);
    assert!(a.chars().all(|c| c.is_ascii_hexdigit() && !c.is_ascii_uppercase()));
    assert_ne!(a, b);
}
