//! Configuration values: providers, models, runtime settings, and the
//! consistency check every loaded configuration goes through.
use crate::error::KimiCliError;
use crate::text::{append_vec, chars_of, join_path, path_join, string_of, trim, trim_vec};
use vstd::prelude::*;

verus! {

/// Reference to OAuth credentials stored outside the config file.
#[derive(Debug, Clone)]
pub struct OAuthRef {
    pub storage: String,
    pub key: String,
}

/// LLM provider configuration.
#[derive(Debug, Clone)]
pub struct LlmProvider {
    pub provider_type: String,
    pub base_url: String,
    pub api_key: String,
    pub env: Option<Vec<(String, String)>>,
    pub custom_headers: Option<Vec<(String, String)>>,
    pub oauth: Option<OAuthRef>,
}

/// Model capability flags.
#[derive(Debug, Clone, Copy, PartialEq, Eq, Hash, Structural)]
pub enum ModelCapability {
    ImageIn,
    VideoIn,
    Thinking,
    AlwaysThinking,
}

/// The snake-case name of a capability.
pub open spec fn capability_name_spec(c: ModelCapability) -> Seq<char> {
    match c {
        ModelCapability::ImageIn => "image_in"@,
        ModelCapability::VideoIn => "video_in"@,
        ModelCapability::Thinking => "thinking"@,
        ModelCapability::AlwaysThinking => "always_thinking"@,
    }
}

impl ModelCapability {
    /// The capability's name (what it displays and serializes as).
    pub fn to_string(&self) -> (r: String)
        ensures
            r@ == capability_name_spec(*self),
    {
        match self {
            ModelCapability::ImageIn => "image_in".to_string(),
            ModelCapability::VideoIn => "video_in".to_string(),
            ModelCapability::Thinking => "thinking".to_string(),
            ModelCapability::AlwaysThinking => "always_thinking".to_string(),
        }
    }

    /// The capability with the given name.
    pub fn from_name(s: &str) -> (r: Option<ModelCapability>)
        ensures
            match r {
                Some(c) => capability_name_spec(c) == s@,
                None => forall|c: ModelCapability| capability_name_spec(c) != s@,
            },
    {
        let v = chars_of(s);
        proof {
            reveal_strlit("image_in");
            reveal_strlit("video_in");
            reveal_strlit("thinking");
            reveal_strlit("always_thinking");
        }
        if crate::text::eq_vec(&v, &chars_of("image_in")) {
            Some(ModelCapability::ImageIn)
        } else if crate::text::eq_vec(&v, &chars_of("video_in")) {
            Some(ModelCapability::VideoIn)
        } else if crate::text::eq_vec(&v, &chars_of("thinking")) {
            Some(ModelCapability::Thinking)
        } else if crate::text::eq_vec(&v, &chars_of("always_thinking")) {
            Some(ModelCapability::AlwaysThinking)
        } else {
            None
        }
    }
}

/// Terminal color theme.
#[derive(Debug, Clone, Copy, PartialEq, Eq, Structural)]
pub enum Theme {
    Dark,
    Light,
}

impl Default for Theme {
    fn default() -> (r: Self)
        ensures
            r == Theme::Dark,
    {
        Theme::Dark
    }
}

impl Theme {
    /// The theme's name.
    pub fn to_string(&self) -> (r: String)
        ensures
            r@ == (match *self {
                Theme::Dark => "dark"@,
                Theme::Light => "light"@,
            }),
    {
        match self {
            Theme::Dark => "dark".to_string(),
            Theme::Light => "light".to_string(),
        }
    }
}

/// LLM model configuration.
#[derive(Debug, Clone)]
pub struct LlmModel {
    pub provider: String,
    pub model: String,
    pub max_context_size: usize,
    pub capabilities: Option<Vec<ModelCapability>>,
}

/// Background task runtime configuration.
#[derive(Debug, Clone)]
pub struct BackgroundConfig {
    pub max_running_tasks: usize,
    pub read_max_bytes: usize,
    pub notification_tail_lines: usize,
    pub notification_tail_chars: usize,
    pub wait_poll_interval_ms: usize,
    pub worker_heartbeat_interval_ms: usize,
    pub worker_stale_after_ms: usize,
    pub kill_grace_period_ms: usize,
    pub keep_alive_on_exit: bool,
    pub agent_task_timeout_s: usize,
}

impl Default for BackgroundConfig {
    fn default() -> (r: Self)
        ensures
            r.max_running_tasks == 4,
            r.read_max_bytes == 30_000,
            r.notification_tail_lines == 20,
            r.notification_tail_chars == 3_000,
            r.wait_poll_interval_ms == 500,
            r.worker_heartbeat_interval_ms == 5_000,
            r.worker_stale_after_ms == 15_000,
            r.kill_grace_period_ms == 2_000,
            !r.keep_alive_on_exit,
            r.agent_task_timeout_s == 900,
    {
        BackgroundConfig {
            max_running_tasks: 4,
            read_max_bytes: 30_000,
            notification_tail_lines: 20,
            notification_tail_chars: 3_000,
            wait_poll_interval_ms: 500,
            worker_heartbeat_interval_ms: 5_000,
            worker_stale_after_ms: 15_000,
            kill_grace_period_ms: 2_000,
            keep_alive_on_exit: false,
            agent_task_timeout_s: 900,
        }
    }
}

/// Notification runtime configuration.
#[derive(Debug, Clone)]
pub struct NotificationConfig {
    pub claim_stale_after_ms: usize,
    pub enabled: bool,
    pub desktop: bool,
    pub sound: bool,
}

impl Default for NotificationConfig {
    fn default() -> (r: Self)
        ensures
            r.claim_stale_after_ms == 15_000,
            r.enabled,
            !r.desktop,
            !r.sound,
    {
        NotificationConfig { claim_stale_after_ms: 15_000, enabled: true, desktop: false, sound: false }
    }
}

/// MCP client configuration.
#[derive(Debug, Clone)]
pub struct McpClientConfig {
    pub tool_call_timeout_ms: usize,
}

impl Default for McpClientConfig {
    fn default() -> (r: Self)
        ensures
            r.tool_call_timeout_ms == 60_000,
    {
        McpClientConfig { tool_call_timeout_ms: 60_000 }
    }
}

/// MCP server transport configuration.
#[derive(Debug, Clone)]
pub enum McpServerConfig {
    /// stdio transport: command-based subprocess.
    Stdio { command: String, args: Vec<String>, env: Vec<(String, String)> },
    /// HTTP/SSE transport: remote URL.
    Http {
        url: String,
        transport: String,
        headers: Vec<(String, String)>,
        auth: Option<String>,
    },
}

/// MCP configuration.
#[derive(Debug, Clone)]
pub struct McpConfig {
    pub client: McpClientConfig,
    pub servers: Vec<(String, McpServerConfig)>,
}

impl Default for McpConfig {
    fn default() -> (r: Self)
        ensures
            r.client.tool_call_timeout_ms == 60_000,
            r.servers@.len() == 0,
    {
        McpConfig { client: McpClientConfig::default(), servers: Vec::new() }
    }
}

/// Hook definition.
#[derive(Debug, Clone)]
pub struct HookDef {
    pub event: String,
    pub command: String,
    pub matcher: Option<String>,
    pub timeout: u64,
}

/// Main configuration: the values the library reads. Models and providers
/// are keyed by name, each name at most once.
#[derive(Debug, Clone)]
pub struct Config {
    pub is_from_default_location: bool,
    pub source_file: Option<String>,
    pub default_model: String,
    pub default_thinking: bool,
    pub default_yolo: bool,
    pub default_plan_mode: bool,
    pub default_editor: String,
    pub theme: Theme,
    pub models: Vec<(String, LlmModel)>,
    pub providers: Vec<(String, LlmProvider)>,
    pub background: BackgroundConfig,
    pub notifications: NotificationConfig,
    pub mcp: McpConfig,
    pub hooks: Vec<HookDef>,
    pub merge_all_available_skills: bool,
}

impl Default for Config {
    fn default() -> (r: Self)
        ensures
            !r.is_from_default_location,
            r.source_file is None,
            r.default_model@ == Seq::<char>::empty(),
            !r.default_thinking && !r.default_yolo && !r.default_plan_mode,
            r.default_editor@ == Seq::<char>::empty(),
            r.theme == Theme::Dark,
            r.models@.len() == 0,
            r.providers@.len() == 0,
            r.hooks@.len() == 0,
            !r.merge_all_available_skills,
    {
        Config {
            is_from_default_location: false,
            source_file: None,
            default_model: String::new(),
            default_thinking: false,
            default_yolo: false,
            default_plan_mode: false,
            default_editor: String::new(),
            theme: Theme::Dark,
            models: Vec::new(),
            providers: Vec::new(),
            background: BackgroundConfig::default(),
            notifications: NotificationConfig::default(),
            mcp: McpConfig::default(),
            hooks: Vec::new(),
            merge_all_available_skills: false,
        }
    }
}

/// The names of a keyed list.
pub open spec fn keys_of<T>(v: Seq<(String, T)>) -> Seq<Seq<char>> {
    v.map_values(|p: (String, T)| p.0@)
}

/// Position of the first entry with the given name.
pub open spec fn key_pos<T>(v: Seq<(String, T)>, name: Seq<char>) -> Option<int> {
    if exists|i: int| 0 <= i < v.len() && v[i].0@ == name {
        Some(choose|i: int| 0 <= i < v.len() && v[i].0@ == name && forall|j: int| 0 <= j < i ==> v[j].0@ != name)
    } else {
        None
    }
}

/// The first model whose provider is not configured.
pub open spec fn first_orphan_model(c: Config) -> Option<int> {
    if exists|i: int| 0 <= i < c.models@.len() && !keys_of(c.providers@).contains(c.models@[i].1.provider@) {
        Some(choose|i: int|
            0 <= i < c.models@.len() && !keys_of(c.providers@).contains(c.models@[i].1.provider@)
                && forall|j: int| 0 <= j < i ==> keys_of(c.providers@).contains(c.models@[j].1.provider@))
    } else {
        None
    }
}

/// What validating a configuration gives: the default model must be empty or
/// a configured model, and every model's provider must be configured.
pub open spec fn validate_spec(c: Config) -> Result<(), Seq<char>> {
    if c.default_model@.len() != 0 && !keys_of(c.models@).contains(c.default_model@) {
        Err("default model '"@ + c.default_model@ + "' not found in models"@)
    } else {
        match first_orphan_model(c) {
            Some(i) => Err(
                "provider '"@ + c.models@[i].1.provider@ + "' for model '"@ + c.models@[i].0@
                    + "' not found"@,
            ),
            None => Ok(()),
        }
    }
}

/// Whether a keyed list holds the given name.
pub fn has_key<T>(v: &Vec<(String, T)>, name: &String) -> (r: bool)
    ensures
        r == keys_of(v@).contains(name@),
{
    let mut i: usize = 0;
    while i < v.len()
        invariant
            i <= v.len(),
            forall|j: int| 0 <= j < i ==> v@[j].0@ != name@,
        decreases v.len() - i,
    {
        if v[i].0 == *name {
            assert(keys_of(v@)[i as int] == name@);
            return true;
        }
        i += 1;
    }
    assert forall|j: int| 0 <= j < keys_of(v@).len() implies keys_of(v@)[j] != name@ by {
        assert(keys_of(v@)[j] == v@[j].0@);
    }
    false
}

impl Config {
    /// Checks that the default model and every model's provider are configured.
    pub fn validate(&self) -> (r: Result<(), KimiCliError>)
        ensures
            match validate_spec(*self) {
                Ok(()) => r is Ok,
                Err(m) => r matches Err(KimiCliError::Config(e)) && e@ == m,
            },
    {
        if chars_of(self.default_model.as_str()).len() != 0 && !has_key(&self.models, &self.default_model) {
            let mut m = chars_of("default model '");
            append_vec(&mut m, &chars_of(self.default_model.as_str()));
            append_vec(&mut m, &chars_of("' not found in models"));
            return Err(KimiCliError::Config(string_of(&m)));
        }
        let mut i: usize = 0;
        while i < self.models.len()
            invariant
                i <= self.models.len(),
                !(self.default_model@.len() != 0 && !keys_of(self.models@).contains(self.default_model@)),
                forall|j: int| 0 <= j < i ==> keys_of(self.providers@).contains(self.models@[j].1.provider@),
            decreases self.models.len() - i,
        {
            if !has_key(&self.providers, &self.models[i].1.provider) {
                proof {
                    let ii = i as int;
                    assert(0 <= ii < self.models@.len() && !keys_of(self.providers@).contains(self.models@[ii].1.provider@)
                        && forall|j: int| 0 <= j < ii ==> keys_of(self.providers@).contains(self.models@[j].1.provider@));
                    let k = choose|k: int|
                        0 <= k < self.models@.len() && !keys_of(self.providers@).contains(self.models@[k].1.provider@)
                            && forall|j: int| 0 <= j < k ==> keys_of(self.providers@).contains(self.models@[j].1.provider@);
                    assert(k == ii);
                    assert(first_orphan_model(*self) == Some(ii));
                }
                let mut m = chars_of("provider '");
                append_vec(&mut m, &chars_of(self.models[i].1.provider.as_str()));
                append_vec(&mut m, &chars_of("' for model '"));
                append_vec(&mut m, &chars_of(self.models[i].0.as_str()));
                append_vec(&mut m, &chars_of("' not found"));
                return Err(KimiCliError::Config(string_of(&m)));
            }
            i += 1;
        }
        Ok(())
    }

    /// Adds a model under `name`, replacing a model of that name.
    pub fn insert_model(&mut self, name: String, model: LlmModel)
        ensures
            final(self).models@ == (match key_pos(old(self).models@, name@) {
                Some(i) => old(self).models@.update(i, (name, model)),
                None => old(self).models@.push((name, model)),
            }),
    {
        let mut i: usize = 0;
        while i < self.models.len()
            invariant
                i <= self.models.len(),
                self.models@ == old(self).models@,
                forall|j: int| 0 <= j < i ==> self.models@[j].0@ != name@,
            decreases self.models.len() - i,
        {
            if self.models[i].0 == name {
                proof {
                    let k = choose|k: int| 0 <= k < self.models@.len() && self.models@[k].0@ == name@ && forall|j: int| 0 <= j < k ==> self.models@[j].0@ != name@;
                    assert(k == i as int) by {
                        if k < i {
                        } else if k > i {
                        }
                    }
                }
                self.models.set(i, (name, model));
                return;
            }
            i += 1;
        }
        self.models.push((name, model));
    }

    /// Adds a provider under `name`, replacing a provider of that name.
    pub fn insert_provider(&mut self, name: String, provider: LlmProvider)
        ensures
            final(self).providers@ == (match key_pos(old(self).providers@, name@) {
                Some(i) => old(self).providers@.update(i, (name, provider)),
                None => old(self).providers@.push((name, provider)),
            }),
    {
        let mut i: usize = 0;
        while i < self.providers.len()
            invariant
                i <= self.providers.len(),
                self.providers@ == old(self).providers@,
                forall|j: int| 0 <= j < i ==> self.providers@[j].0@ != name@,
            decreases self.providers.len() - i,
        {
            if self.providers[i].0 == name {
                proof {
                    let k = choose|k: int| 0 <= k < self.providers@.len() && self.providers@[k].0@ == name@ && forall|j: int| 0 <= j < k ==> self.providers@[j].0@ != name@;
                    assert(k == i as int) by {
                        if k < i {
                        } else if k > i {
                        }
                    }
                }
                self.providers.set(i, (name, provider));
                return;
            }
            i += 1;
        }
        self.providers.push((name, provider));
    }
}

/// The configuration file under the share directory.
pub fn get_config_file(share_dir: &str) -> (r: String)
    ensures
        r@ == path_join(share_dir@, "config.toml"@),
{
    join_path(share_dir, "config.toml")
}

/// Configuration text must hold something besides whitespace.
pub fn check_config_text(config_string: &str) -> (r: Result<(), KimiCliError>)
    ensures
        trim(config_string@).len() == 0 <==> r is Err,
        r matches Err(KimiCliError::Config(m)) ==> m@ == "Configuration text cannot be empty"@,
        r is Err ==> r matches Err(KimiCliError::Config(_)),
{
    if trim_vec(&chars_of(config_string)).len() == 0 {
        Err(KimiCliError::Config("Configuration text cannot be empty".to_string()))
    } else {
        Ok(())
    }
}

/// The error for a text that parses neither as JSON nor as TOML.
pub fn invalid_config_text(json_err: &str, toml_err: &str) -> (r: KimiCliError)
    ensures
        r matches KimiCliError::Config(m) && m@ == "Invalid configuration text: "@ + json_err@ + "; "@
            + toml_err@,
{
    let mut m = chars_of("Invalid configuration text: ");
    append_vec(&mut m, &chars_of(json_err));
    append_vec(&mut m, &chars_of("; "));
    append_vec(&mut m, &chars_of(toml_err));
    KimiCliError::Config(string_of(&m))
}

/// A configuration parsed from text: not from a file, then validated.
pub fn finish_config_from_string(config: Config) -> (r: Result<Config, KimiCliError>)
    ensures
        match validate_spec(config) {
            Ok(()) => r matches Ok(c) && !c.is_from_default_location && c.source_file is None
                && c.default_model == config.default_model && c.models == config.models
                && c.providers == config.providers,
            Err(m) => r matches Err(KimiCliError::Config(e)) && e@ == m,
        },
{
    let mut c = config;
    c.is_from_default_location = false;
    c.source_file = None;
    match c.validate() {
        Ok(()) => Ok(c),
        Err(e) => Err(e),
    }
}

} // verus!
