//! What a session starts with: the model and provider it talks to and the
//! modes it starts in.
use crate::config::{key_pos, Config, LlmModel, LlmProvider, McpConfig, ModelCapability, OAuthRef};
use vstd::prelude::*;

verus! {

/// A list of (name, value) pairs as values.
pub open spec fn pairs_v(v: Seq<(String, String)>) -> Seq<(Seq<char>, Seq<char>)> {
    v.map_values(|p: (String, String)| (p.0@, p.1@))
}

pub open spec fn opt_pairs_v(o: Option<Vec<(String, String)>>) -> Option<Seq<(Seq<char>, Seq<char>)>> {
    match o {
        Some(v) => Some(pairs_v(v@)),
        None => None,
    }
}

/// A model configuration as a value.
pub open spec fn model_v(m: LlmModel) -> (Seq<char>, Seq<char>, usize, Option<Seq<ModelCapability>>) {
    (m.provider@, m.model@, m.max_context_size, match m.capabilities {
        Some(c) => Some(c@),
        None => None,
    })
}

/// A provider configuration as a value.
pub open spec fn provider_v(p: LlmProvider) -> (
    Seq<char>,
    Seq<char>,
    Seq<char>,
    Option<Seq<(Seq<char>, Seq<char>)>>,
    Option<Seq<(Seq<char>, Seq<char>)>>,
    Option<(Seq<char>, Seq<char>)>,
) {
    (p.provider_type@, p.base_url@, p.api_key@, opt_pairs_v(p.env), opt_pairs_v(p.custom_headers), match p.oauth {
        Some(o) => Some((o.storage@, o.key@)),
        None => None,
    })
}

fn copy_pairs(v: &Vec<(String, String)>) -> (r: Vec<(String, String)>)
    ensures
        pairs_v(r@) == pairs_v(v@),
{
    let mut r: Vec<(String, String)> = Vec::new();
    let mut i: usize = 0;
    while i < v.len()
        invariant
            i <= v.len(),
            pairs_v(r@) == pairs_v(v@.subrange(0, i as int)),
        decreases v.len() - i,
    {
        let ghost before = r@;
        r.push((v[i].0.clone(), v[i].1.clone()));
        assert(pairs_v(r@) =~= pairs_v(before).push((v@[i as int].0@, v@[i as int].1@)));
        assert(pairs_v(v@.subrange(0, i + 1)) =~= pairs_v(v@.subrange(0, i as int)).push(
            (v@[i as int].0@, v@[i as int].1@),
        ));
        i += 1;
    }
    assert(v@.subrange(0, v.len() as int) =~= v@);
    r
}

fn copy_opt_pairs(o: &Option<Vec<(String, String)>>) -> (r: Option<Vec<(String, String)>>)
    ensures
        opt_pairs_v(r) == opt_pairs_v(*o),
{
    match o {
        Some(v) => Some(copy_pairs(v)),
        None => None,
    }
}

pub(crate) fn copy_caps(v: &Vec<ModelCapability>) -> (r: Vec<ModelCapability>)
    ensures
        r@ == v@,
{
    let mut r: Vec<ModelCapability> = Vec::new();
    let mut i: usize = 0;
    while i < v.len()
        invariant
            i <= v.len(),
            r@ == v@.subrange(0, i as int),
        decreases v.len() - i,
    {
        r.push(v[i]);
        assert(v@.subrange(0, i + 1) =~= v@.subrange(0, i as int).push(v@[i as int]));
        i += 1;
    }
    assert(v@.subrange(0, v.len() as int) =~= v@);
    r
}

fn copy_model(m: &LlmModel) -> (r: LlmModel)
    ensures
        model_v(r) == model_v(*m),
{
    LlmModel {
        provider: m.provider.clone(),
        model: m.model.clone(),
        max_context_size: m.max_context_size,
        capabilities: match &m.capabilities {
            Some(c) => Some(copy_caps(c)),
            None => None,
        },
    }
}

fn copy_provider(p: &LlmProvider) -> (r: LlmProvider)
    ensures
        provider_v(r) == provider_v(*p),
{
    LlmProvider {
        provider_type: p.provider_type.clone(),
        base_url: p.base_url.clone(),
        api_key: p.api_key.clone(),
        env: copy_opt_pairs(&p.env),
        custom_headers: copy_opt_pairs(&p.custom_headers),
        oauth: match &p.oauth {
            Some(o) => Some(OAuthRef { storage: o.storage.clone(), key: o.key.clone() }),
            None => None,
        },
    }
}

/// The model used when none is configured.
pub open spec fn fallback_model_v() -> (Seq<char>, Seq<char>, usize, Option<Seq<ModelCapability>>) {
    ("kimi"@, "kimi-k2.5"@, 128_000usize, None)
}

/// The provider used when none is configured.
pub open spec fn fallback_provider_v() -> (
    Seq<char>,
    Seq<char>,
    Seq<char>,
    Option<Seq<(Seq<char>, Seq<char>)>>,
    Option<Seq<(Seq<char>, Seq<char>)>>,
    Option<(Seq<char>, Seq<char>)>,
) {
    ("kimi"@, "https://api.moonshot.cn"@, ""@, None, None, None)
}

/// The name of the model a session asks for: the one given, else the
/// configured default when there is one.
pub open spec fn wanted_model(config: Config, model_name: Option<Seq<char>>) -> Option<Seq<char>> {
    match model_name {
        Some(n) => Some(n),
        None => if config.default_model@.len() > 0 {
            Some(config.default_model@)
        } else {
            None
        },
    }
}

/// The positions of the model and of its provider a session uses, when the
/// wanted model and its provider are both configured.
pub open spec fn selected(config: Config, model_name: Option<Seq<char>>) -> Option<(int, int)> {
    match wanted_model(config, model_name) {
        None => None,
        Some(n) => match key_pos(config.models@, n) {
            None => None,
            Some(i) => match key_pos(config.providers@, config.models@[i].1.provider@) {
                None => None,
                Some(j) => Some((i, j)),
            },
        },
    }
}

/// The position of the first entry with the given name.
pub fn key_index<T>(v: &Vec<(String, T)>, name: &str) -> (r: Option<usize>)
    ensures
        match key_pos(v@, name@) {
            Some(i) => r matches Some(k) && k as int == i,
            None => r is None,
        },
        r matches Some(k) ==> k < v@.len() && v@[k as int].0@ == name@,
{
    let mut i: usize = 0;
    while i < v.len()
        invariant
            i <= v.len(),
            forall|j: int| 0 <= j < i ==> v@[j].0@ != name@,
        decreases v.len() - i,
    {
        if crate::text::eq_vec(&crate::text::chars_of(v[i].0.as_str()), &crate::text::chars_of(name)) {
            assert(v@[i as int].0@ == name@);
            let ghost k = choose|k: int| 0 <= k < v@.len() && v@[k].0@ == name@ && forall|j: int| 0 <= j < k ==> v@[j].0@ != name@;
            assert(k == i) by {
                if k < i {
                    assert(v@[k].0@ != name@);
                } else if k > i {
                    assert(v@[i as int].0@ != name@);
                }
            }
            return Some(i);
        }
        i += 1;
    }
    None
}

fn wanted_model_name<'a>(config: &'a Config, model_name: Option<&'a str>) -> (r: Option<&'a str>)
    ensures
        match wanted_model(
            *config,
            match model_name {
                Some(n) => Some(n@),
                None => None,
            },
        ) {
            Some(n) => r matches Some(s) && s@ == n,
            None => r is None,
        },
{
    match model_name {
        Some(n) => Some(n),
        None => if crate::text::chars_of(config.default_model.as_str()).len() > 0 {
            Some(config.default_model.as_str())
        } else {
            None
        },
    }
}

/// The model and provider a session talks to (see `selected`), or the
/// built-in fallback when the wanted model or its provider is missing.
pub fn select_model(config: &Config, model_name: Option<&str>) -> (r: (LlmModel, LlmProvider))
    ensures
        match selected(
            *config,
            match model_name {
                Some(n) => Some(n@),
                None => None,
            },
        ) {
            Some((i, j)) => model_v(r.0) == model_v(config.models@[i].1) && provider_v(r.1) == provider_v(
                config.providers@[j].1,
            ),
            None => model_v(r.0) == fallback_model_v() && provider_v(r.1) == fallback_provider_v(),
        },
{
    let ghost mn = match model_name {
        Some(n) => Some(n@),
        None => None,
    };
    match wanted_model_name(config, model_name) {
        None => fallback(),
        Some(n) => match key_index(&config.models, n) {
            None => fallback(),
            Some(i) => {
                let m = &config.models[i].1;
                match key_index(&config.providers, m.provider.as_str()) {
                    None => fallback(),
                    Some(j) => {
                        assert(selected(*config, mn) == Some((i as int, j as int)));
                        (copy_model(m), copy_provider(&config.providers[j].1))
                    },
                }
            },
        },
    }
}

fn fallback() -> (r: (LlmModel, LlmProvider))
    ensures
        model_v(r.0) == fallback_model_v(),
        provider_v(r.1) == fallback_provider_v(),
{
    (
        LlmModel {
            provider: "kimi".to_string(),
            model: "kimi-k2.5".to_string(),
            max_context_size: 128_000,
            capabilities: None,
        },
        LlmProvider {
            provider_type: "kimi".to_string(),
            base_url: "https://api.moonshot.cn".to_string(),
            api_key: "".to_string(),
            env: None,
            custom_headers: None,
            oauth: None,
        },
    )
}

/// The modes a session starts in: thinking as asked or as configured; YOLO
/// if asked or configured; plan mode as asked when resuming, else if asked
/// or configured.
pub fn startup_modes(config: &Config, thinking: Option<bool>, yolo: bool, plan_mode: bool, resumed: bool) -> (r: (
    bool,
    bool,
    bool,
))
    ensures
        r.0 == (match thinking {
            Some(t) => t,
            None => config.default_thinking,
        }),
        r.1 == (yolo || config.default_yolo),
        r.2 == (if resumed { plan_mode } else { plan_mode || config.default_plan_mode }),
{
    let t = match thinking {
        Some(t) => t,
        None => config.default_thinking,
    };
    let p = if resumed {
        plan_mode
    } else {
        plan_mode || config.default_plan_mode
    };
    (t, yolo || config.default_yolo, p)
}

/// The MCP configurations a session loads: the global one, if it names any
/// server.
pub fn session_mcp_configs(global: McpConfig) -> (r: Vec<McpConfig>)
    ensures
        global.servers@.len() == 0 ==> r@.len() == 0,
        global.servers@.len() > 0 ==> r@ == seq![global],
{
    let mut r = Vec::new();
    if global.servers.len() > 0 {
        r.push(global);
    }
    r
}

} // verus!
